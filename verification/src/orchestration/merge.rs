//! Moving context entries between a parent run and a subgraph run: taking
//! chosen keys into a child's context, and merging a child's context back.

use crate::kv::{kv_get, kv_map, kv_set};
use crate::text::{copy_string, str_eq};
use vstd::prelude::*;

verus! {

broadcast use vstd::string::group_string_axioms;

/// The keys of a list, as a set.
pub open spec fn key_set(keys: Seq<String>) -> Set<Seq<char>> {
    Set::new(|k: Seq<char>| exists|i: int| 0 <= i < keys.len() && (#[trigger] keys[i])@ == k)
}

/// One more key in the list adds it to the set.
proof fn lemma_key_set_step(keys: Seq<String>, i: int)
    requires
        0 <= i < keys.len(),
    ensures
        key_set(keys.take(i + 1)) == key_set(keys.take(i)).insert(keys[i]@),
{
    assert forall|x: Seq<char>| #[trigger] key_set(keys.take(i + 1)).contains(x) <==> key_set(keys.take(i)).insert(
        keys[i]@,
    ).contains(x) by {
        if x == keys[i]@ {
            assert(keys.take(i + 1)[i] == keys[i]);
        }
        if key_set(keys.take(i)).contains(x) {
            let j = choose|j: int| 0 <= j < i && (#[trigger] keys.take(i)[j])@ == x;
            assert(keys.take(i + 1)[j] == keys.take(i)[j]);
        }
        if key_set(keys.take(i + 1)).contains(x) {
            let j = choose|j: int| 0 <= j < i + 1 && (#[trigger] keys.take(i + 1)[j])@ == x;
            if j < i {
                assert(keys.take(i)[j] == keys.take(i + 1)[j]);
            }
        }
    }
    assert(key_set(keys.take(i + 1)) =~= key_set(keys.take(i)).insert(keys[i]@));
}

/// The entries of `context` under the given keys: the context a mapped
/// child run starts with.
pub fn context_subset(context: &Vec<(String, String)>, keys: &Vec<String>) -> (r: Vec<(String, String)>)
    ensures
        kv_map(r@) == kv_map(context@).restrict(key_set(keys@)),
{
    let mut r: Vec<(String, String)> = Vec::new();
    let mut i: usize = 0;
    while i < keys.len()
        invariant
            i <= keys@.len(),
            kv_map(r@) == kv_map(context@).restrict(key_set(keys@.take(i as int))),
        decreases keys@.len() - i,
    {
        let k = &keys[i];
        let ghost before = r@;
        proof {
            assert(keys@.take(i + 1) == keys@.take(i as int).push(keys@[i as int]));
        }
        proof {
            lemma_key_set_step(keys@, i as int);
        }
        match kv_get(context, k.as_str()) {
            Some(v) => {
                kv_set(&mut r, k.as_str(), copy_string(v));
                assert(kv_map(r@) =~= kv_map(context@).restrict(key_set(keys@.take(i + 1))));
            },
            None => {
                assert(kv_map(r@) =~= kv_map(context@).restrict(key_set(keys@.take(i + 1))));
            },
        }
        i += 1;
    }
    assert(keys@.take(keys@.len() as int) == keys@);
    r
}

/// Merges every entry of a child's context into the parent's; the child's
/// value wins for a key both hold.
pub fn merge_context(parent: &mut Vec<(String, String)>, child: &Vec<(String, String)>)
    ensures
        kv_map(final(parent)@) == kv_map(old(parent)@).union_prefer_right(kv_map(child@)),
{
    let ghost p0 = kv_map(parent@);
    let mut i: usize = 0;
    while i < child.len()
        invariant
            i <= child@.len(),
            kv_map(parent@) == p0.union_prefer_right(kv_map(child@.take(i as int))),
        decreases child@.len() - i,
    {
        let (k, v) = (&child[i].0, &child[i].1);
        kv_set(parent, k.as_str(), copy_string(v));
        proof {
            assert(child@.take(i + 1).drop_last() == child@.take(i as int));
            assert(kv_map(parent@) =~= p0.union_prefer_right(kv_map(child@.take(i + 1))));
        }
        i += 1;
    }
    assert(child@.take(child@.len() as int) == child@);
}

/// Merges the child's entries under the given keys into the parent's
/// context; the child's value wins for a key both hold.
pub fn merge_context_for_keys(parent: &mut Vec<(String, String)>, child: &Vec<(String, String)>, keys: &Vec<String>)
    ensures
        kv_map(final(parent)@) == kv_map(old(parent)@).union_prefer_right(
            kv_map(child@).restrict(key_set(keys@)),
        ),
{
    let picked = context_subset(child, keys);
    merge_context(parent, &picked);
}


/// Which configured subgraph a result belongs to: the first whose id it
/// carries, if any. Only results matched here are merged back.
pub fn subgraph_position(ids: &Vec<String>, id: &str) -> (r: Option<usize>)
    ensures
        match r {
            Some(k) => k < ids@.len() && ids@[k as int]@ == id@ && forall|j: int|
                0 <= j < k ==> (#[trigger] ids@[j])@ != id@,
            None => forall|j: int| 0 <= j < ids@.len() ==> (#[trigger] ids@[j])@ != id@,
        },
{
    let mut i: usize = 0;
    while i < ids.len()
        invariant
            i <= ids@.len(),
            forall|j: int| 0 <= j < i ==> (#[trigger] ids@[j])@ != id@,
        decreases ids@.len() - i,
    {
        if str_eq(ids[i].as_str(), id) {
            return Some(i);
        }
        i += 1;
    }
    None
}

} // verus!
