//! String-keyed tables held as lists of pairs, where a later pair for a key
//! replaces an earlier one.

use crate::text::str_eq;
use vstd::prelude::*;

verus! {

/// The map a list of pairs denotes: later pairs replace earlier ones.
pub open spec fn kv_map(v: Seq<(String, String)>) -> Map<Seq<char>, Seq<char>>
    decreases v.len(),
{
    if v.len() == 0 {
        Map::empty()
    } else {
        kv_map(v.drop_last()).insert(v.last().0@, v.last().1@)
    }
}

proof fn lemma_kv_map_absent(v: Seq<(String, String)>, key: Seq<char>, n: int)
    requires
        0 <= n <= v.len(),
        forall|k: int| 0 <= k < n ==> (#[trigger] v[k]).0@ != key,
    ensures
        !kv_map(v.take(n)).contains_key(key),
    decreases n,
{
    if n > 0 {
        assert(v.take(n).drop_last() == v.take(n - 1));
        lemma_kv_map_absent(v, key, n - 1);
    }
}

proof fn lemma_kv_map_last(v: Seq<(String, String)>, key: Seq<char>, j: int, n: int)
    requires
        0 <= j < n <= v.len(),
        v[j].0@ == key,
        forall|k: int| j < k < n ==> (#[trigger] v[k]).0@ != key,
    ensures
        kv_map(v.take(n)).contains_key(key),
        kv_map(v.take(n))[key] == v[j].1@,
    decreases n,
{
    assert(v.take(n).drop_last() == v.take(n - 1));
    if n - 1 > j {
        lemma_kv_map_last(v, key, j, n - 1);
    }
}

/// The value the table holds for `key`.
pub fn kv_get<'a>(v: &'a Vec<(String, String)>, key: &str) -> (r: Option<&'a String>)
    ensures
        match r {
            Some(s) => kv_map(v@).contains_key(key@) && kv_map(v@)[key@] == s@,
            None => !kv_map(v@).contains_key(key@),
        },
{
    let mut i: usize = v.len();
    while i > 0
        invariant
            i <= v@.len(),
            forall|k: int| i <= k < v@.len() ==> (#[trigger] v@[k]).0@ != key@,
        decreases i,
    {
        i -= 1;
        if str_eq(v[i].0.as_str(), key) {
            proof {
                lemma_kv_map_last(v@, key@, i as int, v@.len() as int);
                assert(v@.take(v@.len() as int) == v@);
            }
            return Some(&v[i].1);
        }
    }
    proof {
        lemma_kv_map_absent(v@, key@, v@.len() as int);
        assert(v@.take(v@.len() as int) == v@);
    }
    None
}

/// The pairs of `v` under keys other than `key`.
pub open spec fn without_key(v: Seq<(String, String)>, key: Seq<char>) -> Seq<(String, String)>
    decreases v.len(),
{
    if v.len() == 0 {
        Seq::empty()
    } else if v.last().0@ == key {
        without_key(v.drop_last(), key)
    } else {
        without_key(v.drop_last(), key).push(v.last())
    }
}

proof fn lemma_without_key_map(v: Seq<(String, String)>, key: Seq<char>)
    ensures
        kv_map(without_key(v, key)) == kv_map(v).remove(key),
    decreases v.len(),
{
    if v.len() > 0 {
        lemma_without_key_map(v.drop_last(), key);
        if v.last().0@ == key {
            assert(kv_map(v).remove(key) =~= kv_map(v.drop_last()).remove(key));
        } else {
            let w = without_key(v.drop_last(), key);
            assert(w.push(v.last()).drop_last() == w);
            assert(kv_map(w.push(v.last())) =~= kv_map(v).remove(key));
        }
    } else {
        assert(kv_map(v).remove(key) =~= Map::<Seq<char>, Seq<char>>::empty());
    }
}

/// Removes every pair under `key`, giving back the value the table held
/// for it.
pub fn kv_remove(v: &mut Vec<(String, String)>, key: &str) -> (r: Option<String>)
    ensures
        kv_map(final(v)@) == kv_map(old(v)@).remove(key@),
        match r {
            Some(s) => kv_map(old(v)@).contains_key(key@) && kv_map(old(v)@)[key@] == s@,
            None => !kv_map(old(v)@).contains_key(key@),
        },
{
    let found = match kv_get(v, key) {
        Some(s) => Some(s.clone()),
        None => None,
    };
    let ghost orig = v@;
    let mut kept: Vec<(String, String)> = Vec::new();
    let mut i: usize = 0;
    while i < v.len()
        invariant
            i <= v@.len(),
            v@ == orig,
            kept@ == without_key(orig.take(i as int), key@),
        decreases v@.len() - i,
    {
        proof {
            assert(orig.take(i + 1).drop_last() == orig.take(i as int));
            assert(orig.take(i + 1).last() == orig[i as int]);
        }
        if !str_eq(v[i].0.as_str(), key) {
            kept.push((v[i].0.clone(), v[i].1.clone()));
        }
        i += 1;
    }
    proof {
        assert(orig.take(orig.len() as int) == orig);
        lemma_without_key_map(orig, key@);
    }
    *v = kept;
    found
}

/// Sets the value for `key`, replacing any earlier one.
pub fn kv_set(v: &mut Vec<(String, String)>, key: &str, value: String)
    ensures
        kv_map(final(v)@) == kv_map(old(v)@).insert(key@, value@),
{
    let _ = kv_remove(v, key);
    let ghost before = v@;
    v.push((key.to_string(), value));
    proof {
        assert(v@.drop_last() == before);
        assert(kv_map(v@) =~= kv_map(before).insert(key@, value@));
    }
}

} // verus!
