//! Ordering records by ranked keys, highest first, keeping the given
//! order among equal keys (the order a stable descending sort produces).

use vstd::prelude::*;

verus! {

/// Position `a` ranks before position `b`: a higher primary key, or an equal
/// primary and higher secondary key, or equal keys and an earlier position.
pub open spec fn ranks_before(keys: Seq<(i128, i128)>, a: int, b: int) -> bool {
    ||| keys[a].0 > keys[b].0
    ||| (keys[a].0 == keys[b].0 && keys[a].1 > keys[b].1)
    ||| (keys[a].0 == keys[b].0 && keys[a].1 == keys[b].1 && a < b)
}

/// `order` lists every position of `keys` once, best ranked first.
pub open spec fn is_rank_order(keys: Seq<(i128, i128)>, order: Seq<usize>) -> bool {
    &&& order.len() == keys.len()
    &&& forall|i: int| 0 <= i < order.len() ==> (#[trigger] order[i]) < keys.len()
    &&& forall|j: int| 0 <= j < keys.len() ==> #[trigger] order.contains(j as usize)
    &&& forall|i: int, j: int|
        0 <= i < j < order.len() ==> ranks_before(keys, #[trigger] order[i] as int, #[trigger] order[j] as int)
}

/// `r` lists the best `limit` of `sel` by the ranking `keys` (one key per
/// element of `sel`), best first, equal keys in their order in `sel`.
pub open spec fn ranked_prefix<T>(r: Seq<T>, sel: Seq<T>, keys: Seq<(i128, i128)>, limit: nat) -> bool {
    &&& keys.len() == sel.len()
    &&& r.len() == if sel.len() < limit { sel.len() } else { limit }
    &&& exists|order: Seq<usize>|
        is_rank_order(keys, order) && forall|k: int| 0 <= k < r.len() ==> #[trigger] r[k] == sel[order[k] as int]
}

/// Removing the one element that fails `pred` is filtering by `pred`.
pub proof fn lemma_filter_drops_one<T>(s: Seq<T>, pred: spec_fn(T) -> bool, p: int)
    requires
        0 <= p < s.len(),
        !pred(s[p]),
        forall|i: int| 0 <= i < s.len() && i != p ==> pred(#[trigger] s[i]),
    ensures
        s.filter(pred) == s.remove(p),
    decreases s.len(),
{
    let init = s.drop_last();
    assert(s == init.push(s.last()));
    init.lemma_filter_push(s.last(), pred);
    if p == s.len() - 1 {
        assert forall|i: int| 0 <= i < init.len() implies pred(#[trigger] init[i]) by {
            assert(s[i] == init[i]);
        }
        lemma_filter_keeps_all(init, pred);
        assert(s.remove(p) =~= init);
    } else {
        assert forall|i: int| 0 <= i < init.len() && i != p implies pred(#[trigger] init[i]) by {
            assert(s[i] == init[i]);
        }
        assert(init[p] == s[p]);
        lemma_filter_drops_one(init, pred, p);
        assert(s.remove(p) =~= init.remove(p).push(s.last()));
    }
}

/// Filtering by a predicate every element meets changes nothing.
pub proof fn lemma_filter_keeps_all<T>(s: Seq<T>, pred: spec_fn(T) -> bool)
    requires
        forall|i: int| 0 <= i < s.len() ==> pred(#[trigger] s[i]),
    ensures
        s.filter(pred) == s,
    decreases s.len(),
{
    if s.len() > 0 {
        let init = s.drop_last();
        assert(s == init.push(s.last()));
        init.lemma_filter_push(s.last(), pred);
        assert forall|i: int| 0 <= i < init.len() implies pred(#[trigger] init[i]) by {
            assert(s[i] == init[i]);
        }
        lemma_filter_keeps_all(init, pred);
    }
}

fn ranks_before_at(keys: &Vec<(i128, i128)>, a: usize, b: usize) -> (r: bool)
    requires
        a < keys@.len(),
        b < keys@.len(),
    ensures
        r == ranks_before(keys@, a as int, b as int),
{
    let ka = keys[a];
    let kb = keys[b];
    ka.0 > kb.0 || (ka.0 == kb.0 && ka.1 > kb.1) || (ka.0 == kb.0 && ka.1 == kb.1 && a < b)
}

/// The positions of `keys`, highest key first; equal keys keep their order.
pub fn rank_order(keys: &Vec<(i128, i128)>) -> (order: Vec<usize>)
    ensures
        is_rank_order(keys@, order@),
{
    let mut order: Vec<usize> = Vec::new();
    let mut i: usize = 0;
    while i < keys.len()
        invariant
            i <= keys@.len(),
            order@.len() == i,
            forall|k: int| 0 <= k < order@.len() ==> (#[trigger] order@[k]) < i,
            forall|j: int| 0 <= j < i ==> #[trigger] order@.contains(j as usize),
            forall|x: int, y: int|
                0 <= x < y < order@.len() ==> ranks_before(
                    keys@,
                    #[trigger] order@[x] as int,
                    #[trigger] order@[y] as int,
                ),
        decreases keys@.len() - i,
    {
        let mut p: usize = 0;
        while p < order.len() && ranks_before_at(keys, order[p], i)
            invariant
                i < keys@.len(),
                p <= order@.len(),
                forall|k: int| 0 <= k < order@.len() ==> (#[trigger] order@[k]) < i,
                forall|q: int| 0 <= q < p ==> ranks_before(keys@, #[trigger] order@[q] as int, i as int),
            decreases order@.len() - p,
        {
            p += 1;
        }
        let ghost old_order = order@;
        proof {
            assert forall|q: int| p <= q < old_order.len() implies ranks_before(
                keys@,
                i as int,
                #[trigger] old_order[q] as int,
            ) by {
                assert(ranks_before(keys@, i as int, old_order[p as int] as int));
                if q > p {
                    assert(ranks_before(keys@, old_order[p as int] as int, old_order[q] as int));
                }
            }
        }
        order.insert(p, i);
        proof {
            let s = order@;
            assert(s == old_order.insert(p as int, i));
            assert forall|x: int, y: int| 0 <= x < y < s.len() implies ranks_before(
                keys@,
                #[trigger] s[x] as int,
                #[trigger] s[y] as int,
            ) by {
                if y < p {
                    assert(s[x] == old_order[x] && s[y] == old_order[y]);
                } else if y == p {
                    assert(s[x] == old_order[x]);
                } else if x < p {
                    assert(s[x] == old_order[x] && s[y] == old_order[y - 1]);
                    assert(ranks_before(keys@, old_order[x] as int, i as int));
                    assert(ranks_before(keys@, i as int, old_order[y - 1] as int));
                } else if x == p {
                    assert(s[y] == old_order[y - 1]);
                } else {
                    assert(s[x] == old_order[x - 1] && s[y] == old_order[y - 1]);
                }
            }
            assert forall|j: int| 0 <= j < i + 1 implies #[trigger] s.contains(j as usize) by {
                if j == i {
                    assert(s[p as int] == i);
                } else {
                    assert(old_order.contains(j as usize));
                    let k = choose|k: int| 0 <= k < old_order.len() && old_order[k] == j as usize;
                    if k < p {
                        assert(s[k] == old_order[k]);
                    } else {
                        assert(s[k + 1] == old_order[k]);
                    }
                }
            }
            assert forall|k: int| 0 <= k < s.len() implies (#[trigger] s[k]) < i + 1 by {
                if k < p {
                    assert(s[k] == old_order[k]);
                } else if k > p {
                    assert(s[k] == old_order[k - 1]);
                }
            }
        }
        i += 1;
    }
    order
}

} // verus!
