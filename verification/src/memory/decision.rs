//! Decision records and an in-memory store indexed by run, change and tag.

use crate::clock::{new_id, now_millis};
use crate::ranking::{is_rank_order, lemma_filter_drops_one, lemma_filter_keeps_all, rank_order, ranked_prefix};
use crate::text::{copy_string, copy_strings, owned, str_eq, strings_view};
use vstd::prelude::*;

verus! {

broadcast use vstd::string::group_string_axioms;

/// An implementation decision recorded during a run.
#[derive(Clone, Debug)]
pub struct Decision {
    /// Unique id.
    pub id: String,
    /// The run it was made in.
    pub run_id: String,
    /// The change it concerns: a file, PR or commit.
    pub change_ref: String,
    /// Short title.
    pub title: String,
    /// Why.
    pub rationale: String,
    /// Tags for grouping.
    pub tags: Vec<String>,
    /// When it was recorded, in milliseconds since the Unix epoch.
    pub created_at: i64,
    /// Extra data, as JSON text.
    pub metadata: String,
}

/// What a decision holds.
pub struct DecView {
    pub id: Seq<char>,
    pub run_id: Seq<char>,
    pub change_ref: Seq<char>,
    pub title: Seq<char>,
    pub rationale: Seq<char>,
    pub tags: Seq<Seq<char>>,
    pub created_at: i64,
    pub metadata: Seq<char>,
}

impl View for Decision {
    type V = DecView;

    open spec fn view(&self) -> DecView {
        DecView {
            id: self.id@,
            run_id: self.run_id@,
            change_ref: self.change_ref@,
            title: self.title@,
            rationale: self.rationale@,
            tags: strings_view(self.tags@),
            created_at: self.created_at,
            metadata: self.metadata@,
        }
    }
}

impl Decision {
    /// A decision with a fresh random id, stamped with the current time,
    /// without tags and with null metadata.
    pub fn new(run_id: &str, change_ref: &str, title: &str, rationale: &str) -> (r: Self)
        ensures
            r@.id.len() == 36,
            r@.run_id == run_id@,
            r@.change_ref == change_ref@,
            r@.title == title@,
            r@.rationale == rationale@,
            r@.tags.len() == 0,
            r@.metadata == "null"@,
    {
        Decision {
            id: new_id(),
            run_id: owned(run_id),
            change_ref: owned(change_ref),
            title: owned(title),
            rationale: owned(rationale),
            tags: Vec::new(),
            created_at: now_millis(),
            metadata: owned("null"),
        }
    }

    /// The decision with one more tag.
    pub fn with_tag(self, tag: &str) -> (r: Self)
        ensures
            r@ == (DecView { tags: self@.tags.push(tag@), ..self@ }),
    {
        let mut d = self;
        let t = owned(tag);
        let ghost before = d.tags@;
        d.tags.push(t);
        assert(strings_view(d.tags@) == strings_view(before).push(t@));
        d
    }

    /// The decision with its tags replaced.
    pub fn with_tags(self, tags: &Vec<String>) -> (r: Self)
        ensures
            r@ == (DecView { tags: strings_view(tags@), ..self@ }),
    {
        Decision { tags: copy_strings(tags), ..self }
    }

    /// The decision with its metadata replaced.
    pub fn with_metadata(self, metadata: &str) -> (r: Self)
        ensures
            r@ == (DecView { metadata: metadata@, ..self@ }),
    {
        Decision { metadata: owned(metadata), ..self }
    }

    /// A copy holding the same values.
    pub fn duplicate(&self) -> (r: Self)
        ensures
            r@ == self@,
    {
        Decision {
            id: copy_string(&self.id),
            run_id: copy_string(&self.run_id),
            change_ref: copy_string(&self.change_ref),
            title: copy_string(&self.title),
            rationale: copy_string(&self.rationale),
            tags: copy_strings(&self.tags),
            created_at: self.created_at,
            metadata: copy_string(&self.metadata),
        }
    }
}

/// The views of decisions.
pub open spec fn decs_view(v: Seq<Decision>) -> Seq<DecView> {
    v.map_values(|d: Decision| d@)
}

/// The (key, id) pairs of a multimap held as a list of pairs.
pub open spec fn pairs_view(v: Seq<(String, String)>) -> Seq<(Seq<char>, Seq<char>)> {
    v.map_values(|p: (String, String)| (p.0@, p.1@))
}

/// The pairs listed under a key.
pub open spec fn keyed(key: Seq<char>) -> spec_fn((Seq<char>, Seq<char>)) -> bool {
    |p: (Seq<char>, Seq<char>)| p.0 == key
}

/// The ids a multimap lists under a key, in order.
pub open spec fn ids_under(pairs: Seq<(Seq<char>, Seq<char>)>, key: Seq<char>) -> Seq<Seq<char>> {
    pairs.filter(keyed(key)).map_values(|p: (Seq<char>, Seq<char>)| p.1)
}

/// The run index of decisions: one pair per decision.
pub open spec fn run_pairs(ds: Seq<DecView>) -> Seq<(Seq<char>, Seq<char>)> {
    ds.map_values(|d: DecView| (d.run_id, d.id))
}

/// The change index of decisions: one pair per decision.
pub open spec fn change_pairs(ds: Seq<DecView>) -> Seq<(Seq<char>, Seq<char>)> {
    ds.map_values(|d: DecView| (d.change_ref, d.id))
}

/// Each tag paired with an id.
pub open spec fn with_id(tags: Seq<Seq<char>>, id: Seq<char>) -> Seq<(Seq<char>, Seq<char>)> {
    tags.map_values(|t: Seq<char>| (t, id))
}

/// The pairs one decision adds to the tag index: one per tag, repeats kept.
pub open spec fn tags_of(d: DecView) -> Seq<(Seq<char>, Seq<char>)> {
    with_id(d.tags, d.id)
}

/// The tags equal to `tag`.
pub open spec fn tag_is(tag: Seq<char>) -> spec_fn(Seq<char>) -> bool {
    |t: Seq<char>| t == tag
}

/// How many times `tag` occurs among `tags`.
pub open spec fn tag_count(tags: Seq<Seq<char>>, tag: Seq<char>) -> nat {
    tags.filter(tag_is(tag)).len()
}

/// The tag index of decisions.
pub open spec fn tag_pairs(ds: Seq<DecView>) -> Seq<(Seq<char>, Seq<char>)>
    decreases ds.len(),
{
    if ds.len() == 0 {
        Seq::empty()
    } else {
        tag_pairs(ds.drop_last()) + tags_of(ds.last())
    }
}

/// The decisions a tag groups: each decision once per time it carries the
/// tag, in store order.
pub open spec fn tagged(ds: Seq<DecView>, tag: Seq<char>) -> Seq<DecView>
    decreases ds.len(),
{
    if ds.len() == 0 {
        Seq::empty()
    } else {
        tagged(ds.drop_last(), tag) + Seq::new(tag_count(ds.last().tags, tag), |i: int| ds.last())
    }
}

/// Ranking keys that put the newest decision first.
pub open spec fn newest_keys(ds: Seq<DecView>) -> Seq<(i128, i128)> {
    ds.map_values(|d: DecView| (d.created_at as i128, 0i128))
}

/// The decisions of a run.
pub open spec fn in_run(run: Seq<char>) -> spec_fn(DecView) -> bool {
    |d: DecView| d.run_id == run
}

/// The decisions about a change.
pub open spec fn about_change(change: Seq<char>) -> spec_fn(DecView) -> bool {
    |d: DecView| d.change_ref == change
}

/// In-memory decision store: decisions by id, and indexes from run, change
/// and tag to decision ids.
#[derive(Debug)]
pub struct MemoryDecisionStore {
    by_id: Vec<Decision>,
    by_run: Vec<(String, String)>,
    by_change: Vec<(String, String)>,
    by_tag: Vec<(String, String)>,
}

impl View for MemoryDecisionStore {
    type V = Seq<DecView>;

    closed spec fn view(&self) -> Seq<DecView> {
        decs_view(self.by_id@)
    }
}

/// No two decisions share an id.
pub open spec fn unique_ids(ds: Seq<DecView>) -> bool {
    forall|i: int, j: int| 0 <= i < j < ds.len() ==> (#[trigger] ds[i]).id != (#[trigger] ds[j]).id
}

/// The decisions other than the one with this id, in order.
pub open spec fn without(ds: Seq<DecView>, id: Seq<char>) -> Seq<DecView> {
    ds.filter(|d: DecView| d.id != id)
}

proof fn lemma_tag_pairs_add(a: Seq<DecView>, b: Seq<DecView>)
    ensures
        tag_pairs(a + b) == tag_pairs(a) + tag_pairs(b),
    decreases b.len(),
{
    if b.len() > 0 {
        lemma_tag_pairs_add(a, b.drop_last());
        assert((a + b).drop_last() == a + b.drop_last());
        assert((a + b).last() == b.last());
    } else {
        assert(a + b == a);
    }
}

proof fn lemma_tag_pairs_ids(ds: Seq<DecView>, k: int)
    requires
        0 <= k < tag_pairs(ds).len(),
    ensures
        has_id(ds, tag_pairs(ds)[k].1),
    decreases ds.len(),
{
    let init = ds.drop_last();
    if k < tag_pairs(init).len() {
        lemma_tag_pairs_ids(init, k);
        let i = choose|i: int| 0 <= i < init.len() && #[trigger] init[i].id == tag_pairs(init)[k].1;
        assert(ds[i] == init[i]);
    } else {
        assert(ds[ds.len() - 1].id == tag_pairs(ds)[k].1);
    }
}

proof fn lemma_tag_pairs_remove(ds: Seq<DecView>, p: int, key: Seq<char>)
    requires
        unique_ids(ds),
        0 <= p < ds.len(),
    ensures
        tag_pairs(ds).filter(kept(key, ds[p].id, true)) == tag_pairs(ds.remove(p)),
{
    let id = ds[p].id;
    let pred = kept(key, id, true);
    let a = ds.take(p);
    let b = ds.skip(p + 1);
    let mid = seq![ds[p]];
    assert(ds == a + mid + b);
    assert(ds.remove(p) == a + b);
    lemma_tag_pairs_add(a + mid, b);
    lemma_tag_pairs_add(a, mid);
    lemma_tag_pairs_add(a, b);
    assert(tag_pairs(mid) =~= tags_of(ds[p])) by {
        assert(mid.drop_last() =~= Seq::<DecView>::empty());
        assert(tag_pairs(mid.drop_last()) =~= Seq::<(Seq<char>, Seq<char>)>::empty());
        assert(mid.last() == ds[p]);
    }
    vstd::seq_lib::lemma_seq_union_to_multiset_commutative(tag_pairs(a), tags_of(ds[p]));
    assert forall|k: int| 0 <= k < tag_pairs(a).len() implies pred(#[trigger] tag_pairs(a)[k]) by {
        lemma_tag_pairs_ids(a, k);
        let i = choose|i: int| 0 <= i < a.len() && #[trigger] a[i].id == tag_pairs(a)[k].1;
        assert(a[i] == ds[i]);
    }
    assert forall|k: int| 0 <= k < tag_pairs(b).len() implies pred(#[trigger] tag_pairs(b)[k]) by {
        lemma_tag_pairs_ids(b, k);
        let i = choose|i: int| 0 <= i < b.len() && #[trigger] b[i].id == tag_pairs(b)[k].1;
        assert(b[i] == ds[p + 1 + i]);
    }
    lemma_filter_keeps_all(tag_pairs(a), pred);
    lemma_filter_keeps_all(tag_pairs(b), pred);
    assert(tags_of(ds[p]).filter(pred) =~= Seq::<(Seq<char>, Seq<char>)>::empty()) by {
        tags_of(ds[p]).lemma_filter_len(pred);
        if tags_of(ds[p]).filter(pred).len() > 0 {
            tags_of(ds[p]).lemma_filter_pred(pred, 0);
            let x = tags_of(ds[p]).filter(pred)[0];
            tags_of(ds[p]).lemma_filter_contains_rev(pred, x);
        }
    }
    Seq::filter_distributes_over_add(tag_pairs(a) + tags_of(ds[p]), tag_pairs(b), pred);
    Seq::filter_distributes_over_add(tag_pairs(a), tags_of(ds[p]), pred);
}

impl MemoryDecisionStore {
    /// The indexes agree with the decisions, and ids are unique.
    pub closed spec fn inv(&self) -> bool {
        &&& unique_ids(self@)
        &&& pairs_view(self.by_run@) == run_pairs(self@)
        &&& pairs_view(self.by_change@) == change_pairs(self@)
        &&& pairs_view(self.by_tag@) == tag_pairs(self@)
    }

    /// An empty store.
    pub fn new() -> (r: Self)
        ensures
            r.inv(),
            r@.len() == 0,
    {
        let r = MemoryDecisionStore { by_id: Vec::new(), by_run: Vec::new(), by_change: Vec::new(), by_tag: Vec::new() };
        assert(decs_view(r.by_id@) =~= Seq::<DecView>::empty());
        assert(pairs_view(r.by_run@) =~= Seq::<(Seq<char>, Seq<char>)>::empty());
        assert(pairs_view(r.by_change@) =~= Seq::<(Seq<char>, Seq<char>)>::empty());
        assert(pairs_view(r.by_tag@) =~= Seq::<(Seq<char>, Seq<char>)>::empty());
        assert(tag_pairs(r@) =~= Seq::<(Seq<char>, Seq<char>)>::empty());
        assert(run_pairs(r@) =~= Seq::<(Seq<char>, Seq<char>)>::empty());
        assert(change_pairs(r@) =~= Seq::<(Seq<char>, Seq<char>)>::empty());
        r
    }

    fn position(&self, id: &str) -> (r: Option<usize>)
        ensures
            match r {
                Some(p) => p < self@.len() && self@[p as int].id == id@,
                None => forall|k: int| 0 <= k < self@.len() ==> (#[trigger] self@[k]).id != id@,
            },
    {
        let mut i: usize = 0;
        while i < self.by_id.len()
            invariant
                i <= self.by_id@.len(),
                forall|k: int| 0 <= k < i ==> (#[trigger] self@[k]).id != id@,
            decreases self.by_id@.len() - i,
        {
            if str_eq(self.by_id[i].id.as_str(), id) {
                return Some(i);
            }
            i += 1;
        }
        None
    }

    /// Records a decision in place of any with the same id, indexing it
    /// under its run, its change and each of its tags.
    pub fn record(&mut self, decision: Decision)
        requires
            old(self).inv(),
        ensures
            final(self).inv(),
            final(self)@ == without(old(self)@, decision@.id).push(decision@),
    {
        let ghost d = decision@;
        self.remove_id(decision.id.as_str());
        let ghost mid = self@;
        let ghost before_run = self.by_run@;
        self.by_run.push((copy_string(&decision.run_id), copy_string(&decision.id)));
        self.by_change.push((copy_string(&decision.change_ref), copy_string(&decision.id)));
        let ghost tag_start = self.by_tag@;
        let ghost ids0 = self.by_id@;
        let ghost run0 = self.by_run@;
        let ghost change0 = self.by_change@;
        let mut k: usize = 0;
        while k < decision.tags.len()
            invariant
                k <= decision.tags@.len(),
                d == decision@,
                self.by_id@ == ids0,
                self.by_run@ == run0,
                self.by_change@ == change0,
                pairs_view(self.by_tag@) == pairs_view(tag_start) + tags_of(decision@).take(k as int),
            decreases decision.tags@.len() - k,
        {
            let ghost before = self.by_tag@;
            self.by_tag.push((copy_string(&decision.tags[k]), copy_string(&decision.id)));
            proof {
                assert(pairs_view(self.by_tag@) =~= pairs_view(before).push((decision.tags@[k as int]@, decision@.id)));
                assert(tags_of(decision@).take(k + 1) =~= tags_of(decision@).take(k as int).push(
                    (decision.tags@[k as int]@, decision@.id),
                ));
            }
            k += 1;
        }
        assert(tags_of(decision@).take(decision.tags@.len() as int) == tags_of(decision@));
        let ghost before_id = self.by_id@;
        self.by_id.push(decision);
        proof {
            assert(self@ =~= mid.push(d));
            assert(pairs_view(self.by_run@) =~= run_pairs(mid).push((d.run_id, d.id)));
            assert(run_pairs(self@) =~= run_pairs(mid).push((d.run_id, d.id)));
            assert(pairs_view(self.by_change@) =~= change_pairs(mid).push((d.change_ref, d.id)));
            assert(change_pairs(self@) =~= change_pairs(mid).push((d.change_ref, d.id)));
            assert(self@.drop_last() == mid);
            assert forall|x: int, y: int| 0 <= x < y < self@.len() implies (#[trigger] self@[x]).id != (
            #[trigger] self@[y]).id by {
                if y == self@.len() - 1 {
                    assert(self@[x] == mid[x]);
                } else {
                    assert(self@[x] == mid[x] && self@[y] == mid[y]);
                }
            }
        }
    }

    /// Removes the decision with this id and its index entries, if present.
    fn remove_id(&mut self, id: &str)
        requires
            old(self).inv(),
        ensures
            final(self).inv(),
            final(self)@ == without(old(self)@, id@),
            forall|k: int| 0 <= k < final(self)@.len() ==> (#[trigger] final(self)@[k]).id != id@,
    {
        let ghost ds = self@;
        let ghost pred = |d: DecView| d.id != id@;
        match self.position(id) {
            Some(p) => {
                let prev = self.by_id.remove(p);
                proof {
                    assert forall|k: int| 0 <= k < ds.len() && k != p implies pred(#[trigger] ds[k]) by {
                        if k < p {
                            assert(ds[k].id != ds[p as int].id);
                        } else {
                            assert(ds[p as int].id != ds[k].id);
                        }
                    }
                    lemma_filter_drops_one(ds, pred, p as int);
                    assert(self@ =~= ds.remove(p as int));
                }
                self.remove_from_indexes(&prev, Ghost(ds), Ghost(p as int));
                proof {
                    assert forall|k: int| 0 <= k < self@.len() implies (#[trigger] self@[k]).id != id@ by {
                        if k < p {
                            assert(self@[k] == ds[k]);
                            assert(ds[k].id != ds[p as int].id);
                        } else {
                            assert(self@[k] == ds[k + 1]);
                            assert(ds[p as int].id != ds[k + 1].id);
                        }
                    }
                }
            },
            None => {
                proof {
                    lemma_filter_keeps_all(ds, pred);
                }
            },
        }
    }

    /// Drops the index entries of a decision just removed from position
    /// `p` of `ds`.
    fn remove_from_indexes(&mut self, prev: &Decision, Ghost(ds): Ghost<Seq<DecView>>, Ghost(p): Ghost<int>)
        requires
            unique_ids(ds),
            0 <= p < ds.len(),
            ds[p] == prev@,
            old(self)@ == ds.remove(p),
            pairs_view(old(self).by_run@) == run_pairs(ds),
            pairs_view(old(self).by_change@) == change_pairs(ds),
            pairs_view(old(self).by_tag@) == tag_pairs(ds),
        ensures
            final(self).inv(),
            final(self)@ == old(self)@,
    {
        let ghost run_pred = kept(prev@.run_id, prev@.id, false);
        let ghost change_pred = kept(prev@.change_ref, prev@.id, false);
        self.by_run = retain_pairs(&self.by_run, prev.run_id.as_str(), prev.id.as_str(), false);
        self.by_change = retain_pairs(&self.by_change, prev.change_ref.as_str(), prev.id.as_str(), false);
        self.by_tag = retain_pairs(&self.by_tag, "", prev.id.as_str(), true);
        proof {
            let rest = ds.remove(p);
            assert forall|k: int| 0 <= k < ds.len() && k != p implies run_pred(#[trigger] run_pairs(ds)[k]) by {
                if k < p {
                    assert(ds[k].id != ds[p].id);
                } else {
                    assert(ds[p].id != ds[k].id);
                }
            }
            lemma_filter_drops_one(run_pairs(ds), run_pred, p);
            assert(run_pairs(ds).remove(p) =~= run_pairs(rest));
            assert forall|k: int| 0 <= k < ds.len() && k != p implies change_pred(#[trigger] change_pairs(ds)[k]) by {
                if k < p {
                    assert(ds[k].id != ds[p].id);
                } else {
                    assert(ds[p].id != ds[k].id);
                }
            }
            lemma_filter_drops_one(change_pairs(ds), change_pred, p);
            assert(change_pairs(ds).remove(p) =~= change_pairs(rest));
            lemma_tag_pairs_remove(ds, p, ""@);
            assert forall|x: int, y: int| 0 <= x < y < rest.len() implies (#[trigger] rest[x]).id != (
            #[trigger] rest[y]).id by {
                let ox = if x < p { x } else { x + 1 };
                let oy = if y < p { y } else { y + 1 };
                assert(rest[x] == ds[ox] && rest[y] == ds[oy]);
            }
        }
    }

    /// The decision with this id.
    pub fn get(&self, id: &str) -> (r: Option<Decision>)
        requires
            self.inv(),
        ensures
            match r {
                Some(d) => find(self@, id@) == Some(d@),
                None => find(self@, id@) is None,
            },
    {
        match self.position(id) {
            Some(p) => {
                proof {
                    lemma_find_unique(self@, id@, p as int);
                }
                Some(self.by_id[p].duplicate())
            },
            None => {
                proof {
                    lemma_find_none(self@, id@);
                }
                None
            },
        }
    }

    /// No two stored decisions share an id.
    pub proof fn lemma_ids_unique(&self)
        requires
            self.inv(),
        ensures
            unique_ids(self@),
    {
    }

    /// The decisions with the listed ids, in list order (ids not stored are
    /// skipped), newest first; equally old ones keep their order.
    fn sorted_newest_first(&self, ids: &Vec<String>) -> (r: Vec<Decision>)
        requires
            self.inv(),
        ensures
            ranked_prefix(
                decs_view(r@),
                lookup(self@, strings_view(ids@)),
                newest_keys(lookup(self@, strings_view(ids@))),
                lookup(self@, strings_view(ids@)).len(),
            ),
    {
        let ghost ds = self@;
        let ghost iv = strings_view(ids@);
        let mut sel: Vec<&Decision> = Vec::new();
        let mut keys: Vec<(i128, i128)> = Vec::new();
        let mut i: usize = 0;
        while i < ids.len()
            invariant
                i <= iv.len(),
                ds == self@,
                self.inv(),
                iv == strings_view(ids@),
                sel@.map_values(|d: &Decision| d@) == lookup(ds, iv.take(i as int)),
                keys@ == newest_keys(lookup(ds, iv.take(i as int))),
                sel@.len() <= i,
            decreases iv.len() - i,
        {
            proof {
                assert(iv.take(i + 1).drop_last() == iv.take(i as int));
                assert(iv.take(i + 1).last() == ids@[i as int]@);
            }
            match self.position(ids[i].as_str()) {
                Some(p) => {
                    let d = &self.by_id[p];
                    proof {
                        lemma_find_unique(ds, ids@[i as int]@, p as int);
                    }
                    let ghost before = sel@;
                    sel.push(d);
                    keys.push((d.created_at as i128, 0i128));
                    assert(sel@.map_values(|d: &Decision| d@) =~= before.map_values(|d: &Decision| d@).push(d@));
                    assert(keys@ =~= newest_keys(lookup(ds, iv.take(i + 1))));
                },
                None => {
                    proof {
                        lemma_find_none(ds, ids@[i as int]@);
                    }
                },
            }
            i += 1;
        }
        assert(iv.take(iv.len() as int) == iv);
        let order = rank_order(&keys);
        let mut r: Vec<Decision> = Vec::new();
        let mut k: usize = 0;
        while k < order.len()
            invariant
                k <= order@.len(),
                is_rank_order(keys@, order@),
                keys@.len() == sel@.len(),
                r@.len() == k,
                forall|x: int| 0 <= x < k ==> #[trigger] r@[x]@ == sel@[order@[x] as int]@,
            decreases order@.len() - k,
        {
            r.push(sel[order[k]].duplicate());
            k += 1;
        }
        proof {
            let rv = decs_view(r@);
            let sv = sel@.map_values(|d: &Decision| d@);
            assert forall|x: int| 0 <= x < rv.len() implies #[trigger] rv[x] == sv[order@[x] as int] by {
                assert(r@[x]@ == sel@[order@[x] as int]@);
            }
        }
        r
    }

    fn ids_for(index: &Vec<(String, String)>, key: &str) -> (r: Vec<String>)
        ensures
            strings_view(r@) == ids_under(pairs_view(index@), key@),
    {
        let ghost pv = pairs_view(index@);
        let ghost pred = keyed(key@);
        let mut r: Vec<String> = Vec::new();
        let mut i: usize = 0;
        while i < index.len()
            invariant
                i <= index@.len(),
                pv == pairs_view(index@),
                pred == keyed(key@),
                strings_view(r@) == pv.take(i as int).filter(pred).map_values(|p: (Seq<char>, Seq<char>)| p.1),
            decreases index@.len() - i,
        {
            proof {
                assert(pv.take(i + 1) == pv.take(i as int).push(pv[i as int]));
                pv.take(i as int).lemma_filter_push(pv[i as int], pred);
            }
            if str_eq(index[i].0.as_str(), key) {
                let ghost before = strings_view(r@);
                let id = copy_string(&index[i].1);
                r.push(id);
                proof {
                    let f = pv.take(i as int).filter(pred);
                    assert(strings_view(r@) =~= before.push(id@));
                    assert(f.push(pv[i as int]).map_values(|p: (Seq<char>, Seq<char>)| p.1) =~= f.map_values(
                        |p: (Seq<char>, Seq<char>)| p.1,
                    ).push(pv[i as int].1));
                }
            }
            i += 1;
        }
        assert(pv.take(pv.len() as int) == pv);
        r
    }

    /// The decisions of a run, newest first; equally old ones in the order
    /// they were recorded.
    pub fn list_by_run(&self, run_id: &str) -> (r: Vec<Decision>)
        requires
            self.inv(),
        ensures
            ranked_prefix(
                decs_view(r@),
                self@.filter(in_run(run_id@)),
                newest_keys(self@.filter(in_run(run_id@))),
                self@.filter(in_run(run_id@)).len(),
            ),
    {
        let ids = MemoryDecisionStore::ids_for(&self.by_run, run_id);
        proof {
            lemma_index_lookup(self@, in_run(run_id@), |d: DecView| (d.run_id, d.id), run_id@);
            assert(run_pairs(self@) =~= self@.map_values(|d: DecView| (d.run_id, d.id)));
        }
        self.sorted_newest_first(&ids)
    }

    /// The decisions about a change, newest first; equally old ones in the
    /// order they were recorded.
    pub fn list_by_change(&self, change_ref: &str) -> (r: Vec<Decision>)
        requires
            self.inv(),
        ensures
            ranked_prefix(
                decs_view(r@),
                self@.filter(about_change(change_ref@)),
                newest_keys(self@.filter(about_change(change_ref@))),
                self@.filter(about_change(change_ref@)).len(),
            ),
    {
        let ids = MemoryDecisionStore::ids_for(&self.by_change, change_ref);
        proof {
            lemma_index_lookup(self@, about_change(change_ref@), |d: DecView| (d.change_ref, d.id), change_ref@);
            assert(change_pairs(self@) =~= self@.map_values(|d: DecView| (d.change_ref, d.id)));
        }
        self.sorted_newest_first(&ids)
    }

    /// The decisions with a tag, each once per time it carries the tag,
    /// newest first; equally old ones in the order they were recorded.
    pub fn list_by_tag(&self, tag: &str) -> (r: Vec<Decision>)
        requires
            self.inv(),
        ensures
            decs_view(r@).len() == tagged(self@, tag@).len(),
            ranked_prefix(
                decs_view(r@),
                tagged(self@, tag@),
                newest_keys(tagged(self@, tag@)),
                tagged(self@, tag@).len(),
            ),
    {
        let ids = MemoryDecisionStore::ids_for(&self.by_tag, tag);
        proof {
            lemma_tag_lookup(self@, tag@);
        }
        self.sorted_newest_first(&ids)
    }

    /// The newest decisions, at most `limit`; equally old ones in the order
    /// they were recorded.
    pub fn recent(&self, limit: usize) -> (r: Vec<Decision>)
        requires
            self.inv(),
        ensures
            ranked_prefix(decs_view(r@), self@, newest_keys(self@), limit as nat),
    {
        let ghost ds = self@;
        let mut keys: Vec<(i128, i128)> = Vec::new();
        let mut i: usize = 0;
        while i < self.by_id.len()
            invariant
                i <= ds.len(),
                ds == self@,
                ds.len() == self.by_id@.len(),
                keys@ == newest_keys(ds.take(i as int)),
            decreases ds.len() - i,
        {
            keys.push((self.by_id[i].created_at as i128, 0i128));
            proof {
                assert(ds[i as int] == self.by_id@[i as int]@);
                assert(newest_keys(ds.take(i + 1)) =~= newest_keys(ds.take(i as int)).push(
                    (ds[i as int].created_at as i128, 0i128),
                ));
            }
            i += 1;
        }
        assert(ds.take(ds.len() as int) == ds);
        let order = rank_order(&keys);
        let keep = if limit < order.len() { limit } else { order.len() };
        let mut r: Vec<Decision> = Vec::new();
        let mut k: usize = 0;
        while k < keep
            invariant
                k <= keep,
                keep <= order@.len(),
                is_rank_order(keys@, order@),
                keys@.len() == ds.len(),
                ds == self@,
                ds.len() == self.by_id@.len(),
                r@.len() == k,
                forall|x: int| 0 <= x < k ==> #[trigger] r@[x]@ == ds[order@[x] as int],
            decreases keep - k,
        {
            r.push(self.by_id[order[k]].duplicate());
            k += 1;
        }
        proof {
            let rv = decs_view(r@);
            assert forall|x: int| 0 <= x < rv.len() implies #[trigger] rv[x] == ds[order@[x] as int] by {
                assert(r@[x]@ == ds[order@[x] as int]);
            }
        }
        r
    }

    /// Removes the decision with this id and its index entries.
    pub fn delete(&mut self, id: &str)
        requires
            old(self).inv(),
        ensures
            final(self).inv(),
            final(self)@ == without(old(self)@, id@),
    {
        self.remove_id(id);
    }
}

impl Default for MemoryDecisionStore {
    fn default() -> (r: Self)
        ensures
            r.inv(),
            r@.len() == 0,
    {
        MemoryDecisionStore::new()
    }
}

/// The pairs kept by `retain_pairs`.
pub open spec fn kept(key: Seq<char>, id: Seq<char>, any_key: bool) -> spec_fn((Seq<char>, Seq<char>)) -> bool {
    |q: (Seq<char>, Seq<char>)|
        if any_key {
            q.1 != id
        } else {
            !(q.0 == key && q.1 == id)
        }
}

/// The pairs other than `(key, id)`, or, with `any_key`, other than those
/// for `id`.
fn retain_pairs(v: &Vec<(String, String)>, key: &str, id: &str, any_key: bool) -> (r: Vec<(String, String)>)
    ensures
        pairs_view(r@) == pairs_view(v@).filter(kept(key@, id@, any_key)),
{
    let ghost pv = pairs_view(v@);
    let ghost pred = kept(key@, id@, any_key);
    let mut r: Vec<(String, String)> = Vec::new();
    let mut i: usize = 0;
    while i < v.len()
        invariant
            i <= v@.len(),
            pv == pairs_view(v@),
            pred == kept(key@, id@, any_key),
            pairs_view(r@) == pv.take(i as int).filter(pred),
        decreases v@.len() - i,
    {
        proof {
            assert(pv.take(i + 1) == pv.take(i as int).push(pv[i as int]));
            pv.take(i as int).lemma_filter_push(pv[i as int], pred);
        }
        let same_id = str_eq(v[i].1.as_str(), id);
        let keep = if any_key { !same_id } else { !(same_id && str_eq(v[i].0.as_str(), key)) };
        if keep {
            let ghost before = pairs_view(r@);
            let p = (copy_string(&v[i].0), copy_string(&v[i].1));
            r.push(p);
            assert(pairs_view(r@) =~= before.push((p.0@, p.1@)));
        }
        i += 1;
    }
    assert(pv.take(pv.len() as int) == pv);
    r
}

/// The stored decisions for the listed ids, in list order, skipping ids
/// not stored.
pub open spec fn lookup(ds: Seq<DecView>, ids: Seq<Seq<char>>) -> Seq<DecView>
    decreases ids.len(),
{
    if ids.len() == 0 {
        Seq::empty()
    } else {
        lookup(ds, ids.drop_last()) + match find(ds, ids.last()) {
            Some(d) => seq![d],
            None => Seq::empty(),
        }
    }
}

/// Some stored decision has this id.
pub open spec fn has_id(ds: Seq<DecView>, id: Seq<char>) -> bool {
    exists|i: int| 0 <= i < ds.len() && #[trigger] ds[i].id == id
}

/// The stored decision with this id.
pub open spec fn find(ds: Seq<DecView>, id: Seq<char>) -> Option<DecView> {
    if has_id(ds, id) {
        Some(ds[choose|i: int| 0 <= i < ds.len() && ds[i].id == id])
    } else {
        None
    }
}

proof fn lemma_find_unique(ds: Seq<DecView>, id: Seq<char>, p: int)
    requires
        unique_ids(ds),
        0 <= p < ds.len(),
        ds[p].id == id,
    ensures
        find(ds, id) == Some(ds[p]),
{
    let q = choose|i: int| 0 <= i < ds.len() && ds[i].id == id;
    if q < p {
        assert(ds[q].id != ds[p].id);
    } else if q > p {
        assert(ds[p].id != ds[q].id);
    }
}

proof fn lemma_find_none(ds: Seq<DecView>, id: Seq<char>)
    requires
        forall|k: int| 0 <= k < ds.len() ==> (#[trigger] ds[k]).id != id,
    ensures
        find(ds, id) is None,
{
}

proof fn lemma_lookup_add(ds: Seq<DecView>, a: Seq<Seq<char>>, b: Seq<Seq<char>>)
    ensures
        lookup(ds, a + b) == lookup(ds, a) + lookup(ds, b),
    decreases b.len(),
{
    if b.len() > 0 {
        lemma_lookup_add(ds, a, b.drop_last());
        assert((a + b).drop_last() == a + b.drop_last());
        assert((a + b).last() == b.last());
    } else {
        assert(a + b == a);
    }
}

proof fn lemma_unique_init(ds: Seq<DecView>)
    requires
        unique_ids(ds),
        ds.len() > 0,
    ensures
        unique_ids(ds.drop_last()),
        forall|k: int| 0 <= k < ds.len() - 1 ==> (#[trigger] ds.drop_last()[k]).id != ds.last().id,
{
    let init = ds.drop_last();
    assert forall|i: int, j: int| 0 <= i < j < init.len() implies (#[trigger] init[i]).id != (#[trigger] init[j]).id by {
        assert(init[i] == ds[i] && init[j] == ds[j]);
    }
    assert forall|k: int| 0 <= k < ds.len() - 1 implies (#[trigger] ds.drop_last()[k]).id != ds.last().id by {
        assert(ds.drop_last()[k] == ds[k]);
    }
}

/// Looking up ids of earlier decisions is the same with one more decision
/// stored after them.
proof fn lemma_lookup_push(init: Seq<DecView>, d: DecView, ids: Seq<Seq<char>>)
    requires
        unique_ids(init.push(d)),
        forall|k: int| #![trigger ids[k]] 0 <= k < ids.len() ==> has_id(init, ids[k]),
    ensures
        lookup(init.push(d), ids) == lookup(init, ids),
    decreases ids.len(),
{
    let ds = init.push(d);
    if ids.len() > 0 {
        lemma_lookup_push(init, d, ids.drop_last());
        let x = ids.last();
        assert(has_id(init, ids[ids.len() - 1]));
        let i = choose|i: int| 0 <= i < init.len() && #[trigger] init[i].id == x;
        assert(ds[i] == init[i]);
        lemma_find_unique(ds, x, i);
        assert(unique_ids(init)) by {
            assert forall|a: int, b: int| 0 <= a < b < init.len() implies (#[trigger] init[a]).id != (#[trigger] init[b]).id by {
                assert(init[a] == ds[a] && init[b] == ds[b]);
            }
        }
        lemma_find_unique(init, x, i);
    }
}

proof fn lemma_ids_under_push(pairs: Seq<(Seq<char>, Seq<char>)>, x: (Seq<char>, Seq<char>), key: Seq<char>)
    ensures
        ids_under(pairs.push(x), key) == ids_under(pairs, key) + if x.0 == key {
            seq![x.1]
        } else {
            Seq::empty()
        },
{
    let pred = keyed(key);
    pairs.lemma_filter_push(x, pred);
    if x.0 == key {
        assert(pairs.filter(pred).push(x).map_values(|p: (Seq<char>, Seq<char>)| p.1) =~= ids_under(pairs, key) + seq![x.1]);
    } else {
        assert(ids_under(pairs, key) + Seq::<Seq<char>>::empty() =~= ids_under(pairs, key));
    }
}

proof fn lemma_ids_under_from(ds: Seq<DecView>, pairs: Seq<(Seq<char>, Seq<char>)>, key: Seq<char>, k: int)
    requires
        forall|j: int| #![trigger pairs[j]] 0 <= j < pairs.len() ==> has_id(ds, pairs[j].1),
        0 <= k < ids_under(pairs, key).len(),
    ensures
        has_id(ds, ids_under(pairs, key)[k]),
{
    let pred = keyed(key);
    let f = pairs.filter(pred);
    assert(ids_under(pairs, key)[k] == f[k].1);
    assert(f.contains(f[k]));
    pairs.lemma_filter_contains_rev(pred, f[k]);
    let j = choose|j: int| 0 <= j < pairs.len() && pairs[j] == f[k];
    assert(has_id(ds, pairs[j].1));
}

/// Looking up the ids an index lists under a key gives the decisions with
/// that key, in order.
proof fn lemma_index_lookup(
    ds: Seq<DecView>,
    sel: spec_fn(DecView) -> bool,
    pair: spec_fn(DecView) -> (Seq<char>, Seq<char>),
    key: Seq<char>,
)
    requires
        unique_ids(ds),
        forall|d: DecView| #[trigger] pair(d) == (pair(d).0, d.id),
        forall|d: DecView| #[trigger] sel(d) == (pair(d).0 == key),
    ensures
        lookup(ds, ids_under(ds.map_values(pair), key)) == ds.filter(sel),
    decreases ds.len(),
{
    if ds.len() == 0 {
        assert(ds.map_values(pair) =~= Seq::<(Seq<char>, Seq<char>)>::empty());
        assert(ids_under(ds.map_values(pair), key) =~= Seq::<Seq<char>>::empty());
        assert(ds.filter(sel) =~= Seq::<DecView>::empty());
    } else {
        let init = ds.drop_last();
        let d = ds.last();
        assert(ds == init.push(d));
        lemma_unique_init(ds);
        lemma_index_lookup(init, sel, pair, key);
        assert(ds.map_values(pair) =~= init.map_values(pair).push(pair(d)));
        lemma_ids_under_push(init.map_values(pair), pair(d), key);
        let ids0 = ids_under(init.map_values(pair), key);
        assert forall|j: int| 0 <= j < init.map_values(pair).len() implies has_id(init, init.map_values(pair)[j].1) by {
            assert(init.map_values(pair)[j] == pair(init[j]));
            assert(pair(init[j]) == (pair(init[j]).0, init[j].id));
        }
        assert forall|k: int| 0 <= k < ids0.len() implies has_id(init, ids0[k]) by {
            lemma_ids_under_from(init, init.map_values(pair), key, k);
        }
        lemma_lookup_push(init, d, ids0);
        init.lemma_filter_push(d, sel);
        assert(pair(d) == (pair(d).0, d.id));
        if pair(d).0 == key {
            lemma_lookup_add(ds, ids0, seq![d.id]);
            lemma_find_unique(ds, d.id, ds.len() - 1);
            assert(lookup(ds, seq![d.id]) =~= seq![d]) by {
                assert(seq![d.id].drop_last() =~= Seq::<Seq<char>>::empty());
                assert(lookup(ds, Seq::<Seq<char>>::empty()) =~= Seq::<DecView>::empty());
                assert(seq![d.id].last() == d.id);
            }
        } else {
            assert(ids0 + Seq::<Seq<char>>::empty() =~= ids0);
        }
    }
}

proof fn lemma_ids_under_tags(ts: Seq<Seq<char>>, id: Seq<char>, tag: Seq<char>)
    ensures
        ids_under(with_id(ts, id), tag) == Seq::new(tag_count(ts, tag), |i: int| id),
    decreases ts.len(),
{
    let pred = tag_is(tag);
    if ts.len() == 0 {
        assert(with_id(ts, id) =~= Seq::<(Seq<char>, Seq<char>)>::empty());
        assert(ids_under(with_id(ts, id), tag) =~= Seq::<Seq<char>>::empty());
        assert(ts.filter(pred) =~= Seq::<Seq<char>>::empty());
    } else {
        let init = ts.drop_last();
        assert(ts == init.push(ts.last()));
        lemma_ids_under_tags(init, id, tag);
        assert(with_id(ts, id) =~= with_id(init, id).push((ts.last(), id)));
        lemma_ids_under_push(with_id(init, id), (ts.last(), id), tag);
        init.lemma_filter_push(ts.last(), pred);
        let n0 = init.filter(pred).len();
        if ts.last() == tag {
            assert(Seq::new(n0, |i: int| id) + seq![id] =~= Seq::new(n0 + 1, |i: int| id));
        } else {
            assert(Seq::new(n0, |i: int| id) + Seq::<Seq<char>>::empty() =~= Seq::new(n0, |i: int| id));
        }
    }
}

proof fn lemma_ids_under_add(a: Seq<(Seq<char>, Seq<char>)>, b: Seq<(Seq<char>, Seq<char>)>, key: Seq<char>)
    ensures
        ids_under(a + b, key) == ids_under(a, key) + ids_under(b, key),
{
    let pred = keyed(key);
    Seq::filter_distributes_over_add(a, b, pred);
    assert((a.filter(pred) + b.filter(pred)).map_values(|p: (Seq<char>, Seq<char>)| p.1) =~= a.filter(pred).map_values(
        |p: (Seq<char>, Seq<char>)| p.1,
    ) + b.filter(pred).map_values(|p: (Seq<char>, Seq<char>)| p.1));
}

proof fn lemma_lookup_repeat(ds: Seq<DecView>, p: int, n: nat)
    requires
        unique_ids(ds),
        0 <= p < ds.len(),
    ensures
        lookup(ds, Seq::new(n, |i: int| ds[p].id)) == Seq::new(n, |i: int| ds[p]),
    decreases n,
{
    lemma_find_unique(ds, ds[p].id, p);
    if n > 0 {
        lemma_lookup_repeat(ds, p, (n - 1) as nat);
        assert(Seq::new(n, |i: int| ds[p].id).drop_last() =~= Seq::new((n - 1) as nat, |i: int| ds[p].id));
        assert(Seq::new((n - 1) as nat, |i: int| ds[p]) + seq![ds[p]] =~= Seq::new(n, |i: int| ds[p]));
    } else {
        assert(Seq::new(n, |i: int| ds[p].id) =~= Seq::<Seq<char>>::empty());
        assert(Seq::new(n, |i: int| ds[p]) =~= Seq::<DecView>::empty());
    }
}

proof fn lemma_tag_pairs_from(ds: Seq<DecView>, j: int)
    requires
        0 <= j < tag_pairs(ds).len(),
    ensures
        has_id(ds, tag_pairs(ds)[j].1),
{
    lemma_tag_pairs_ids(ds, j);
}

/// Looking up the ids the tag index lists under a tag gives the tagged
/// decisions.
proof fn lemma_tag_lookup(ds: Seq<DecView>, tag: Seq<char>)
    requires
        unique_ids(ds),
    ensures
        lookup(ds, ids_under(tag_pairs(ds), tag)) == tagged(ds, tag),
    decreases ds.len(),
{
    if ds.len() == 0 {
        assert(ids_under(tag_pairs(ds), tag) =~= Seq::<Seq<char>>::empty());
    } else {
        let init = ds.drop_last();
        let d = ds.last();
        assert(ds == init.push(d));
        lemma_unique_init(ds);
        lemma_tag_lookup(init, tag);
        lemma_ids_under_add(tag_pairs(init), tags_of(d), tag);
        lemma_ids_under_tags(d.tags, d.id, tag);
        let ids0 = ids_under(tag_pairs(init), tag);
        let c = tag_count(d.tags, tag);
        let rep = Seq::new(c, |i: int| d.id);
        assert(ids_under(tag_pairs(ds), tag) == ids0 + rep);
        assert forall|k: int| 0 <= k < ids0.len() implies has_id(init, ids0[k]) by {
            assert forall|j: int| 0 <= j < tag_pairs(init).len() implies has_id(init, tag_pairs(init)[j].1) by {
                lemma_tag_pairs_from(init, j);
            }
            lemma_ids_under_from(init, tag_pairs(init), tag, k);
        }
        lemma_lookup_push(init, d, ids0);
        lemma_lookup_add(ds, ids0, rep);
        lemma_lookup_repeat(ds, ds.len() - 1, c);
        assert(Seq::new(c, |i: int| ds[ds.len() - 1].id) =~= rep);
        assert(Seq::new(c, |i: int| ds[ds.len() - 1]) =~= Seq::new(c, |i: int| ds.last()));
    }
}

/// Dropping the decision with an id keeps ids unique, and every kept
/// decision is one of the old ones.
proof fn lemma_without_unique(ds: Seq<DecView>, id: Seq<char>)
    requires
        unique_ids(ds),
    ensures
        unique_ids(without(ds, id)),
        forall|k: int| 0 <= k < without(ds, id).len() ==> ds.contains(#[trigger] without(ds, id)[k]),
        forall|k: int| 0 <= k < without(ds, id).len() ==> (#[trigger] without(ds, id)[k]).id != id,
    decreases ds.len(),
{
    let pred = |d: DecView| d.id != id;
    let w = without(ds, id);
    assert forall|k: int| 0 <= k < w.len() implies ds.contains(#[trigger] w[k]) && w[k].id != id by {
        ds.lemma_filter_pred(pred, k);
        assert(w.contains(w[k]));
        ds.lemma_filter_contains_rev(pred, w[k]);
    }
    if ds.len() > 0 {
        let init = ds.drop_last();
        let last = ds.last();
        assert(ds == init.push(last));
        lemma_unique_init(ds);
        lemma_without_unique(init, id);
        init.lemma_filter_push(last, pred);
        let wi = without(init, id);
        if last.id != id {
            assert(w == wi.push(last));
            assert forall|i: int, j: int| 0 <= i < j < w.len() implies (#[trigger] w[i]).id != (#[trigger] w[j]).id by {
                if j == w.len() - 1 {
                    assert(w[i] == wi[i]);
                    assert(init.contains(wi[i]));
                    let q = choose|q: int| 0 <= q < init.len() && init[q] == wi[i];
                    assert(init[q] == ds.drop_last()[q]);
                } else {
                    assert(w[i] == wi[i] && w[j] == wi[j]);
                }
            }
        }
    } else {
        assert(w =~= Seq::<DecView>::empty());
    }
}

/// A decision that is stored is found under its id.
proof fn lemma_find_member(ds: Seq<DecView>, d: DecView)
    requires
        unique_ids(ds),
        ds.contains(d),
    ensures
        find(ds, d.id) == Some(d),
{
    let p = choose|p: int| 0 <= p < ds.len() && ds[p] == d;
    lemma_find_unique(ds, d.id, p);
}

/// Dropping the decision with one id changes no lookup of another.
proof fn lemma_without_find(ds: Seq<DecView>, id: Seq<char>, x: Seq<char>)
    requires
        unique_ids(ds),
        x != id,
    ensures
        find(without(ds, id), x) == find(ds, x),
{
    let pred = |d: DecView| d.id != id;
    let w = without(ds, id);
    lemma_without_unique(ds, id);
    if has_id(ds, x) {
        let p = choose|p: int| 0 <= p < ds.len() && #[trigger] ds[p].id == x;
        lemma_find_unique(ds, x, p);
        ds.lemma_filter_contains(pred, p);
        lemma_find_member(w, ds[p]);
    } else {
        assert forall|k: int| 0 <= k < w.len() implies (#[trigger] w[k]).id != x by {
            assert(ds.contains(w[k]));
            let q = choose|q: int| 0 <= q < ds.len() && ds[q] == w[k];
            assert(ds[q].id != x);
        }
        lemma_find_none(w, x);
    }
}

/// Recording a decision (replacing any with its id) keeps ids unique,
/// makes a lookup of its id give it back, and leaves the lookup of every
/// other id as it was.
pub proof fn lemma_record_then_find(ds: Seq<DecView>, d: DecView, x: Seq<char>)
    requires
        unique_ids(ds),
    ensures
        unique_ids(without(ds, d.id).push(d)),
        find(without(ds, d.id).push(d), d.id) == Some(d),
        x != d.id ==> find(without(ds, d.id).push(d), x) == find(ds, x),
{
    let w = without(ds, d.id);
    let after = w.push(d);
    lemma_without_unique(ds, d.id);
    assert forall|i: int, j: int| 0 <= i < j < after.len() implies (#[trigger] after[i]).id != (#[trigger] after[j]).id by {
        if j == after.len() - 1 {
            assert(after[i] == w[i]);
        } else {
            assert(after[i] == w[i] && after[j] == w[j]);
        }
    }
    lemma_find_unique(after, d.id, after.len() - 1);
    if x != d.id {
        lemma_without_find(ds, d.id, x);
        if has_id(w, x) {
            let p = choose|p: int| 0 <= p < w.len() && #[trigger] w[p].id == x;
            assert(after[p] == w[p]);
            lemma_find_unique(w, x, p);
            lemma_find_unique(after, x, p);
        } else {
            assert forall|k: int| 0 <= k < after.len() implies (#[trigger] after[k]).id != x by {
                if k < w.len() {
                    assert(after[k] == w[k]);
                }
            }
            lemma_find_none(after, x);
        }
    }
}

/// After deleting an id nothing is found under it, and the lookup of every
/// other id is as it was.
pub proof fn lemma_delete_then_find(ds: Seq<DecView>, id: Seq<char>, x: Seq<char>)
    requires
        unique_ids(ds),
    ensures
        unique_ids(without(ds, id)),
        find(without(ds, id), id) is None,
        x != id ==> find(without(ds, id), x) == find(ds, x),
{
    lemma_without_unique(ds, id);
    lemma_find_none(without(ds, id), id);
    if x != id {
        lemma_without_find(ds, id, x);
    }
}

/// Recording the same decision twice leaves the store as recording it once.
pub proof fn lemma_record_idempotent(ds: Seq<DecView>, d: DecView)
    ensures
        without(without(ds, d.id).push(d), d.id).push(d) == without(ds, d.id).push(d),
{
    let pred = |e: DecView| e.id != d.id;
    let w = without(ds, d.id);
    w.lemma_filter_push(d, pred);
    assert forall|k: int| 0 <= k < w.len() implies pred(#[trigger] w[k]) by {
        ds.lemma_filter_pred(pred, k);
    }
    lemma_filter_keeps_all(w, pred);
}

} // verus!
