//! In-memory repository index with deterministic lexical retrieval.

use crate::memory::document::{
    capped_add, frequency, in_repo, is_hit, matched_terms, ranks_above, scored, symbol_terms,
    term_score, total_score, under_prefix, DocView, QueryView, RepositoryDocument, ResultView,
    RetrievalQuery, RetrievalResult,
};
use crate::memory::terms::{lemma_lex_lt_order, lex_lt, str_lt, tokenize, tokens};
use crate::text::{copy_string, str_eq, str_starts_with, strings_view};
use vstd::prelude::*;

verus! {

broadcast use vstd::string::group_string_axioms;

/// The views of a sequence of documents.
pub open spec fn docs_view(ds: Seq<RepositoryDocument>) -> Seq<DocView> {
    ds.map_values(|d: RepositoryDocument| d@)
}

/// No two documents share an id.
pub open spec fn unique_ids(ds: Seq<DocView>) -> bool {
    forall|i: int, j: int| 0 <= i < j < ds.len() ==> (#[trigger] ds[i]).id != (#[trigger] ds[j]).id
}

/// The documents whose id differs from `id`, in order.
pub open spec fn without_id(ds: Seq<DocView>, id: Seq<char>) -> Seq<DocView> {
    ds.filter(|d: DocView| d.id != id)
}

/// The documents after indexing `new` one by one into `ds`.
pub open spec fn indexed_all(ds: Seq<DocView>, new: Seq<DocView>) -> Seq<DocView>
    decreases new.len(),
{
    if new.len() == 0 {
        ds
    } else {
        without_id(indexed_all(ds, new.drop_last()), new.last().id).push(new.last())
    }
}

/// The documents that answer a query, in index order.
pub open spec fn hits(ds: Seq<DocView>, q: QueryView, terms: Seq<Seq<char>>) -> Seq<DocView> {
    ds.filter(|d: DocView| is_hit(d, q, terms))
}

/// `rs` holds the best `limit` of the candidate hits, best first: each is a
/// candidate, each ranks above the next, and every candidate left out ranks
/// below all of them.
pub open spec fn top_ranked(rs: Seq<ResultView>, cands: Seq<ResultView>, limit: nat) -> bool {
    &&& rs.len() == if cands.len() < limit { cands.len() } else { limit }
    &&& forall|k: int| 0 <= k < rs.len() ==> cands.contains(#[trigger] rs[k])
    &&& forall|k: int, l: int| 0 <= k < l < rs.len() ==> ranks_above(#[trigger] rs[k], #[trigger] rs[l])
    &&& forall|j: int, k: int|
        0 <= j < cands.len() && 0 <= k < rs.len() && !rs.contains(cands[j]) ==> ranks_above(
            #[trigger] rs[k],
            #[trigger] cands[j],
        )
}

/// The views of a sequence of hits.
pub open spec fn results_view(rs: Seq<RetrievalResult>) -> Seq<ResultView> {
    rs.map_values(|r: RetrievalResult| r@)
}

/// In-memory repository index.
#[derive(Debug)]
pub struct RepositoryIndex {
    documents: Vec<RepositoryDocument>,
}

impl View for RepositoryIndex {
    type V = Seq<DocView>;

    closed spec fn view(&self) -> Seq<DocView> {
        docs_view(self.documents@)
    }
}

proof fn lemma_without_unique(ds: Seq<DocView>, id: Seq<char>, p: int)
    requires
        unique_ids(ds),
        0 <= p < ds.len(),
        ds[p].id == id,
    ensures
        without_id(ds, id) == ds.remove(p),
    decreases ds.len(),
{
    let last = ds.last();
    let init = ds.drop_last();
    assert(ds == init.push(last));
    init.lemma_filter_push(last, |d: DocView| d.id != id);
    if p == ds.len() - 1 {
        assert forall|i: int| 0 <= i < init.len() implies (#[trigger] init[i]).id != id by {
            assert(ds[i] == init[i]);
        }
        lemma_without_none(init, id);
        assert(ds.remove(p) =~= init);
    } else {
        assert(unique_ids(init)) by {
            assert forall|i: int, j: int| 0 <= i < j < init.len() implies (#[trigger] init[i]).id
                != (#[trigger] init[j]).id by {
                assert(init[i] == ds[i] && init[j] == ds[j]);
            }
        }
        assert(init[p] == ds[p]);
        lemma_without_unique(init, id, p);
        assert(last.id != id);
        assert(ds.remove(p) =~= init.remove(p).push(last));
    }
}

proof fn lemma_without_none(ds: Seq<DocView>, id: Seq<char>)
    requires
        forall|i: int| 0 <= i < ds.len() ==> (#[trigger] ds[i]).id != id,
    ensures
        without_id(ds, id) == ds,
    decreases ds.len(),
{
    if ds.len() > 0 {
        let init = ds.drop_last();
        assert(ds == init.push(ds.last()));
        init.lemma_filter_push(ds.last(), |d: DocView| d.id != id);
        assert forall|i: int| 0 <= i < init.len() implies (#[trigger] init[i]).id != id by {
            assert(ds[i] == init[i]);
        }
        lemma_without_none(init, id);
    }
}

proof fn lemma_docs_view_push(ds: Seq<RepositoryDocument>, d: RepositoryDocument)
    ensures
        docs_view(ds.push(d)) == docs_view(ds).push(d@),
{
    assert(docs_view(ds.push(d)) =~= docs_view(ds).push(d@));
}

fn term_in(ts: &Vec<String>, t: &String) -> (r: bool)
    ensures
        r == strings_view(ts@).contains(t@),
{
    let mut i: usize = 0;
    while i < ts.len()
        invariant
            i <= ts@.len(),
            forall|k: int| 0 <= k < i ==> ts@[k]@ != t@,
        decreases ts@.len() - i,
    {
        if str_eq(ts[i].as_str(), t.as_str()) {
            assert(strings_view(ts@)[i as int] == t@);
            return true;
        }
        i += 1;
    }
    proof {
        if strings_view(ts@).contains(t@) {
            let k = choose|k: int| 0 <= k < strings_view(ts@).len() && strings_view(ts@)[k] == t@;
            assert(ts@[k]@ == t@);
        }
    }
    false
}

fn count_term(ts: &Vec<String>, t: &String) -> (r: usize)
    ensures
        r == frequency(strings_view(ts@), t@),
{
    let ghost v = strings_view(ts@);
    let mut n: usize = 0;
    let mut i: usize = 0;
    while i < ts.len()
        invariant
            i <= ts@.len(),
            v == strings_view(ts@),
            n == frequency(v.take(i as int), t@),
            n <= i,
        decreases ts@.len() - i,
    {
        proof {
            assert(v.take(i + 1) == v.take(i as int).push(v[i as int]));
            v.take(i as int).lemma_filter_push(v[i as int], |x: Seq<char>| x == t@);
        }
        if str_eq(ts[i].as_str(), t.as_str()) {
            n += 1;
        }
        i += 1;
    }
    assert(v.take(ts@.len() as int) == v);
    n
}

/// The hit a document makes for the query terms, if any term matches it.
fn score_document(document: &RepositoryDocument, query_terms: &Vec<String>) -> (r: Option<
    RetrievalResult,
>)
    ensures
        match r {
            Some(h) => matched_terms(document@, strings_view(query_terms@)).len() > 0 && h@ == scored(
                document@,
                strings_view(query_terms@),
            ),
            None => matched_terms(document@, strings_view(query_terms@)).len() == 0,
        },
{
    let ghost terms = strings_view(query_terms@);
    let ghost d = document@;
    let content_terms = tokenize(document.content.as_str());
    let path_terms = tokenize(document.path.as_str());
    let symbol_terms_v: Vec<String> = match &document.symbol {
        Some(s) => tokenize(s.as_str()),
        None => Vec::new(),
    };
    assert(strings_view(symbol_terms_v@) == symbol_terms(d));
    let mut score: u64 = 0;
    let mut matched: Vec<String> = Vec::new();
    let mut i: usize = 0;
    while i < query_terms.len()
        invariant
            i <= query_terms@.len(),
            terms == strings_view(query_terms@),
            d == document@,
            strings_view(content_terms@) == tokens(d.content),
            strings_view(path_terms@) == tokens(d.path),
            strings_view(symbol_terms_v@) == symbol_terms(d),
            score == total_score(d, terms.take(i as int)),
            strings_view(matched@) == matched_terms(d, terms.take(i as int)),
        decreases query_terms@.len() - i,
    {
        let term = &query_terms[i];
        let mut term_score_v: u64 = 0;
        if term_in(&path_terms, term) {
            term_score_v = term_score_v + 3;
        }
        if term_in(&symbol_terms_v, term) {
            term_score_v = term_score_v + 4;
        }
        let f = count_term(&content_terms, term);
        if f > 0 {
            term_score_v = term_score_v.saturating_add(1).saturating_add(f as u64);
        }
        proof {
            let t = terms[i as int];
            assert(t == term@);
            let ts = term_score(d, t);
            assert(term_score_v == if ts > u64::MAX { u64::MAX as nat } else { ts });
            assert(terms.take(i + 1) == terms.take(i as int).push(t));
            assert(terms.take(i + 1).drop_last() == terms.take(i as int));
            terms.take(i as int).lemma_filter_push(t, |x: Seq<char>| term_score(d, x) > 0);
        }
        let ghost before = matched@;
        if term_score_v > 0 {
            matched.push(copy_string(term));
            assert(strings_view(matched@) == strings_view(before).push(term@));
        }
        score = score.saturating_add(term_score_v);
        i += 1;
    }
    assert(terms.take(query_terms@.len() as int) == terms);
    if matched.len() > 0 {
        Some(RetrievalResult { document: document.duplicate(), score, matched_terms: matched })
    } else {
        None
    }
}

fn in_repo_exec(document: &RepositoryDocument, query: &RetrievalQuery) -> (r: bool)
    ensures
        r == in_repo(document@, query@),
{
    match &query.repo {
        Some(repo) => str_eq(document.repo.as_str(), repo.as_str()),
        None => true,
    }
}

fn under_prefix_exec(document: &RepositoryDocument, query: &RetrievalQuery) -> (r: bool)
    ensures
        r == under_prefix(document@, query@),
{
    let ghost ps = strings_view(query.path_prefixes@);
    if query.path_prefixes.len() == 0 {
        return true;
    }
    let mut i: usize = 0;
    while i < query.path_prefixes.len()
        invariant
            i <= query.path_prefixes@.len(),
            ps == strings_view(query.path_prefixes@),
            forall|k: int| 0 <= k < i ==> !crate::text::has_prefix(document@.path, #[trigger] ps[k]),
        decreases query.path_prefixes@.len() - i,
    {
        if str_starts_with(document.path.as_str(), query.path_prefixes[i].as_str()) {
            assert(crate::text::has_prefix(document@.path, ps[i as int]));
            return true;
        }
        i += 1;
    }
    false
}

fn ranks_above_exec(a: &RetrievalResult, b: &RetrievalResult) -> (r: bool)
    ensures
        r == ranks_above(a@, b@),
{
    a.score > b.score || (a.score == b.score && str_lt(a.document.id.as_str(), b.document.id.as_str()))
}

/// `ranks_above` is a strict order, total on hits with different ids.
proof fn lemma_ranks_above_order(a: ResultView, b: ResultView, c: ResultView)
    ensures
        !ranks_above(a, a),
        a.document.id != b.document.id ==> ranks_above(a, b) || ranks_above(b, a),
        ranks_above(a, b) ==> !ranks_above(b, a),
        ranks_above(a, b) && ranks_above(b, c) ==> ranks_above(a, c),
{
    lemma_lex_lt_order(a.document.id, b.document.id, c.document.id);
    lemma_lex_lt_order(b.document.id, a.document.id, c.document.id);
}

proof fn lemma_total_score_bounded(d: DocView, terms: Seq<Seq<char>>)
    ensures
        total_score(d, terms) <= u64::MAX,
{
}

/// Positions of the hits, best ranked first.
fn order_hits(cands: &Vec<RetrievalResult>) -> (order: Vec<usize>)
    requires
        forall|a: int, b: int|
            0 <= a < b < cands@.len() ==> (#[trigger] cands@[a]).document@.id != (
            #[trigger] cands@[b]).document@.id,
    ensures
        order@.len() == cands@.len(),
        forall|x: int| 0 <= x < order@.len() ==> (#[trigger] order@[x]) < cands@.len(),
        forall|j: int| 0 <= j < cands@.len() ==> #[trigger] order@.contains(j as usize),
        forall|x: int, y: int|
            0 <= x < y < order@.len() ==> ranks_above(
                cands@[#[trigger] order@[x] as int]@,
                cands@[#[trigger] order@[y] as int]@,
            ),
{
    let ghost cv = results_view(cands@);
    let mut order: Vec<usize> = Vec::new();
    let mut i: usize = 0;
    while i < cands.len()
        invariant
            i <= cands@.len(),
            cv == results_view(cands@),
            forall|a: int, b: int|
                0 <= a < b < cands@.len() ==> (#[trigger] cands@[a]).document@.id != (
                #[trigger] cands@[b]).document@.id,
            order@.len() == i,
            forall|k: int| 0 <= k < order@.len() ==> (#[trigger] order@[k]) < i,
            forall|j: int| 0 <= j < i ==> #[trigger] order@.contains(j as usize),
            forall|x: int, y: int|
                0 <= x < y < order@.len() ==> ranks_above(
                    cv[#[trigger] order@[x] as int],
                    cv[#[trigger] order@[y] as int],
                ),
        decreases cands@.len() - i,
    {
        let mut p: usize = 0;
        while p < order.len() && ranks_above_exec(&cands[order[p]], &cands[i])
            invariant
                i < cands@.len(),
                cv == results_view(cands@),
                p <= order@.len(),
                forall|k: int| 0 <= k < order@.len() ==> (#[trigger] order@[k]) < i,
                forall|q: int| 0 <= q < p ==> ranks_above(cv[#[trigger] order@[q] as int], cv[i as int]),
            decreases order@.len() - p,
        {
            p += 1;
        }
        let ghost old_order = order@;
        proof {
            assert forall|q: int| p <= q < old_order.len() implies ranks_above(
                cv[i as int],
                cv[#[trigger] old_order[q] as int],
            ) by {
                let op = old_order[p as int] as int;
                assert(cands@[op].document@.id != cands@[i as int].document@.id);
                lemma_ranks_above_order(cv[op], cv[i as int], cv[op]);
                if q > p {
                    lemma_ranks_above_order(cv[i as int], cv[op], cv[old_order[q] as int]);
                }
            }
        }
        order.insert(p, i);
        proof {
            let s = order@;
            assert(s == old_order.insert(p as int, i));
            assert forall|x: int, y: int| 0 <= x < y < s.len() implies ranks_above(
                cv[#[trigger] s[x] as int],
                cv[#[trigger] s[y] as int],
            ) by {
                if y < p {
                    assert(s[x] == old_order[x] && s[y] == old_order[y]);
                } else if y == p {
                    assert(s[x] == old_order[x]);
                } else if x < p {
                    assert(s[x] == old_order[x] && s[y] == old_order[y - 1]);
                    lemma_ranks_above_order(cv[old_order[x] as int], cv[i as int], cv[old_order[y - 1] as int]);
                } else if x == p {
                    assert(s[y] == old_order[y - 1]);
                } else {
                    assert(s[x] == old_order[x - 1] && s[y] == old_order[y - 1]);
                }
            }
            assert forall|j: int| 0 <= j < i + 1 implies #[trigger] s.contains(j as usize) by {
                if j == i {
                    assert(s[p as int] == i);
                } else {
                    assert(old_order.contains(j as usize));
                    let k = choose|k: int| 0 <= k < old_order.len() && old_order[k] == j as usize;
                    if k < p {
                        assert(s[k] == old_order[k]);
                    } else {
                        assert(s[k + 1] == old_order[k]);
                    }
                }
            }
            assert forall|k: int| 0 <= k < s.len() implies (#[trigger] s[k]) < i + 1 by {
                if k < p {
                    assert(s[k] == old_order[k]);
                } else if k > p {
                    assert(s[k] == old_order[k - 1]);
                }
            }
        }
        i += 1;
    }
    order
}

impl RepositoryIndex {
    /// The documents have distinct ids.
    pub open spec fn wf(&self) -> bool {
        unique_ids(self@)
    }

    /// An empty index.
    pub fn new() -> (r: Self)
        ensures
            r.wf(),
            r@.len() == 0,
    {
        RepositoryIndex { documents: Vec::new() }
    }

    /// The number of indexed documents.
    pub fn len(&self) -> (r: usize)
        ensures
            r == self@.len(),
    {
        self.documents.len()
    }

    /// Whether no document is indexed.
    pub fn is_empty(&self) -> (r: bool)
        ensures
            r == (self@.len() == 0),
    {
        self.documents.len() == 0
    }

    /// Removes the document with the given id, if there is one, and returns
    /// it; the others keep their order.
    pub fn remove_document(&mut self, id: &str) -> (r: Option<RepositoryDocument>)
        requires
            old(self).wf(),
        ensures
            final(self).wf(),
            final(self)@ == without_id(old(self)@, id@),
            match r {
                Some(d) => d@.id == id@ && old(self)@.contains(d@),
                None => forall|i: int| 0 <= i < old(self)@.len() ==> (#[trigger] old(self)@[i]).id != id@,
            },
    {
        let ghost old_docs = self@;
        let mut i: usize = 0;
        while i < self.documents.len()
            invariant
                i <= self.documents@.len(),
                self@ == old_docs,
                old_docs == old(self)@,
                unique_ids(old_docs),
                forall|k: int| 0 <= k < i ==> (#[trigger] old_docs[k]).id != id@,
            decreases self.documents@.len() - i,
        {
            if str_eq(self.documents[i].id.as_str(), id) {
                let removed = self.documents.remove(i);
                proof {
                    lemma_without_unique(old_docs, id@, i as int);
                    assert(self@ =~= old_docs.remove(i as int));
                    assert(old_docs[i as int] == removed@);
                    assert forall|x: int, y: int| 0 <= x < y < self@.len() implies (
                    #[trigger] self@[x]).id != (#[trigger] self@[y]).id by {
                        let ox = if x < i { x } else { x + 1 };
                        let oy = if y < i { y } else { y + 1 };
                        assert(self@[x] == old_docs[ox] && self@[y] == old_docs[oy]);
                    }
                }
                assert(old_docs[i as int].id == id@);
                assert(self@ == without_id(old_docs, id@));
                assert(old_docs.contains(removed@));
                return Some(removed);
            }
            i += 1;
        }
        proof {
            lemma_without_none(old_docs, id@);
        }
        None
    }

    /// Indexes a document, replacing any document with the same id; the new
    /// document comes last.
    pub fn index_document(&mut self, document: RepositoryDocument)
        requires
            old(self).wf(),
        ensures
            final(self).wf(),
            final(self)@ == without_id(old(self)@, document@.id).push(document@),
    {
        let _ = self.remove_document(document.id.as_str());
        let ghost mid = self.documents@;
        self.documents.push(document);
        proof {
            lemma_docs_view_push(mid, document);
            let w = without_id(old(self)@, document@.id);
            assert forall|k: int| 0 <= k < w.len() implies (#[trigger] w[k]).id != document@.id by {
                old(self)@.lemma_filter_pred(|d: DocView| d.id != document@.id, k);
            }
            assert forall|x: int, y: int| 0 <= x < y < self@.len() implies (
            #[trigger] self@[x]).id != (#[trigger] self@[y]).id by {
                if y == self@.len() - 1 {
                    assert(self@[x] == w[x]);
                } else {
                    assert(self@[x] == w[x] && self@[y] == w[y]);
                }
            }
        }
    }

    /// Indexes documents one after another.
    pub fn index_documents(&mut self, documents: Vec<RepositoryDocument>)
        requires
            old(self).wf(),
        ensures
            final(self).wf(),
            final(self)@ == indexed_all(old(self)@, docs_view(documents@)),
    {
        let mut docs = documents;
        let ghost orig = docs_view(documents@);
        let ghost start = self@;
        let total = docs.len();
        let ghost n = total as nat;
        let mut i: usize = 0;
        while docs.len() > 0
            invariant
                self.wf(),
                docs@.len() + i == n,
                n <= usize::MAX,
                orig.len() == n,
                docs_view(docs@) == orig.skip(i as int),
                self@ == indexed_all(start, orig.take(i as int)),
            decreases docs@.len(),
        {
            let ghost before_docs = docs@;
            let d = docs.remove(0);
            proof {
                assert(docs_view(before_docs)[0] == d@);
                assert(orig.skip(i as int)[0] == orig[i as int]);
                assert(docs_view(docs@) =~= docs_view(before_docs).drop_first());
                assert(orig.skip(i + 1) =~= orig.skip(i as int).drop_first());
            }
            self.index_document(d);
            proof {
                assert(orig.take(i + 1).drop_last() == orig.take(i as int));
                assert(orig.take(i + 1).last() == orig[i as int]);
            }
            i += 1;
        }
        assert(orig.take(n as int) == orig);
    }

    /// The hits for a query, best first: the indexed documents in the
    /// queried repository and under one of the path prefixes that some query
    /// term matches and whose score reaches the minimum, ranked by score and
    /// then by id, at most `limit` of them. A zero limit or a query without
    /// terms finds nothing.
    pub fn query(&self, query: &RetrievalQuery) -> (r: Vec<RetrievalResult>)
        requires
            self.wf(),
        ensures
            query@.limit == 0 || tokens(query@.query).len() == 0 ==> r@.len() == 0,
            query@.limit > 0 && tokens(query@.query).len() > 0 ==> top_ranked(
                results_view(r@),
                hits(self@, query@, tokens(query@.query)).map_values(
                    |d: DocView| scored(d, tokens(query@.query)),
                ),
                query@.limit as nat,
            ),
    {
        if query.limit == 0 {
            return Vec::new();
        }
        let query_terms = tokenize(query.query.as_str());
        if query_terms.len() == 0 {
            return Vec::new();
        }
        let ghost terms = strings_view(query_terms@);
        let ghost docs = self@;
        let ghost q = query@;
        let mut cands: Vec<RetrievalResult> = Vec::new();
        let mut i: usize = 0;
        while i < self.documents.len()
            invariant
                i <= docs.len(),
                docs == self@,
                docs.len() == self.documents@.len(),
                unique_ids(docs),
                q == query@,
                terms == strings_view(query_terms@),
                results_view(cands@) == hits(docs.take(i as int), q, terms).map_values(
                    |d: DocView| scored(d, terms),
                ),
                forall|a: int, m: int|
                    0 <= a < cands@.len() && i <= m < docs.len() ==> (#[trigger] cands@[a]).document@.id
                        != (#[trigger] docs[m]).id,
                forall|a: int, b: int|
                    0 <= a < b < cands@.len() ==> (#[trigger] cands@[a]).document@.id != (
                    #[trigger] cands@[b]).document@.id,
            decreases docs.len() - i,
        {
            let document = &self.documents[i];
            let ghost d = document@;
            proof {
                assert(d == docs[i as int]);
                lemma_total_score_bounded(d, terms);
                assert(docs.take(i + 1) == docs.take(i as int).push(d));
                docs.take(i as int).lemma_filter_push(d, |x: DocView| is_hit(x, q, terms));
            }
            let ghost before = cands@;
            let mut added = false;
            if in_repo_exec(document, query) && under_prefix_exec(document, query) {
                match score_document(document, &query_terms) {
                    Some(h) => {
                        if h.score >= query.min_score {
                            cands.push(h);
                            added = true;
                        }
                    },
                    None => {},
                }
            }
            proof {
                let hs = hits(docs.take(i as int), q, terms);
                if added {
                    assert(is_hit(d, q, terms));
                    assert(results_view(cands@) =~= results_view(before).push(scored(d, terms)));
                    assert(hs.push(d).map_values(|x: DocView| scored(x, terms)) =~= hs.map_values(
                        |x: DocView| scored(x, terms),
                    ).push(scored(d, terms)));
                    assert forall|a: int, b: int| 0 <= a < b < cands@.len() implies (
                    #[trigger] cands@[a]).document@.id != (#[trigger] cands@[b]).document@.id by {
                        if b == cands@.len() - 1 {
                            assert(cands@[b].document@ == docs[i as int]);
                            assert(cands@[a] == before[a]);
                        } else {
                            assert(cands@[a] == before[a] && cands@[b] == before[b]);
                        }
                    }
                    assert forall|a: int, m: int|
                        0 <= a < cands@.len() && i + 1 <= m < docs.len() implies (
                        #[trigger] cands@[a]).document@.id != (#[trigger] docs[m]).id by {
                        if a == cands@.len() - 1 {
                            assert(cands@[a].document@ == docs[i as int]);
                        } else {
                            assert(cands@[a] == before[a]);
                        }
                    }
                } else {
                    assert(!is_hit(d, q, terms));
                }
            }
            i += 1;
        }
        assert(docs.take(docs.len() as int) == docs);
        let ghost cv = results_view(cands@);
        let order = order_hits(&cands);
        let n = cands.len();
        let keep = if query.limit < n { query.limit } else { n };
        let mut out: Vec<RetrievalResult> = Vec::new();
        let mut k: usize = 0;
        while k < keep
            invariant
                k <= keep,
                keep <= n,
                n == cands@.len(),
                cv == results_view(cands@),
                order@.len() == n,
                forall|x: int| 0 <= x < n ==> (#[trigger] order@[x]) < n,
                results_view(out@) == order@.take(k as int).map_values(|x: usize| cv[x as int]),
            decreases keep - k,
        {
            let h = cands[order[k]].duplicate();
            let ghost before = out@;
            out.push(h);
            proof {
                assert(results_view(out@) =~= results_view(before).push(h@));
                assert(order@.take(k + 1) == order@.take(k as int).push(order@[k as int]));
                assert(order@.take(k + 1).map_values(|x: usize| cv[x as int]) =~= order@.take(
                    k as int,
                ).map_values(|x: usize| cv[x as int]).push(cv[order@[k as int] as int]));
            }
            k += 1;
        }
        proof {
            let rs = results_view(out@);
            assert forall|kk: int| 0 <= kk < rs.len() implies cv.contains(#[trigger] rs[kk]) by {
                assert(rs[kk] == cv[order@[kk] as int]);
            }
            assert forall|a: int, b: int| 0 <= a < b < rs.len() implies ranks_above(
                #[trigger] rs[a],
                #[trigger] rs[b],
            ) by {
                assert(rs[a] == cv[order@[a] as int] && rs[b] == cv[order@[b] as int]);
            }
            assert forall|j: int, kk: int|
                0 <= j < cv.len() && 0 <= kk < rs.len() && !rs.contains(cv[j]) implies ranks_above(
                #[trigger] rs[kk],
                #[trigger] cv[j],
            ) by {
                assert(order@.contains(j as usize));
                let p = choose|p: int| 0 <= p < order@.len() && order@[p] == j as usize;
                if p < rs.len() {
                    assert(rs[p] == cv[j]);
                }
                assert(rs[kk] == cv[order@[kk] as int]);
            }
        }
        out
    }
}

} // verus!
