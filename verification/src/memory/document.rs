//! Repository documents, retrieval queries and ranked hits.

use crate::clock::now_millis;
use crate::memory::terms::{lex_lt, tokens};
use crate::text::{copy_opt_string, copy_string, copy_strings, has_prefix, opt_view, owned, strings_view};
use vstd::prelude::*;

verus! {

broadcast use vstd::string::group_string_axioms;

/// Type of repository document.
#[derive(Clone, Copy, Debug, PartialEq, Eq, Structural)]
pub enum DocumentKind {
    /// Source code or generated code.
    Source,
    /// Human-authored documentation.
    Documentation,
    /// Configuration or deployment artifact.
    Configuration,
    /// Test source or fixture.
    Test,
    /// Other indexed text.
    Other,
}

/// A document extracted from a repository and made available for retrieval.
#[derive(Debug)]
pub struct RepositoryDocument {
    /// Stable document identifier: a path, symbol path or content hash.
    pub id: String,
    /// Repository name, for example `stevedores-org/oxidizedgraph`.
    pub repo: String,
    /// Repository-relative file path.
    pub path: String,
    /// Optional symbol or semantic anchor inside the file.
    pub symbol: Option<String>,
    /// The indexed text content.
    pub content: String,
    /// Document kind used to tune ranking and display.
    pub kind: DocumentKind,
    /// Arbitrary metadata carried with the document, as key/value pairs.
    pub metadata: Vec<(String, String)>,
    /// Time the document was indexed or last refreshed, in milliseconds
    /// since the Unix epoch.
    pub updated_at: i64,
}

/// What a repository document holds.
pub struct DocView {
    pub id: Seq<char>,
    pub repo: Seq<char>,
    pub path: Seq<char>,
    pub symbol: Option<Seq<char>>,
    pub content: Seq<char>,
    pub kind: DocumentKind,
    pub metadata: Seq<(Seq<char>, Seq<char>)>,
    pub updated_at: i64,
}

/// The character sequences of key/value pairs.
pub open spec fn pairs_view(v: Seq<(String, String)>) -> Seq<(Seq<char>, Seq<char>)> {
    v.map_values(|p: (String, String)| (p.0@, p.1@))
}

impl View for RepositoryDocument {
    type V = DocView;

    open spec fn view(&self) -> DocView {
        DocView {
            id: self.id@,
            repo: self.repo@,
            path: self.path@,
            symbol: opt_view(self.symbol),
            content: self.content@,
            kind: self.kind,
            metadata: pairs_view(self.metadata@),
            updated_at: self.updated_at,
        }
    }
}

fn copy_pairs(v: &Vec<(String, String)>) -> (r: Vec<(String, String)>)
    ensures
        pairs_view(r@) == pairs_view(v@),
{
    let mut r: Vec<(String, String)> = Vec::new();
    let mut i: usize = 0;
    while i < v.len()
        invariant
            i <= v@.len(),
            pairs_view(r@) == pairs_view(v@).take(i as int),
        decreases v@.len() - i,
    {
        let ghost before = r@;
        let p = (copy_string(&v[i].0), copy_string(&v[i].1));
        r.push(p);
        i += 1;
        assert(pairs_view(r@) == pairs_view(before).push((p.0@, p.1@)));
        assert(pairs_view(v@).take(i as int) == pairs_view(v@).take(i - 1).push(
            (v@[i - 1].0@, v@[i - 1].1@),
        ));
    }
    assert(pairs_view(v@).take(v@.len() as int) == pairs_view(v@));
    r
}

impl RepositoryDocument {
    /// A source file document whose id is its path, stamped with the
    /// current time.
    pub fn source(repo: &str, path: &str, content: &str) -> (r: Self)
        ensures
            r@.id == path@,
            r@.repo == repo@,
            r@.path == path@,
            r@.symbol is None,
            r@.content == content@,
            r@.kind == DocumentKind::Source,
            r@.metadata.len() == 0,
    {
        RepositoryDocument {
            id: owned(path),
            repo: owned(repo),
            path: owned(path),
            symbol: None,
            content: owned(content),
            kind: DocumentKind::Source,
            metadata: Vec::new(),
            updated_at: now_millis(),
        }
    }

    /// The document with a symbol name attached.
    pub fn with_symbol(self, symbol: &str) -> (r: Self)
        ensures
            r@ == (DocView { symbol: Some(symbol@), ..self@ }),
    {
        let mut d = self;
        d.symbol = Some(owned(symbol));
        d
    }

    /// The document with its stable identifier replaced.
    pub fn with_id(self, id: &str) -> (r: Self)
        ensures
            r@ == (DocView { id: id@, ..self@ }),
    {
        let mut d = self;
        d.id = owned(id);
        d
    }

    /// A copy holding the same values.
    pub fn duplicate(&self) -> (r: Self)
        ensures
            r@ == self@,
    {
        RepositoryDocument {
            id: copy_string(&self.id),
            repo: copy_string(&self.repo),
            path: copy_string(&self.path),
            symbol: copy_opt_string(&self.symbol),
            content: copy_string(&self.content),
            kind: self.kind,
            metadata: copy_pairs(&self.metadata),
            updated_at: self.updated_at,
        }
    }
}

/// Query parameters for retrieval.
#[derive(Debug)]
pub struct RetrievalQuery {
    /// Natural-language or keyword query.
    pub query: String,
    /// Optional repository filter.
    pub repo: Option<String>,
    /// Path prefixes to include; empty means every path.
    pub path_prefixes: Vec<String>,
    /// Maximum number of results.
    pub limit: usize,
    /// Minimum score a result must reach. Scores are whole numbers.
    pub min_score: u64,
}

/// What a retrieval query asks.
pub struct QueryView {
    pub query: Seq<char>,
    pub repo: Option<Seq<char>>,
    pub path_prefixes: Seq<Seq<char>>,
    pub limit: usize,
    pub min_score: u64,
}

impl View for RetrievalQuery {
    type V = QueryView;

    open spec fn view(&self) -> QueryView {
        QueryView {
            query: self.query@,
            repo: opt_view(self.repo),
            path_prefixes: strings_view(self.path_prefixes@),
            limit: self.limit,
            min_score: self.min_score,
        }
    }
}

impl RetrievalQuery {
    /// A query with conservative defaults: any repository and path, at most
    /// eight results, no minimum score.
    pub fn new(query: &str) -> (r: Self)
        ensures
            r@.query == query@,
            r@.repo is None,
            r@.path_prefixes.len() == 0,
            r@.limit == 8,
            r@.min_score == 0,
    {
        RetrievalQuery {
            query: owned(query),
            repo: None,
            path_prefixes: Vec::new(),
            limit: 8,
            min_score: 0,
        }
    }

    /// The query restricted to a repository.
    pub fn repo(self, repo: &str) -> (r: Self)
        ensures
            r@ == (QueryView { repo: Some(repo@), ..self@ }),
    {
        let mut q = self;
        q.repo = Some(owned(repo));
        q
    }

    /// The query restricted to one more path prefix.
    pub fn path_prefix(self, prefix: &str) -> (r: Self)
        ensures
            r@ == (QueryView { path_prefixes: self@.path_prefixes.push(prefix@), ..self@ }),
    {
        let mut q = self;
        let p = owned(prefix);
        let ghost before = q.path_prefixes@;
        q.path_prefixes.push(p);
        assert(strings_view(q.path_prefixes@) == strings_view(before).push(p@));
        q
    }

    /// The query with its result limit set.
    pub fn limit(self, limit: usize) -> (r: Self)
        ensures
            r@ == (QueryView { limit, ..self@ }),
    {
        let mut q = self;
        q.limit = limit;
        q
    }

    /// The query with its minimum score set.
    pub fn min_score(self, min_score: u64) -> (r: Self)
        ensures
            r@ == (QueryView { min_score, ..self@ }),
    {
        let mut q = self;
        q.min_score = min_score;
        q
    }
}

/// A ranked retrieval hit.
#[derive(Debug)]
pub struct RetrievalResult {
    /// Retrieved document.
    pub document: RepositoryDocument,
    /// Lexical relevance score.
    pub score: u64,
    /// Query terms that matched the document, in query order.
    pub matched_terms: Vec<String>,
}

/// What a retrieval hit holds.
pub struct ResultView {
    pub document: DocView,
    pub score: u64,
    pub matched_terms: Seq<Seq<char>>,
}

impl View for RetrievalResult {
    type V = ResultView;

    open spec fn view(&self) -> ResultView {
        ResultView {
            document: self.document@,
            score: self.score,
            matched_terms: strings_view(self.matched_terms@),
        }
    }
}

impl RetrievalResult {
    /// A copy holding the same values.
    pub fn duplicate(&self) -> (r: Self)
        ensures
            r@ == self@,
    {
        RetrievalResult {
            document: self.document.duplicate(),
            score: self.score,
            matched_terms: copy_strings(&self.matched_terms),
        }
    }
}

// ---------------------------------------------------------------------------
// Scoring
// ---------------------------------------------------------------------------

/// How often `t` occurs among `ts`.
pub open spec fn frequency(ts: Seq<Seq<char>>, t: Seq<char>) -> nat {
    ts.filter(|x: Seq<char>| x == t).len()
}

/// The terms of a document's symbol, none when it has no symbol.
pub open spec fn symbol_terms(d: DocView) -> Seq<Seq<char>> {
    match d.symbol {
        Some(s) => tokens(s),
        None => Seq::empty(),
    }
}

/// What one query term adds to a document's score: 3 for a path term, 4 for
/// a symbol term, and one more than its frequency when it occurs in the
/// content.
pub open spec fn term_score(d: DocView, t: Seq<char>) -> nat {
    let f = frequency(tokens(d.content), t);
    (if tokens(d.path).contains(t) { 3nat } else { 0nat }) + (if symbol_terms(d).contains(t) {
        4nat
    } else {
        0nat
    }) + (if f > 0 { 1 + f } else { 0nat })
}

/// Addition capped at the largest score.
pub open spec fn capped_add(a: nat, b: nat) -> nat {
    if a + b > u64::MAX {
        u64::MAX as nat
    } else {
        a + b
    }
}

/// The score of a document for the query terms: the sum of the term scores,
/// capped at the largest `u64`.
pub open spec fn total_score(d: DocView, terms: Seq<Seq<char>>) -> nat
    decreases terms.len(),
{
    if terms.len() == 0 {
        0
    } else {
        capped_add(total_score(d, terms.drop_last()), term_score(d, terms.last()))
    }
}

/// The query terms that add to a document's score, in query order.
pub open spec fn matched_terms(d: DocView, terms: Seq<Seq<char>>) -> Seq<Seq<char>> {
    terms.filter(|t: Seq<char>| term_score(d, t) > 0)
}

/// The hit a document makes for the query terms.
pub open spec fn scored(d: DocView, terms: Seq<Seq<char>>) -> ResultView {
    ResultView {
        document: d,
        score: total_score(d, terms) as u64,
        matched_terms: matched_terms(d, terms),
    }
}

/// The document is in the queried repository, if one is given.
pub open spec fn in_repo(d: DocView, q: QueryView) -> bool {
    match q.repo {
        Some(r) => d.repo == r,
        None => true,
    }
}

/// The document's path starts with one of the query's prefixes, if any are
/// given.
pub open spec fn under_prefix(d: DocView, q: QueryView) -> bool {
    q.path_prefixes.len() == 0 || exists|i: int|
        0 <= i < q.path_prefixes.len() && has_prefix(d.path, #[trigger] q.path_prefixes[i])
}

/// The document answers the query: it passes the filters, some query term
/// matches it, and its score reaches the minimum.
pub open spec fn is_hit(d: DocView, q: QueryView, terms: Seq<Seq<char>>) -> bool {
    &&& in_repo(d, q)
    &&& under_prefix(d, q)
    &&& matched_terms(d, terms).len() > 0
    &&& total_score(d, terms) >= q.min_score
}

/// Hit `a` ranks above hit `b`: a higher score, or an equal score and an id
/// that sorts first.
pub open spec fn ranks_above(a: ResultView, b: ResultView) -> bool {
    a.score > b.score || (a.score == b.score && lex_lt(a.document.id, b.document.id))
}

} // verus!
