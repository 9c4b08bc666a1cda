//! Budgeted context packing for agent prompts.

use crate::memory::document::{ResultView, RetrievalResult};
use crate::memory::store::{
    decision_refs_view, episode_refs_view, outcome_label, outcome_name, DecisionMemory,
    DecisionView, EpisodeView, EpisodicMemory,
};
use crate::memory::terms::{estimate_tokens, token_estimate};
use crate::text::{concat_strings, decimal, join, join_strings, u64_to_string};
use vstd::prelude::*;
use vstd::string::StringSliceAdditionalSpecFns;
use vstd::utf8::encode_utf8;

verus! {

broadcast use vstd::string::group_string_axioms;

/// Context assembly policy.
#[derive(Clone, Copy, Debug, PartialEq, Eq, Structural)]
pub struct ContextPolicy {
    /// Maximum number of retrieval documents to include.
    pub max_documents: usize,
    /// Maximum number of prior episodes to include.
    pub max_episodes: usize,
    /// Maximum number of decisions to include.
    pub max_decisions: usize,
}

impl Default for ContextPolicy {
    /// Six documents, three episodes and three decisions.
    fn default() -> (r: Self)
        ensures
            r.max_documents == 6,
            r.max_episodes == 3,
            r.max_decisions == 3,
    {
        ContextPolicy { max_documents: 6, max_episodes: 3, max_decisions: 3 }
    }
}

/// Context section assembled for an agent prompt.
#[derive(Debug)]
pub struct ContextSection {
    /// Section title.
    pub title: String,
    /// Section body.
    pub body: String,
    /// Estimated token cost for the section.
    pub estimated_tokens: usize,
}

/// What a section holds.
pub struct SectionView {
    pub title: Seq<char>,
    pub body: Seq<char>,
    pub estimated_tokens: nat,
}

impl View for ContextSection {
    type V = SectionView;

    open spec fn view(&self) -> SectionView {
        SectionView {
            title: self.title@,
            body: self.body@,
            estimated_tokens: self.estimated_tokens as nat,
        }
    }
}

/// The views of sections.
pub open spec fn sections_view(v: Seq<ContextSection>) -> Seq<SectionView> {
    v.map_values(|s: ContextSection| s@)
}

/// Packed context ready to inject into a prompt.
#[derive(Debug)]
pub struct PackedContext {
    /// Included context sections.
    pub sections: Vec<ContextSection>,
    /// Total estimated tokens.
    pub estimated_tokens: usize,
    /// True when one or more candidate sections did not fit.
    pub truncated: bool,
}

/// The state of packing after some candidate sections.
pub struct PackState {
    pub sections: Seq<SectionView>,
    pub used: nat,
    pub truncated: bool,
}

impl View for PackedContext {
    type V = PackState;

    open spec fn view(&self) -> PackState {
        PackState {
            sections: sections_view(self.sections@),
            used: self.estimated_tokens as nat,
            truncated: self.truncated,
        }
    }
}

/// The UTF-8 length of a text, as `str::len` reports it.
pub open spec fn utf8_len(s: Seq<char>) -> usize {
    encode_utf8(s).len() as usize
}

/// Estimated tokens of a section: those of its title and of its body.
pub open spec fn section_cost(title: Seq<char>, body: Seq<char>) -> nat {
    token_estimate(utf8_len(title) as nat) + token_estimate(utf8_len(body) as nat)
}

/// Greedy packing of candidate sections, in order, into a token budget: a
/// section is taken when it still fits and skipped otherwise, and a skip
/// marks the result as truncated.
pub open spec fn pack_greedy(cands: Seq<(Seq<char>, Seq<char>)>, budget: nat) -> PackState
    decreases cands.len(),
{
    if cands.len() == 0 {
        PackState { sections: Seq::empty(), used: 0, truncated: false }
    } else {
        let prev = pack_greedy(cands.drop_last(), budget);
        let (title, body) = cands.last();
        let cost = section_cost(title, body);
        if prev.used + cost > budget {
            PackState { truncated: true, ..prev }
        } else {
            PackState {
                sections: prev.sections.push(SectionView { title, body, estimated_tokens: cost }),
                used: prev.used + cost,
                truncated: prev.truncated,
            }
        }
    }
}

/// The section for a retrieval hit.
pub open spec fn doc_section(r: ResultView) -> (Seq<char>, Seq<char>) {
    let symbol = match r.document.symbol {
        Some(s) => " ("@ + s + ")"@,
        None => Seq::empty(),
    };
    (
        r.document.path + symbol,
        "repo: "@ + r.document.repo + "\nscore: "@ + decimal(r.score as int) + ".00"@
            + "\nmatched: "@ + join(r.matched_terms, ", "@) + "\n\n"@ + r.document.content,
    )
}

/// The section for a prior run.
pub open spec fn episode_section(e: EpisodeView) -> (Seq<char>, Seq<char>) {
    (
        "prior run "@ + e.run_id + " ("@ + outcome_label(e.outcome) + ")"@,
        "task: "@ + e.task_id + "\nrepo: "@ + e.repo + "\nsummary: "@ + e.summary
            + "\nartifacts: "@ + join(e.artifacts, ", "@),
    )
}

/// The section for a decision.
pub open spec fn decision_section(d: DecisionView) -> (Seq<char>, Seq<char>) {
    (
        "decision "@ + d.id,
        "task: "@ + d.task_id + "\nrepo: "@ + d.repo + "\nchange: "@ + d.change + "\nrationale: "@
            + d.rationale + "\nalternatives: "@ + join(d.alternatives, ", "@),
    )
}

/// The first `n` elements of `s`, or all of them.
pub open spec fn first<T>(s: Seq<T>, n: nat) -> Seq<T> {
    if s.len() <= n {
        s
    } else {
        s.take(n as int)
    }
}

/// The candidate sections in packing order: hits, then prior runs, then
/// decisions, each list cut to the policy's maximum.
pub open spec fn pack_candidates(
    rs: Seq<ResultView>,
    es: Seq<EpisodeView>,
    ds: Seq<DecisionView>,
    policy: ContextPolicy,
) -> Seq<(Seq<char>, Seq<char>)> {
    first(rs, policy.max_documents as nat).map_values(|r: ResultView| doc_section(r)) + first(
        es,
        policy.max_episodes as nat,
    ).map_values(|e: EpisodeView| episode_section(e)) + first(ds, policy.max_decisions as nat).map_values(
        |d: DecisionView| decision_section(d),
    )
}

/// The prompt text of packed sections: each as a `##` heading and its body,
/// separated by blank lines.
pub open spec fn prompt_text(sections: Seq<SectionView>) -> Seq<char> {
    join(
        sections.map_values(|s: SectionView| "## "@ + s.title + "\n\n"@ + s.body),
        "\n\n"@,
    )
}

impl PackedContext {
    /// The packed context as markdown.
    pub fn as_prompt(&self) -> (r: String)
        ensures
            r@ == prompt_text(self@.sections),
    {
        let mut parts: Vec<String> = Vec::new();
        let mut i: usize = 0;
        let ghost sv = sections_view(self.sections@);
        while i < self.sections.len()
            invariant
                i <= self.sections@.len(),
                sv == sections_view(self.sections@),
                parts@.map_values(|p: String| p@) == sv.take(i as int).map_values(
                    |s: SectionView| "## "@ + s.title + "\n\n"@ + s.body,
                ),
            decreases self.sections@.len() - i,
        {
            let s = &self.sections[i];
            let a = concat_strings("## ", s.title.as_str());
            let b = concat_strings(a.as_str(), "\n\n");
            let c = concat_strings(b.as_str(), s.body.as_str());
            let ghost before = parts@;
            parts.push(c);
            proof {
                assert(sv.take(i + 1) == sv.take(i as int).push(sv[i as int]));
                assert(parts@.map_values(|p: String| p@) =~= before.map_values(|p: String| p@).push(c@));
                assert(sv.take(i + 1).map_values(|s: SectionView| "## "@ + s.title + "\n\n"@ + s.body)
                    =~= sv.take(i as int).map_values(
                    |s: SectionView| "## "@ + s.title + "\n\n"@ + s.body,
                ).push("## "@ + sv[i as int].title + "\n\n"@ + sv[i as int].body));
            }
            i += 1;
        }
        assert(sv.take(sv.len() as int) == sv);
        join_strings(&parts, "\n\n")
    }
}

/// Budgeted context packer.
#[derive(Clone, Copy, Debug, PartialEq, Eq, Structural)]
pub struct ContextPacker {
    /// Maximum estimated tokens for the final context.
    pub max_tokens: usize,
    /// Tokens reserved for model instructions and response room.
    pub reserved_tokens: usize,
}

/// Adds a candidate section if it fits the budget, else marks truncation.
fn append_section(
    sections: &mut Vec<ContextSection>,
    estimated_tokens: &mut usize,
    truncated: &mut bool,
    budget: usize,
    title: String,
    body: String,
)
    requires
        *old(estimated_tokens) <= budget,
    ensures
        *final(estimated_tokens) <= budget,
        ({
            let cost = section_cost(title@, body@);
            if *old(estimated_tokens) + cost > budget {
                &&& sections_view(final(sections)@) == sections_view(old(sections)@)
                &&& *final(estimated_tokens) == *old(estimated_tokens)
                &&& *final(truncated)
            } else {
                &&& sections_view(final(sections)@) == sections_view(old(sections)@).push(
                    SectionView { title: title@, body: body@, estimated_tokens: cost },
                )
                &&& *final(estimated_tokens) == *old(estimated_tokens) + cost
                &&& *final(truncated) == *old(truncated)
            }
        }),
{
    let t1 = estimate_tokens(title.as_str());
    let t2 = estimate_tokens(body.as_str());
    assert(t1 == token_estimate(utf8_len(title@) as nat));
    assert(t2 == token_estimate(utf8_len(body@) as nat));
    let tokens = t1 + t2;
    if tokens > budget - *estimated_tokens {
        *truncated = true;
        return;
    }
    *estimated_tokens = *estimated_tokens + tokens;
    let ghost before = sections@;
    let section = ContextSection { title, body, estimated_tokens: tokens };
    sections.push(section);
    assert(sections_view(sections@) =~= sections_view(before).push(section@));
}

impl ContextPacker {
    /// A packer with a token budget and nothing reserved.
    pub fn new(max_tokens: usize) -> (r: Self)
        ensures
            r.max_tokens == max_tokens,
            r.reserved_tokens == 0,
    {
        ContextPacker { max_tokens, reserved_tokens: 0 }
    }

    /// The packer with tokens reserved for caller-managed prompt content.
    pub fn reserved_tokens(self, reserved_tokens: usize) -> (r: Self)
        ensures
            r.max_tokens == self.max_tokens,
            r.reserved_tokens == reserved_tokens,
    {
        ContextPacker { reserved_tokens, ..self }
    }

    /// The budget left for context: the maximum less the reserve, or zero.
    pub open spec fn budget(&self) -> nat {
        if self.max_tokens > self.reserved_tokens {
            (self.max_tokens - self.reserved_tokens) as nat
        } else {
            0
        }
    }

    /// Packs retrieval hits, prior runs and decisions into the budget, in
    /// that order, each list cut to the policy's maximum: a section is taken
    /// when it still fits, and the result is marked truncated when one did
    /// not.
    pub fn pack(
        &self,
        retrieval: &[RetrievalResult],
        episodes: &[&EpisodicMemory],
        decisions: &[&DecisionMemory],
        policy: &ContextPolicy,
    ) -> (r: PackedContext)
        ensures
            r@ == pack_greedy(
                pack_candidates(
                    retrieval@.map_values(|x: RetrievalResult| x@),
                    episode_refs_view(episodes@),
                    decision_refs_view(decisions@),
                    *policy,
                ),
                self.budget(),
            ),
            r.estimated_tokens <= self.budget(),
    {
        let budget = self.max_tokens.saturating_sub(self.reserved_tokens);
        let ghost rs = retrieval@.map_values(|x: RetrievalResult| x@);
        let ghost es = episode_refs_view(episodes@);
        let ghost ds = decision_refs_view(decisions@);
        let ghost cands = pack_candidates(rs, es, ds, *policy);
        let ghost ca = first(rs, policy.max_documents as nat).map_values(|r: ResultView| doc_section(r));
        let ghost cb = first(es, policy.max_episodes as nat).map_values(|e: EpisodeView| episode_section(e));
        let ghost cc = first(ds, policy.max_decisions as nat).map_values(
            |d: DecisionView| decision_section(d),
        );
        assert(cands == ca + cb + cc);
        let mut sections: Vec<ContextSection> = Vec::new();
        let mut estimated_tokens: usize = 0;
        let mut truncated = false;
        let n_docs = if retrieval.len() < policy.max_documents {
            retrieval.len()
        } else {
            policy.max_documents
        };
        let mut i: usize = 0;
        assert(sections_view(sections@) =~= Seq::<SectionView>::empty());
        assert(ca.take(0) =~= Seq::<(Seq<char>, Seq<char>)>::empty());
        while i < n_docs
            invariant
                i <= n_docs,
                n_docs == ca.len(),
                n_docs <= retrieval@.len(),
                rs == retrieval@.map_values(|x: RetrievalResult| x@),
                ca == first(rs, policy.max_documents as nat).map_values(|r: ResultView| doc_section(r)),
                budget == self.budget(),
                estimated_tokens <= budget,
                (PackState {
                    sections: sections_view(sections@),
                    used: estimated_tokens as nat,
                    truncated,
                }) == pack_greedy(ca.take(i as int), budget as nat),
            decreases n_docs - i,
        {
            let (title, body) = doc_texts(&retrieval[i]);
            proof {
                assert(ca[i as int] == doc_section(rs[i as int]));
                assert(ca.take(i + 1).drop_last() == ca.take(i as int));
                assert(ca.take(i + 1).last() == ca[i as int]);
            }
            append_section(&mut sections, &mut estimated_tokens, &mut truncated, budget, title, body);
            i += 1;
        }
        assert(ca.take(ca.len() as int) == ca);
        let n_eps = if episodes.len() < policy.max_episodes {
            episodes.len()
        } else {
            policy.max_episodes
        };
        let mut j: usize = 0;
        while j < n_eps
            invariant
                j <= n_eps,
                n_eps == cb.len(),
                n_eps <= episodes@.len(),
                es == episode_refs_view(episodes@),
                cb == first(es, policy.max_episodes as nat).map_values(|e: EpisodeView| episode_section(e)),
                budget == self.budget(),
                estimated_tokens <= budget,
                (PackState {
                    sections: sections_view(sections@),
                    used: estimated_tokens as nat,
                    truncated,
                }) == pack_greedy(ca + cb.take(j as int), budget as nat),
            decreases n_eps - j,
        {
            let (title, body) = episode_texts(episodes[j]);
            proof {
                assert(cb[j as int] == episode_section(es[j as int]));
                assert((ca + cb.take(j + 1)).drop_last() == ca + cb.take(j as int));
                assert((ca + cb.take(j + 1)).last() == cb[j as int]);
            }
            append_section(&mut sections, &mut estimated_tokens, &mut truncated, budget, title, body);
            j += 1;
        }
        assert(cb.take(cb.len() as int) == cb);
        let n_dec = if decisions.len() < policy.max_decisions {
            decisions.len()
        } else {
            policy.max_decisions
        };
        let mut k: usize = 0;
        while k < n_dec
            invariant
                k <= n_dec,
                n_dec == cc.len(),
                n_dec <= decisions@.len(),
                ds == decision_refs_view(decisions@),
                cc == first(ds, policy.max_decisions as nat).map_values(
                    |d: DecisionView| decision_section(d),
                ),
                budget == self.budget(),
                estimated_tokens <= budget,
                (PackState {
                    sections: sections_view(sections@),
                    used: estimated_tokens as nat,
                    truncated,
                }) == pack_greedy(ca + cb + cc.take(k as int), budget as nat),
            decreases n_dec - k,
        {
            let (title, body) = decision_texts(decisions[k]);
            proof {
                assert(cc[k as int] == decision_section(ds[k as int]));
                assert((ca + cb + cc.take(k + 1)).drop_last() == ca + cb + cc.take(k as int));
                assert((ca + cb + cc.take(k + 1)).last() == cc[k as int]);
            }
            append_section(&mut sections, &mut estimated_tokens, &mut truncated, budget, title, body);
            k += 1;
        }
        assert(cc.take(cc.len() as int) == cc);
        PackedContext { sections, estimated_tokens, truncated }
    }
}

fn doc_texts(r: &RetrievalResult) -> (t: (String, String))
    ensures
        (t.0@, t.1@) == doc_section(r@),
{
    let title = match &r.document.symbol {
        Some(s) => {
            let a = concat_strings(r.document.path.as_str(), " (");
            let b = concat_strings(a.as_str(), s.as_str());
            concat_strings(b.as_str(), ")")
        },
        None => concat_strings(r.document.path.as_str(), ""),
    };
    proof {
        reveal_strlit("");
        assert(""@ =~= Seq::<char>::empty());
    }
    let score = u64_to_string(r.score);
    let matched = join_strings(&r.matched_terms, ", ");
    let b1 = concat_strings("repo: ", r.document.repo.as_str());
    let b2 = concat_strings(b1.as_str(), "\nscore: ");
    let b3 = concat_strings(b2.as_str(), score.as_str());
    let b4 = concat_strings(b3.as_str(), ".00");
    let b5 = concat_strings(b4.as_str(), "\nmatched: ");
    let b6 = concat_strings(b5.as_str(), matched.as_str());
    let b7 = concat_strings(b6.as_str(), "\n\n");
    let body = concat_strings(b7.as_str(), r.document.content.as_str());
    (title, body)
}

fn episode_texts(e: &EpisodicMemory) -> (t: (String, String))
    ensures
        (t.0@, t.1@) == episode_section(e@),
{
    let t1 = concat_strings("prior run ", e.run_id.as_str());
    let t2 = concat_strings(t1.as_str(), " (");
    let t3 = concat_strings(t2.as_str(), outcome_name(e.outcome));
    let title = concat_strings(t3.as_str(), ")");
    let artifacts = join_strings(&e.artifacts, ", ");
    let b1 = concat_strings("task: ", e.task_id.as_str());
    let b2 = concat_strings(b1.as_str(), "\nrepo: ");
    let b3 = concat_strings(b2.as_str(), e.repo.as_str());
    let b4 = concat_strings(b3.as_str(), "\nsummary: ");
    let b5 = concat_strings(b4.as_str(), e.summary.as_str());
    let b6 = concat_strings(b5.as_str(), "\nartifacts: ");
    let body = concat_strings(b6.as_str(), artifacts.as_str());
    (title, body)
}

fn decision_texts(d: &DecisionMemory) -> (t: (String, String))
    ensures
        (t.0@, t.1@) == decision_section(d@),
{
    let title = concat_strings("decision ", d.id.as_str());
    let alternatives = join_strings(&d.alternatives, ", ");
    let b1 = concat_strings("task: ", d.task_id.as_str());
    let b2 = concat_strings(b1.as_str(), "\nrepo: ");
    let b3 = concat_strings(b2.as_str(), d.repo.as_str());
    let b4 = concat_strings(b3.as_str(), "\nchange: ");
    let b5 = concat_strings(b4.as_str(), d.change.as_str());
    let b6 = concat_strings(b5.as_str(), "\nrationale: ");
    let b7 = concat_strings(b6.as_str(), d.rationale.as_str());
    let b8 = concat_strings(b7.as_str(), "\nalternatives: ");
    let body = concat_strings(b8.as_str(), alternatives.as_str());
    (title, body)
}

} // verus!
