//! Episodic and decision memory of prior agent runs.

use crate::clock::now_millis;
use crate::memory::terms::{tokenize, tokens};
use crate::ranking::{
    is_rank_order, lemma_filter_drops_one, lemma_filter_keeps_all, rank_order, ranked_prefix,
};
use crate::text::{concat_strings, copy_string, copy_strings, join, join_strings, owned, str_eq, strings_view};
use vstd::prelude::*;

verus! {

broadcast use vstd::string::group_string_axioms;

/// Outcome of a prior agent run.
#[derive(Clone, Copy, Debug, PartialEq, Eq, Structural)]
pub enum RunOutcome {
    /// The run completed successfully.
    Success,
    /// The run completed only part of the requested work.
    Partial,
    /// The run failed and should inform future planning.
    Failure,
    /// The run was blocked by missing input, credentials, or external state.
    Blocked,
}

/// The name of an outcome as it is printed (`Success`, `Partial`, ...).
pub open spec fn outcome_label(o: RunOutcome) -> Seq<char> {
    match o {
        RunOutcome::Success => "Success"@,
        RunOutcome::Partial => "Partial"@,
        RunOutcome::Failure => "Failure"@,
        RunOutcome::Blocked => "Blocked"@,
    }
}

/// The printed name of an outcome.
pub fn outcome_name(o: RunOutcome) -> (r: &'static str)
    ensures
        r@ == outcome_label(o),
{
    match o {
        RunOutcome::Success => "Success",
        RunOutcome::Partial => "Partial",
        RunOutcome::Failure => "Failure",
        RunOutcome::Blocked => "Blocked",
    }
}

/// A failed or blocked run.
pub open spec fn is_setback(o: RunOutcome) -> bool {
    o == RunOutcome::Failure || o == RunOutcome::Blocked
}

/// Durable episodic memory for a task/run/repository tuple.
#[derive(Debug)]
pub struct EpisodicMemory {
    /// Task or issue identifier.
    pub task_id: String,
    /// Unique run identifier.
    pub run_id: String,
    /// Repository the run acted on.
    pub repo: String,
    /// Human-readable summary of what happened.
    pub summary: String,
    /// Run outcome.
    pub outcome: RunOutcome,
    /// Artifact identifiers, paths, commits, or PR URLs produced by the run.
    pub artifacts: Vec<String>,
    /// Time the memory was recorded, in milliseconds since the Unix epoch.
    pub created_at: i64,
}

/// What an episode holds.
pub struct EpisodeView {
    pub task_id: Seq<char>,
    pub run_id: Seq<char>,
    pub repo: Seq<char>,
    pub summary: Seq<char>,
    pub outcome: RunOutcome,
    pub artifacts: Seq<Seq<char>>,
    pub created_at: i64,
}

impl View for EpisodicMemory {
    type V = EpisodeView;

    open spec fn view(&self) -> EpisodeView {
        EpisodeView {
            task_id: self.task_id@,
            run_id: self.run_id@,
            repo: self.repo@,
            summary: self.summary@,
            outcome: self.outcome,
            artifacts: strings_view(self.artifacts@),
            created_at: self.created_at,
        }
    }
}

impl EpisodicMemory {
    /// A new episode, stamped with the current time and without artifacts.
    pub fn new(task_id: &str, run_id: &str, repo: &str, summary: &str, outcome: RunOutcome) -> (r:
        Self)
        ensures
            r@.task_id == task_id@,
            r@.run_id == run_id@,
            r@.repo == repo@,
            r@.summary == summary@,
            r@.outcome == outcome,
            r@.artifacts.len() == 0,
    {
        EpisodicMemory {
            task_id: owned(task_id),
            run_id: owned(run_id),
            repo: owned(repo),
            summary: owned(summary),
            outcome,
            artifacts: Vec::new(),
            created_at: now_millis(),
        }
    }

    /// The episode with one more artifact reference.
    pub fn with_artifact(self, artifact: &str) -> (r: Self)
        ensures
            r@ == (EpisodeView { artifacts: self@.artifacts.push(artifact@), ..self@ }),
    {
        let mut e = self;
        let a = owned(artifact);
        let ghost before = e.artifacts@;
        e.artifacts.push(a);
        assert(strings_view(e.artifacts@) == strings_view(before).push(a@));
        e
    }
}

/// Durable decision memory for important implementation choices.
#[derive(Debug)]
pub struct DecisionMemory {
    /// Stable decision identifier.
    pub id: String,
    /// Task or issue identifier.
    pub task_id: String,
    /// Repository where the decision applies.
    pub repo: String,
    /// Change or design choice that was made.
    pub change: String,
    /// Rationale for the decision.
    pub rationale: String,
    /// Alternatives considered.
    pub alternatives: Vec<String>,
    /// Time the decision was recorded, in milliseconds since the Unix epoch.
    pub created_at: i64,
}

/// What a decision record holds.
pub struct DecisionView {
    pub id: Seq<char>,
    pub task_id: Seq<char>,
    pub repo: Seq<char>,
    pub change: Seq<char>,
    pub rationale: Seq<char>,
    pub alternatives: Seq<Seq<char>>,
    pub created_at: i64,
}

impl View for DecisionMemory {
    type V = DecisionView;

    open spec fn view(&self) -> DecisionView {
        DecisionView {
            id: self.id@,
            task_id: self.task_id@,
            repo: self.repo@,
            change: self.change@,
            rationale: self.rationale@,
            alternatives: strings_view(self.alternatives@),
            created_at: self.created_at,
        }
    }
}

impl DecisionMemory {
    /// A new decision record, stamped with the current time and without
    /// alternatives.
    pub fn new(id: &str, task_id: &str, repo: &str, change: &str, rationale: &str) -> (r: Self)
        ensures
            r@.id == id@,
            r@.task_id == task_id@,
            r@.repo == repo@,
            r@.change == change@,
            r@.rationale == rationale@,
            r@.alternatives.len() == 0,
    {
        DecisionMemory {
            id: owned(id),
            task_id: owned(task_id),
            repo: owned(repo),
            change: owned(change),
            rationale: owned(rationale),
            alternatives: Vec::new(),
            created_at: now_millis(),
        }
    }

    /// The decision with one more alternative considered.
    pub fn with_alternative(self, alternative: &str) -> (r: Self)
        ensures
            r@ == (DecisionView { alternatives: self@.alternatives.push(alternative@), ..self@ }),
    {
        let mut d = self;
        let a = owned(alternative);
        let ghost before = d.alternatives@;
        d.alternatives.push(a);
        assert(strings_view(d.alternatives@) == strings_view(before).push(a@));
        d
    }
}

// ---------------------------------------------------------------------------
// The store
// ---------------------------------------------------------------------------

/// The episodes of a task.
pub open spec fn of_task(task: Seq<char>) -> spec_fn(EpisodeView) -> bool {
    |e: EpisodeView| e.task_id == task
}

/// The failed or blocked runs of a task.
pub open spec fn setbacks_of_task(task: Seq<char>) -> spec_fn(EpisodeView) -> bool {
    |e: EpisodeView| e.task_id == task && is_setback(e.outcome)
}

/// The episodes of a task, or only its setbacks.
pub open spec fn episode_pick(task: Seq<char>, setbacks_only: bool) -> spec_fn(EpisodeView) -> bool {
    if setbacks_only {
        setbacks_of_task(task)
    } else {
        of_task(task)
    }
}

/// The decisions for a repository.
pub open spec fn of_repo(repo: Seq<char>) -> spec_fn(DecisionView) -> bool {
    |d: DecisionView| d.repo == repo
}

/// The views of episodes.
pub open spec fn episodes_view(v: Seq<EpisodicMemory>) -> Seq<EpisodeView> {
    v.map_values(|e: EpisodicMemory| e@)
}

/// The views of borrowed episodes.
pub open spec fn episode_refs_view(v: Seq<&EpisodicMemory>) -> Seq<EpisodeView> {
    v.map_values(|e: &EpisodicMemory| e@)
}

/// The views of decisions.
pub open spec fn decisions_view(v: Seq<DecisionMemory>) -> Seq<DecisionView> {
    v.map_values(|d: DecisionMemory| d@)
}

/// The views of borrowed decisions.
pub open spec fn decision_refs_view(v: Seq<&DecisionMemory>) -> Seq<DecisionView> {
    v.map_values(|d: &DecisionMemory| d@)
}

/// Ranking keys that put the newest episode first.
pub open spec fn episode_age_keys(es: Seq<EpisodeView>) -> Seq<(i128, i128)> {
    es.map_values(|e: EpisodeView| (e.created_at as i128, 0i128))
}

/// Ranking keys that put the newest decision first.
pub open spec fn decision_age_keys(ds: Seq<DecisionView>) -> Seq<(i128, i128)> {
    ds.map_values(|d: DecisionView| (d.created_at as i128, 0i128))
}

/// The text a decision is searched by: change, rationale and alternatives.
pub open spec fn decision_haystack(d: DecisionView) -> Seq<char> {
    d.change + seq![' '] + d.rationale + seq![' '] + join(d.alternatives, seq![' '])
}

/// How many query terms (counted with repetition) occur among the terms of
/// the decision's text.
pub open spec fn decision_score(d: DecisionView, terms: Seq<Seq<char>>) -> nat {
    terms.filter(|t: Seq<char>| tokens(decision_haystack(d)).contains(t)).len()
}

/// The decisions that some query term matches, in store order.
pub open spec fn matching_decisions(ds: Seq<DecisionView>, terms: Seq<Seq<char>>) -> Seq<DecisionView> {
    ds.filter(|d: DecisionView| decision_score(d, terms) > 0)
}

/// Ranking keys for decision search: score, then recency.
pub open spec fn decision_search_keys(ds: Seq<DecisionView>, terms: Seq<Seq<char>>) -> Seq<(i128, i128)> {
    ds.map_values(|d: DecisionView| (decision_score(d, terms) as i128, d.created_at as i128))
}

/// What a memory store holds.
pub struct StoreView {
    pub episodes: Seq<EpisodeView>,
    pub decisions: Seq<DecisionView>,
}

/// In-memory durable-agent memory store.
#[derive(Debug)]
pub struct AgentMemoryStore {
    episodes: Vec<EpisodicMemory>,
    decisions: Vec<DecisionMemory>,
}

impl View for AgentMemoryStore {
    type V = StoreView;

    closed spec fn view(&self) -> StoreView {
        StoreView {
            episodes: episodes_view(self.episodes@),
            decisions: decisions_view(self.decisions@),
        }
    }
}

impl AgentMemoryStore {
    /// No two decisions share an id.
    pub open spec fn wf(&self) -> bool {
        forall|i: int, j: int|
            0 <= i < j < self@.decisions.len() ==> (#[trigger] self@.decisions[i]).id != (
            #[trigger] self@.decisions[j]).id
    }

    /// An empty store.
    pub fn new() -> (r: Self)
        ensures
            r.wf(),
            r@.episodes.len() == 0,
            r@.decisions.len() == 0,
    {
        AgentMemoryStore { episodes: Vec::new(), decisions: Vec::new() }
    }

    /// Records a prior run.
    pub fn record_episode(&mut self, memory: EpisodicMemory)
        requires
            old(self).wf(),
        ensures
            final(self).wf(),
            final(self)@.episodes == old(self)@.episodes.push(memory@),
            final(self)@.decisions == old(self)@.decisions,
    {
        let ghost before = self.episodes@;
        self.episodes.push(memory);
        assert(episodes_view(self.episodes@) =~= episodes_view(before).push(memory@));
        assert(self@.decisions == old(self)@.decisions);
    }

    /// Records a decision, replacing any record with the same id; the new
    /// record comes last.
    pub fn record_decision(&mut self, memory: DecisionMemory)
        requires
            old(self).wf(),
        ensures
            final(self).wf(),
            final(self)@.episodes == old(self)@.episodes,
            final(self)@.decisions == old(self)@.decisions.filter(|d: DecisionView| d.id != memory@.id).push(
                memory@,
            ),
    {
        let ghost old_ds = self@.decisions;
        let ghost pred = |d: DecisionView| d.id != memory@.id;
        let pos = self.decision_position(memory.id.as_str());
        let found = pos.is_some();
        let i: usize = match pos {
            Some(p) => p,
            None => 0,
        };
        if found {
            let _ = self.decisions.remove(i);
            proof {
                assert forall|k: int| 0 <= k < old_ds.len() && k != i implies pred(#[trigger] old_ds[k]) by {
                    if k > i {
                        assert(old_ds[i as int].id != old_ds[k].id);
                    }
                }
                lemma_filter_drops_one(old_ds, pred, i as int);
                assert(self@.decisions =~= old_ds.remove(i as int));
            }
        } else {
            proof {
                lemma_filter_keeps_all(old_ds, pred);
            }
        }
        let ghost mid = self.decisions@;
        self.decisions.push(memory);
        proof {
            assert(decisions_view(self.decisions@) =~= decisions_view(mid).push(memory@));
            let w = old_ds.filter(pred);
            assert forall|k: int| 0 <= k < w.len() implies (#[trigger] w[k]).id != memory@.id by {
                old_ds.lemma_filter_pred(pred, k);
            }
            assert forall|x: int, y: int| 0 <= x < y < self@.decisions.len() implies (
            #[trigger] self@.decisions[x]).id != (#[trigger] self@.decisions[y]).id by {
                if y < self@.decisions.len() - 1 {
                    if found {
                        let ox = if x < i { x } else { x + 1 };
                        let oy = if y < i { y } else { y + 1 };
                        assert(self@.decisions[x] == old_ds[ox] && self@.decisions[y] == old_ds[oy]);
                    } else {
                        assert(self@.decisions[x] == old_ds[x] && self@.decisions[y] == old_ds[y]);
                    }
                } else {
                    assert(self@.decisions[x] == w[x]);
                }
            }
        }
    }

    fn decision_position(&self, id: &str) -> (r: Option<usize>)
        ensures
            match r {
                Some(p) => p < self@.decisions.len() && self@.decisions[p as int].id == id@ && forall|k: int|
                    0 <= k < p ==> (#[trigger] self@.decisions[k]).id != id@,
                None => forall|k: int| 0 <= k < self@.decisions.len() ==> (#[trigger] self@.decisions[k]).id != id@,
            },
    {
        let mut i: usize = 0;
        while i < self.decisions.len()
            invariant
                i <= self.decisions@.len(),
                forall|k: int| 0 <= k < i ==> (#[trigger] self@.decisions[k]).id != id@,
            decreases self.decisions@.len() - i,
        {
            if str_eq(self.decisions[i].id.as_str(), id) {
                return Some(i);
            }
            i += 1;
        }
        None
    }

    /// The episodes of a task, newest first; equally old ones in the order
    /// they were recorded.
    pub fn episodes_for_task(&self, task_id: &str) -> (r: Vec<&EpisodicMemory>)
        ensures
            ranked_prefix(
                episode_refs_view(r@),
                self@.episodes.filter(of_task(task_id@)),
                episode_age_keys(self@.episodes.filter(of_task(task_id@))),
                self@.episodes.len(),
            ),
    {
        self.select_episodes(task_id, false)
    }

    /// The failed or blocked runs of a task, newest first.
    pub fn failed_attempts_for_task(&self, task_id: &str) -> (r: Vec<&EpisodicMemory>)
        ensures
            ranked_prefix(
                episode_refs_view(r@),
                self@.episodes.filter(setbacks_of_task(task_id@)),
                episode_age_keys(self@.episodes.filter(setbacks_of_task(task_id@))),
                self@.episodes.len(),
            ),
    {
        self.select_episodes(task_id, true)
    }

    fn select_episodes(&self, task_id: &str, setbacks_only: bool) -> (r: Vec<&EpisodicMemory>)
        ensures
            ranked_prefix(
                episode_refs_view(r@),
                self@.episodes.filter(episode_pick(task_id@, setbacks_only)),
                episode_age_keys(self@.episodes.filter(episode_pick(task_id@, setbacks_only))),
                self@.episodes.len(),
            ),
    {
        let ghost es = self@.episodes;
        let ghost pred = episode_pick(task_id@, setbacks_only);
        let mut sel: Vec<&EpisodicMemory> = Vec::new();
        let mut keys: Vec<(i128, i128)> = Vec::new();
        let mut i: usize = 0;
        while i < self.episodes.len()
            invariant
                i <= es.len(),
                es == self@.episodes,
                es.len() == self.episodes@.len(),
                pred == episode_pick(task_id@, setbacks_only),
                episode_refs_view(sel@) == es.take(i as int).filter(pred),
                keys@ == episode_age_keys(episode_refs_view(sel@)),
            decreases es.len() - i,
        {
            let e = &self.episodes[i];
            proof {
                assert(e@ == es[i as int]);
                assert(es.take(i + 1) == es.take(i as int).push(e@));
                es.take(i as int).lemma_filter_push(e@, pred);
            }
            let keep = str_eq(e.task_id.as_str(), task_id) && (!setbacks_only
                || e.outcome == RunOutcome::Failure || e.outcome == RunOutcome::Blocked);
            if keep {
                let ghost before = sel@;
                sel.push(e);
                keys.push((e.created_at as i128, 0i128));
                assert(episode_refs_view(sel@) =~= episode_refs_view(before).push(e@));
                assert(keys@ =~= episode_age_keys(episode_refs_view(sel@)));
            }
            i += 1;
        }
        assert(es.take(es.len() as int) == es);
        let order = rank_order(&keys);
        let mut r: Vec<&EpisodicMemory> = Vec::new();
        let mut k: usize = 0;
        while k < order.len()
            invariant
                k <= order@.len(),
                is_rank_order(keys@, order@),
                keys@.len() == sel@.len(),
                r@.len() == k,
                forall|x: int| 0 <= x < k ==> #[trigger] r@[x] == sel@[order@[x] as int],
            decreases order@.len() - k,
        {
            r.push(sel[order[k]]);
            k += 1;
        }
        proof {
            let rv = episode_refs_view(r@);
            let sv = episode_refs_view(sel@);
            assert forall|x: int| 0 <= x < rv.len() implies #[trigger] rv[x] == sv[order@[x] as int] by {
                assert(r@[x] == sel@[order@[x] as int]);
            }
            es.filter(pred).lemma_filter_len(pred);
            es.lemma_filter_len(pred);
        }
        r
    }

    /// The decisions for a repository, newest first; equally old ones in the
    /// order they were recorded.
    pub fn decisions_for_repo(&self, repo: &str) -> (r: Vec<&DecisionMemory>)
        ensures
            ranked_prefix(
                decision_refs_view(r@),
                self@.decisions.filter(of_repo(repo@)),
                decision_age_keys(self@.decisions.filter(of_repo(repo@))),
                self@.decisions.len(),
            ),
    {
        let ghost ds = self@.decisions;
        let ghost pred = of_repo(repo@);
        let mut sel: Vec<&DecisionMemory> = Vec::new();
        let mut keys: Vec<(i128, i128)> = Vec::new();
        let mut i: usize = 0;
        while i < self.decisions.len()
            invariant
                i <= ds.len(),
                ds == self@.decisions,
                ds.len() == self.decisions@.len(),
                pred == of_repo(repo@),
                decision_refs_view(sel@) == ds.take(i as int).filter(pred),
                keys@ == decision_age_keys(decision_refs_view(sel@)),
            decreases ds.len() - i,
        {
            let d = &self.decisions[i];
            proof {
                assert(d@ == ds[i as int]);
                assert(ds.take(i + 1) == ds.take(i as int).push(d@));
                ds.take(i as int).lemma_filter_push(d@, pred);
            }
            if str_eq(d.repo.as_str(), repo) {
                let ghost before = sel@;
                sel.push(d);
                keys.push((d.created_at as i128, 0i128));
                assert(decision_refs_view(sel@) =~= decision_refs_view(before).push(d@));
                assert(keys@ =~= decision_age_keys(decision_refs_view(sel@)));
            }
            i += 1;
        }
        assert(ds.take(ds.len() as int) == ds);
        let order = rank_order(&keys);
        let mut r: Vec<&DecisionMemory> = Vec::new();
        let mut k: usize = 0;
        while k < order.len()
            invariant
                k <= order@.len(),
                is_rank_order(keys@, order@),
                keys@.len() == sel@.len(),
                r@.len() == k,
                forall|x: int| 0 <= x < k ==> #[trigger] r@[x] == sel@[order@[x] as int],
            decreases order@.len() - k,
        {
            r.push(sel[order[k]]);
            k += 1;
        }
        proof {
            let rv = decision_refs_view(r@);
            let sv = decision_refs_view(sel@);
            assert forall|x: int| 0 <= x < rv.len() implies #[trigger] rv[x] == sv[order@[x] as int] by {
                assert(r@[x] == sel@[order@[x] as int]);
            }
            ds.lemma_filter_len(pred);
        }
        r
    }

    /// Decisions matching a keyword query, best first: ranked by how many
    /// query terms occur in the change, rationale and alternatives, then by
    /// recency, ties in recorded order; at most `limit`. A zero limit or a
    /// query without terms finds nothing.
    pub fn query_decisions(&self, query: &str, limit: usize) -> (r: Vec<&DecisionMemory>)
        ensures
            tokens(query@).len() == 0 || limit == 0 ==> r@.len() == 0,
            tokens(query@).len() > 0 && limit > 0 ==> ranked_prefix(
                decision_refs_view(r@),
                matching_decisions(self@.decisions, tokens(query@)),
                decision_search_keys(matching_decisions(self@.decisions, tokens(query@)), tokens(query@)),
                limit as nat,
            ),
    {
        let terms = tokenize(query);
        if terms.len() == 0 || limit == 0 {
            return Vec::new();
        }
        let ghost tv = strings_view(terms@);
        let ghost ds = self@.decisions;
        let ghost pred = |d: DecisionView| decision_score(d, tv) > 0;
        let mut sel: Vec<&DecisionMemory> = Vec::new();
        let mut keys: Vec<(i128, i128)> = Vec::new();
        let mut i: usize = 0;
        while i < self.decisions.len()
            invariant
                i <= ds.len(),
                ds == self@.decisions,
                ds.len() == self.decisions@.len(),
                tv == strings_view(terms@),
                pred == (|d: DecisionView| decision_score(d, tv) > 0),
                decision_refs_view(sel@) == ds.take(i as int).filter(pred),
                keys@ == decision_search_keys(decision_refs_view(sel@), tv),
            decreases ds.len() - i,
        {
            let d = &self.decisions[i];
            proof {
                assert(d@ == ds[i as int]);
                assert(ds.take(i + 1) == ds.take(i as int).push(d@));
                ds.take(i as int).lemma_filter_push(d@, pred);
            }
            let score = decision_score_exec(d, &terms);
            if score > 0 {
                let ghost before = sel@;
                sel.push(d);
                keys.push((score as i128, d.created_at as i128));
                assert(decision_refs_view(sel@) =~= decision_refs_view(before).push(d@));
                assert(keys@ =~= decision_search_keys(decision_refs_view(sel@), tv));
            }
            i += 1;
        }
        assert(ds.take(ds.len() as int) == ds);
        let order = rank_order(&keys);
        let keep = if limit < order.len() { limit } else { order.len() };
        let mut r: Vec<&DecisionMemory> = Vec::new();
        let mut k: usize = 0;
        while k < keep
            invariant
                k <= keep,
                keep <= order@.len(),
                is_rank_order(keys@, order@),
                keys@.len() == sel@.len(),
                r@.len() == k,
                forall|x: int| 0 <= x < k ==> #[trigger] r@[x] == sel@[order@[x] as int],
            decreases keep - k,
        {
            r.push(sel[order[k]]);
            k += 1;
        }
        proof {
            let rv = decision_refs_view(r@);
            let sv = decision_refs_view(sel@);
            assert forall|x: int| 0 <= x < rv.len() implies #[trigger] rv[x] == sv[order@[x] as int] by {
                assert(r@[x] == sel@[order@[x] as int]);
            }
        }
        r
    }
}

/// How many query terms occur among the terms of the decision's text.
fn decision_score_exec(d: &DecisionMemory, terms: &Vec<String>) -> (r: usize)
    ensures
        r == decision_score(d@, strings_view(terms@)),
{
    let alts = join_strings(&d.alternatives, " ");
    let a = concat_strings(d.change.as_str(), " ");
    let b = concat_strings(a.as_str(), d.rationale.as_str());
    let c = concat_strings(b.as_str(), " ");
    let hay = concat_strings(c.as_str(), alts.as_str());
    proof {
        reveal_strlit(" ");
        assert(" "@ =~= seq![' ']);
    }
    assert(hay@ == decision_haystack(d@));
    let hay_terms = tokenize(hay.as_str());
    let ghost tv = strings_view(terms@);
    let ghost hv = strings_view(hay_terms@);
    let ghost pred = |t: Seq<char>| tokens(decision_haystack(d@)).contains(t);
    let mut n: usize = 0;
    let mut i: usize = 0;
    while i < terms.len()
        invariant
            i <= terms@.len(),
            tv == strings_view(terms@),
            hv == strings_view(hay_terms@),
            hv == tokens(decision_haystack(d@)),
            pred == (|t: Seq<char>| tokens(decision_haystack(d@)).contains(t)),
            n == tv.take(i as int).filter(pred).len(),
            n <= i,
        decreases terms@.len() - i,
    {
        proof {
            assert(tv.take(i + 1) == tv.take(i as int).push(tv[i as int]));
            tv.take(i as int).lemma_filter_push(tv[i as int], pred);
        }
        assert(terms@[i as int]@ == tv[i as int]);
        if contains_term(&hay_terms, &terms[i]) {
            n += 1;
        }
        i += 1;
    }
    assert(tv.take(terms@.len() as int) == tv);
    n
}

fn contains_term(ts: &Vec<String>, t: &String) -> (r: bool)
    ensures
        r == strings_view(ts@).contains(t@),
{
    let mut i: usize = 0;
    while i < ts.len()
        invariant
            i <= ts@.len(),
            forall|k: int| 0 <= k < i ==> ts@[k]@ != t@,
        decreases ts@.len() - i,
    {
        if str_eq(ts[i].as_str(), t.as_str()) {
            assert(strings_view(ts@)[i as int] == t@);
            return true;
        }
        i += 1;
    }
    proof {
        if strings_view(ts@).contains(t@) {
            let k = choose|k: int| 0 <= k < strings_view(ts@).len() && strings_view(ts@)[k] == t@;
            assert(ts@[k]@ == t@);
        }
    }
    false
}

} // verus!
