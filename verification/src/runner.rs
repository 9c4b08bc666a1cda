//! Runner configuration and the decisions of the run loop: which node runs
//! next, when the run is done, and when it has run too long.

use crate::graph::END;
use crate::text::{copy_string, copy_strings, owned, str_eq, strings_view};
use vstd::prelude::*;

verus! {

broadcast use vstd::string::group_string_axioms;

/// Configuration for graph execution.
#[derive(Clone, Debug)]
pub struct RunnerConfig {
    /// Maximum number of node executions before the run fails.
    pub max_iterations: u32,
    /// Whether to log verbosely.
    pub verbose: bool,
    /// Tags for tracing.
    pub tags: Vec<String>,
}

impl Default for RunnerConfig {
    /// A hundred iterations, quiet, no tags.
    fn default() -> (r: Self)
        ensures
            r.max_iterations == 100,
            !r.verbose,
            r.tags@.len() == 0,
    {
        RunnerConfig { max_iterations: 100, verbose: false, tags: Vec::new() }
    }
}

impl RunnerConfig {
    /// The default configuration.
    pub fn new() -> (r: Self)
        ensures
            r.max_iterations == 100,
            !r.verbose,
            r.tags@.len() == 0,
    {
        RunnerConfig::default()
    }

    /// The configuration with its iteration limit set.
    pub fn max_iterations(self, max: u32) -> (r: Self)
        ensures
            r.max_iterations == max,
            r.verbose == self.verbose,
            r.tags == self.tags,
    {
        RunnerConfig { max_iterations: max, ..self }
    }

    /// The same as `max_iterations`.
    pub fn recursion_limit(self, limit: u32) -> (r: Self)
        ensures
            r.max_iterations == limit,
            r.verbose == self.verbose,
            r.tags == self.tags,
    {
        self.max_iterations(limit)
    }

    /// The configuration with verbose logging set.
    pub fn verbose(self, verbose: bool) -> (r: Self)
        ensures
            r.max_iterations == self.max_iterations,
            r.verbose == verbose,
            r.tags == self.tags,
    {
        RunnerConfig { verbose, ..self }
    }

    /// The configuration with one more tag.
    pub fn tag(self, tag: &str) -> (r: Self)
        ensures
            r.max_iterations == self.max_iterations,
            r.verbose == self.verbose,
            strings_view(r.tags@) == strings_view(self.tags@).push(tag@),
    {
        let mut c = self;
        let t = owned(tag);
        let ghost before = c.tags@;
        c.tags.push(t);
        assert(strings_view(c.tags@) == strings_view(before).push(t@));
        c
    }

    /// The configuration with more tags, in order.
    pub fn tags(self, tags: &Vec<String>) -> (r: Self)
        ensures
            r.max_iterations == self.max_iterations,
            r.verbose == self.verbose,
            strings_view(r.tags@) == strings_view(self.tags@) + strings_view(tags@),
    {
        let mut c = self;
        let ghost start = strings_view(c.tags@);
        let mut i: usize = 0;
        while i < tags.len()
            invariant
                i <= tags@.len(),
                c.max_iterations == self.max_iterations,
                c.verbose == self.verbose,
                strings_view(c.tags@) == start + strings_view(tags@).take(i as int),
            decreases tags@.len() - i,
        {
            let t = copy_string(&tags[i]);
            let ghost before = c.tags@;
            c.tags.push(t);
            proof {
                assert(strings_view(c.tags@) == strings_view(before).push(t@));
                assert(strings_view(tags@).take(i + 1) == strings_view(tags@).take(i as int).push(tags@[i as int]@));
            }
            i += 1;
        }
        assert(strings_view(tags@).take(tags@.len() as int) == strings_view(tags@));
        c
    }
}

/// Where a run stands: the node to run next and how many have run.
#[derive(Clone, Debug)]
pub struct RunProgress {
    /// The node to run next, or the end marker.
    pub current: String,
    /// Nodes executed so far.
    pub iterations: u32,
}

/// What the run loop does next.
#[derive(Clone, Debug)]
pub enum RunAction {
    /// Execute this node.
    Execute(String),
    /// The end was reached: return the state.
    Done,
    /// The iteration limit was reached: fail with it.
    RecursionLimit(u32),
}

/// The action for a run's progress: stop at the end marker, fail when the
/// limit of executed nodes is reached, else execute the current node. A run
/// that reaches the end after exactly `max` executions succeeds.
pub open spec fn run_action(p: RunProgress, max: u32) -> RunAction {
    if p.current@ == END@ {
        RunAction::Done
    } else if p.iterations >= max {
        RunAction::RecursionLimit(max)
    } else {
        RunAction::Execute(p.current)
    }
}

impl RunProgress {
    /// A run about to start at the entry node.
    pub fn start(entry: &str) -> (r: Self)
        ensures
            r.current@ == entry@,
            r.iterations == 0,
    {
        RunProgress { current: owned(entry), iterations: 0 }
    }

    /// What the loop does next when at most `max` nodes may run.
    pub fn next_action_within(&self, max: u32) -> (r: RunAction)
        ensures
            match (r, run_action(*self, max)) {
                (RunAction::Execute(a), RunAction::Execute(b)) => a@ == b@,
                (RunAction::Done, RunAction::Done) => true,
                (RunAction::RecursionLimit(a), RunAction::RecursionLimit(b)) => a == b,
                _ => false,
            },
    {
        if str_eq(self.current.as_str(), END) {
            RunAction::Done
        } else if self.iterations >= max {
            RunAction::RecursionLimit(max)
        } else {
            RunAction::Execute(copy_string(&self.current))
        }
    }

    /// What the loop does next under this configuration.
    pub fn next_action(&self, config: &RunnerConfig) -> (r: RunAction)
        ensures
            match (r, run_action(*self, config.max_iterations)) {
                (RunAction::Execute(a), RunAction::Execute(b)) => a@ == b@,
                (RunAction::Done, RunAction::Done) => true,
                (RunAction::RecursionLimit(a), RunAction::RecursionLimit(b)) => a == b,
                _ => false,
            },
    {
        self.next_action_within(config.max_iterations)
    }

    /// Records an executed node and the node chosen next.
    pub fn advance(&mut self, next: &str)
        requires
            old(self).iterations < u32::MAX,
        ensures
            final(self).iterations == old(self).iterations + 1,
            final(self).current@ == next@,
    {
        self.iterations = self.iterations + 1;
        self.current = owned(next);
    }
}

/// Each step of a run executes a node only below the limit, so a run
/// executes at most `max` nodes: a trace of progress where each step
/// advances from an `Execute` action is at most `max + 1` long.
pub proof fn lemma_run_bounded(trace: Seq<RunProgress>, max: u32)
    requires
        trace.len() > 0,
        trace[0].iterations == 0,
        forall|k: int|
            0 <= k < trace.len() - 1 ==> #[trigger] run_action(trace[k], max) is Execute && trace[k + 1].iterations
                == trace[k].iterations + 1,
    ensures
        trace.len() <= max + 1,
        forall|k: int| 0 <= k < trace.len() ==> (#[trigger] trace[k]).iterations == k,
    decreases trace.len(),
{
    if trace.len() > 1 {
        let init = trace.drop_last();
        assert forall|k: int| 0 <= k < init.len() - 1 implies #[trigger] run_action(init[k], max) is Execute
            && init[k + 1].iterations == init[k].iterations + 1 by {
            assert(init[k] == trace[k] && init[k + 1] == trace[k + 1]);
        }
        lemma_run_bounded(init, max);
        let n = trace.len() - 2;
        assert(init[n] == trace[n]);
        assert(run_action(trace[n], max) is Execute);
        assert forall|k: int| 0 <= k < trace.len() implies (#[trigger] trace[k]).iterations == k by {
            if k < init.len() {
                assert(init[k] == trace[k]);
            }
        }
    }
}


/// How a run ends: after `n` executed nodes (the trace's length less one,
/// never more than `max`), the run is done exactly when it stands at the
/// end marker, whatever `n` is; it fails with the limit only when it has
/// executed exactly `max` nodes without reaching the end.
pub proof fn lemma_run_outcome(trace: Seq<RunProgress>, max: u32)
    requires
        trace.len() > 0,
        trace[0].iterations == 0,
        forall|k: int|
            0 <= k < trace.len() - 1 ==> #[trigger] run_action(trace[k], max) is Execute && trace[k + 1].iterations
                == trace[k].iterations + 1,
    ensures
        trace.len() - 1 <= max,
        trace.last().iterations == trace.len() - 1,
        trace.last().current@ == END@ ==> run_action(trace.last(), max) is Done,
        run_action(trace.last(), max) is RecursionLimit ==> {
            &&& trace.len() - 1 == max
            &&& trace.last().current@ != END@
            &&& run_action(trace.last(), max) == RunAction::RecursionLimit(max)
        },
{
    lemma_run_bounded(trace, max);
    assert(trace.last() == trace[trace.len() - 1]);
}

} // verus!
