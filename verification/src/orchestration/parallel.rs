//! How the results of parallel subgraphs are collected: which handles are
//! awaited, in order, under each join strategy.

use vstd::prelude::*;

verus! {

/// How to join the results of parallel subgraphs.
#[derive(Debug, Clone, Copy, PartialEq, Eq, Structural)]
pub enum JoinStrategy {
    /// Wait for all subgraphs to complete.
    WaitAll,
    /// Return as soon as the first subgraph completes.
    WaitFirst,
    /// Stop at the first failure.
    FailFast,
    /// Stop once this many subgraphs have completed successfully.
    WaitN(usize),
}

impl Default for JoinStrategy {
    /// Waiting for all.
    fn default() -> (r: Self)
        ensures
            r == JoinStrategy::WaitAll,
    {
        JoinStrategy::WaitAll
    }
}

/// How far an ordered collection of subgraph results has got.
#[derive(Debug, Clone, Copy)]
pub struct JoinProgress {
    /// The strategy.
    pub strategy: JoinStrategy,
    /// Subgraphs in all.
    pub total: usize,
    /// Results collected so far, in subgraph order.
    pub collected: usize,
    /// Of those, how many completed successfully.
    pub completed: usize,
    /// Whether the last collected result was a failure.
    pub last_failed: bool,
}

/// What the collector does next.
#[derive(Debug, Clone, Copy, PartialEq, Eq, Structural)]
pub enum JoinStep {
    /// Await the subgraph at this position and record its result.
    Await(usize),
    /// Race all subgraphs and keep the first to finish.
    Race,
    /// Stop: the collected results are the answer.
    Done,
}

/// The step the collector takes from a given point.
pub open spec fn join_step(p: JoinProgress) -> JoinStep {
    match p.strategy {
        JoinStrategy::WaitFirst => if p.total == 0 || p.collected > 0 {
            JoinStep::Done
        } else {
            JoinStep::Race
        },
        JoinStrategy::WaitAll => if p.collected < p.total {
            JoinStep::Await(p.collected)
        } else {
            JoinStep::Done
        },
        JoinStrategy::FailFast => if p.collected < p.total && !p.last_failed {
            JoinStep::Await(p.collected)
        } else {
            JoinStep::Done
        },
        JoinStrategy::WaitN(n) => if p.collected < p.total && p.completed < n {
            JoinStep::Await(p.collected)
        } else {
            JoinStep::Done
        },
    }
}

impl JoinProgress {
    /// Sound bookkeeping: no more collected than there are, no more
    /// completed than collected.
    pub open spec fn wf(&self) -> bool {
        &&& self.completed <= self.collected <= self.total
        &&& (self.collected == 0 ==> !self.last_failed)
    }

    /// Nothing collected yet.
    pub fn start(strategy: JoinStrategy, total: usize) -> (r: Self)
        ensures
            r.wf(),
            r == (JoinProgress { strategy, total, collected: 0, completed: 0, last_failed: false }),
    {
        JoinProgress { strategy, total, collected: 0, completed: 0, last_failed: false }
    }

    /// The next step.
    pub fn next_step(&self) -> (r: JoinStep)
        requires
            self.wf(),
        ensures
            r == join_step(*self),
    {
        match self.strategy {
            JoinStrategy::WaitFirst => if self.total == 0 || self.collected > 0 {
                JoinStep::Done
            } else {
                JoinStep::Race
            },
            JoinStrategy::WaitAll => if self.collected < self.total {
                JoinStep::Await(self.collected)
            } else {
                JoinStep::Done
            },
            JoinStrategy::FailFast => if self.collected < self.total && !self.last_failed {
                JoinStep::Await(self.collected)
            } else {
                JoinStep::Done
            },
            JoinStrategy::WaitN(n) => if self.collected < self.total && self.completed < n {
                JoinStep::Await(self.collected)
            } else {
                JoinStep::Done
            },
        }
    }

    /// Records one more result: whether it completed, and whether it
    /// failed (a cancelled subgraph did neither).
    pub fn record(self, completed: bool, failed: bool) -> (r: Self)
        requires
            self.wf(),
            self.collected < self.total,
            !(completed && failed),
        ensures
            r.wf(),
            r.strategy == self.strategy,
            r.total == self.total,
            r.collected == self.collected + 1,
            r.completed == self.completed + if completed { 1int } else { 0int },
            r.last_failed == failed,
    {
        JoinProgress {
            collected: self.collected + 1,
            completed: if completed { self.completed + 1 } else { self.completed },
            last_failed: failed,
            ..self
        }
    }
}

/// Collecting ends: each await moves one result on, so at most `total`
/// awaits come before the collector is done.
pub proof fn lemma_join_terminates(p: JoinProgress)
    requires
        p.wf(),
    ensures
        join_step(p) matches JoinStep::Await(i) ==> i == p.collected && p.collected < p.total,
        p.collected == p.total ==> !(join_step(p) is Await),
{
}

} // verus!
