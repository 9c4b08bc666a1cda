//! Status counts and duration sums of a plan, from which progress,
//! confidence and completion estimates are derived.

use crate::planning::plan::{EpicPlan, Task, TaskStatus};
use vstd::prelude::*;

verus! {

/// The number of tasks with the given status.
pub open spec fn status_count(ts: Seq<Task>, s: TaskStatus) -> nat {
    ts.filter(|t: Task| t.status == s).len()
}

/// The whole seconds a completed task ran, when it recorded both its start
/// and its end and ran at least a second.
pub open spec fn measured_secs(t: Task) -> Option<int> {
    if t.status == TaskStatus::Completed {
        match (t.started_at, t.completed_at) {
            (Some(start), Some(end)) => if (end - start) / 1000 > 0 {
                Some((end - start) / 1000)
            } else {
                None
            },
            _ => None,
        }
    } else {
        None
    }
}

/// The sum of the measured seconds of the tasks.
pub open spec fn measured_total(ts: Seq<Task>) -> int
    decreases ts.len(),
{
    if ts.len() == 0 {
        0
    } else {
        measured_total(ts.drop_last()) + match measured_secs(ts.last()) {
            Some(d) => d,
            None => 0,
        }
    }
}

/// The number of tasks with measured seconds.
pub open spec fn measured_tasks(ts: Seq<Task>) -> nat {
    ts.filter(|t: Task| measured_secs(t) is Some).len()
}

/// The sum of the estimated durations of the tasks that have one.
pub open spec fn estimate_total(ts: Seq<Task>) -> int
    decreases ts.len(),
{
    if ts.len() == 0 {
        0
    } else {
        estimate_total(ts.drop_last()) + match ts.last().estimated_duration {
            Some(e) => e as int,
            None => 0,
        }
    }
}

/// The number of tasks with an estimated duration.
pub open spec fn estimated_tasks(ts: Seq<Task>) -> nat {
    ts.filter(|t: Task| t.estimated_duration is Some).len()
}

/// Status counts and duration sums of a plan.
#[derive(Clone, Copy, Debug, PartialEq, Eq, Structural)]
pub struct PlanTally {
    /// All tasks.
    pub total: usize,
    /// Completed tasks.
    pub completed: usize,
    /// Running tasks.
    pub running: usize,
    /// Failed tasks.
    pub failed: usize,
    /// Blocked tasks.
    pub blocked: usize,
    /// Pending tasks.
    pub pending: usize,
    /// Sum of the whole seconds completed tasks ran, where at least one.
    pub measured_secs: i128,
    /// Number of completed tasks with measured seconds.
    pub measured_count: usize,
    /// Sum of the estimated durations, in seconds.
    pub estimate_secs: u128,
    /// Number of tasks with an estimated duration.
    pub estimate_count: usize,
}

proof fn lemma_measured_bound(ts: Seq<Task>)
    ensures
        0 <= measured_total(ts) <= ts.len() * 0x100_0000_0000_0000,
        0 <= estimate_total(ts) <= ts.len() * 0x1_0000_0000_0000_0000,
    decreases ts.len(),
{
    if ts.len() > 0 {
        lemma_measured_bound(ts.drop_last());
    }
}

impl PlanTally {
    /// The counts and sums for a plan.
    pub fn of(plan: &EpicPlan) -> (r: Self)
        ensures
            r.total == plan.tasks@.len(),
            r.completed == status_count(plan.tasks@, TaskStatus::Completed),
            r.running == status_count(plan.tasks@, TaskStatus::Running),
            r.failed == status_count(plan.tasks@, TaskStatus::Failed),
            r.blocked == status_count(plan.tasks@, TaskStatus::Blocked),
            r.pending == status_count(plan.tasks@, TaskStatus::Pending),
            r.measured_secs == measured_total(plan.tasks@),
            r.measured_count == measured_tasks(plan.tasks@),
            r.estimate_secs == estimate_total(plan.tasks@),
            r.estimate_count == estimated_tasks(plan.tasks@),
    {
        let ghost ts = plan.tasks@;
        let mut r = PlanTally {
            total: plan.tasks.len(),
            completed: 0,
            running: 0,
            failed: 0,
            blocked: 0,
            pending: 0,
            measured_secs: 0,
            measured_count: 0,
            estimate_secs: 0,
            estimate_count: 0,
        };
        let mut i: usize = 0;
        while i < plan.tasks.len()
            invariant
                i <= ts.len(),
                ts == plan.tasks@,
                r.total == ts.len(),
                r.completed == status_count(ts.take(i as int), TaskStatus::Completed),
                r.running == status_count(ts.take(i as int), TaskStatus::Running),
                r.failed == status_count(ts.take(i as int), TaskStatus::Failed),
                r.blocked == status_count(ts.take(i as int), TaskStatus::Blocked),
                r.pending == status_count(ts.take(i as int), TaskStatus::Pending),
                r.measured_secs == measured_total(ts.take(i as int)),
                r.measured_count == measured_tasks(ts.take(i as int)),
                r.estimate_secs == estimate_total(ts.take(i as int)),
                r.estimate_count == estimated_tasks(ts.take(i as int)),
                r.completed + r.running + r.failed + r.blocked + r.pending == i,
                r.measured_count <= i,
                r.estimate_count <= i,
                ts.len() <= usize::MAX,
            decreases ts.len() - i,
        {
            let t = &plan.tasks[i];
            let ghost pre = ts.take(i as int);
            proof {
                assert(ts.take(i + 1) == pre.push(*t));
                assert(ts.take(i + 1).drop_last() == pre);
                pre.lemma_filter_push(*t, |x: Task| x.status == TaskStatus::Completed);
                pre.lemma_filter_push(*t, |x: Task| x.status == TaskStatus::Running);
                pre.lemma_filter_push(*t, |x: Task| x.status == TaskStatus::Failed);
                pre.lemma_filter_push(*t, |x: Task| x.status == TaskStatus::Blocked);
                pre.lemma_filter_push(*t, |x: Task| x.status == TaskStatus::Pending);
                pre.lemma_filter_push(*t, |x: Task| measured_secs(x) is Some);
                pre.lemma_filter_push(*t, |x: Task| x.estimated_duration is Some);
                lemma_measured_bound(pre);
            }
            match t.status {
                TaskStatus::Completed => {
                    r.completed = r.completed + 1;
                },
                TaskStatus::Running => {
                    r.running = r.running + 1;
                },
                TaskStatus::Failed => {
                    r.failed = r.failed + 1;
                },
                TaskStatus::Blocked => {
                    r.blocked = r.blocked + 1;
                },
                TaskStatus::Pending => {
                    r.pending = r.pending + 1;
                },
            }
            if t.status == TaskStatus::Completed {
                match (t.started_at, t.completed_at) {
                    (Some(start), Some(end)) => {
                        let diff: i128 = (end as i128) - (start as i128);
                        if diff >= 1000 {
                            assert(diff / 1000 > 0);
                            assert(diff / 1000 <= 0x100_0000_0000_0000);
                            assert(r.measured_secs <= i * 0x100_0000_0000_0000);
                            r.measured_secs = r.measured_secs + diff / 1000;
                            r.measured_count = r.measured_count + 1;
                        } else {
                            assert(diff / 1000 <= 0);
                        }
                    },
                    _ => {},
                }
            }
            match t.estimated_duration {
                Some(e) => {
                    r.estimate_secs = r.estimate_secs + (e as u128);
                    r.estimate_count = r.estimate_count + 1;
                },
                None => {},
            }
            i += 1;
        }
        assert(ts.take(ts.len() as int) == ts);
        r
    }
}

} // verus!
