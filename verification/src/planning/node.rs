//! Planning and scheduling steps of an agent graph.

use crate::graph::{NodeOutput, OutputView};
use crate::planning::plan::{
    lemma_with_new_task, recovered_by, status_update, task_index, with_task, EpicPlan, Task, TaskStatus,
};
use crate::planning::scheduler::{
    has_dependency_cycle, priority_keys, ready_tasks, task_ids, Scheduler,
};
use crate::ranking::is_rank_order;
use crate::text::{copy_opt_string, copy_string, opt_view, owned, str_eq, strings_view};
use vstd::prelude::*;

verus! {

broadcast use vstd::string::group_string_axioms;

/// Goal used when the context records none.
pub const DEFAULT_GOAL: &'static str = "default goal";

/// Error when the context holds no plan.
pub const MISSING_PLAN: &'static str = "No 'epic_plan' found in context";

/// Error when the plan's dependencies contain a cycle.
pub const CYCLIC_PLAN: &'static str = "EpicPlan contains dependency cycles";

/// Decomposes the agent's goal into a plan.
#[derive(Clone, Debug)]
pub struct PlanningNode {
    id: String,
}

impl PlanningNode {
    /// A planning node.
    pub fn new(id: &str) -> (r: Self)
        ensures
            r.id()@ == id@,
    {
        PlanningNode { id: owned(id) }
    }

    /// The node id.
    pub closed spec fn id(&self) -> String {
        self.id
    }

    /// The node id.
    pub fn node_id(&self) -> (r: &str)
        ensures
            r@ == self.id()@,
    {
        self.id.as_str()
    }

    /// The decomposition used without a custom decomposer: `task1`
    /// (estimated ten seconds) and then `task2`, which depends on it
    /// (estimated twenty seconds).
    pub fn default_tasks() -> (r: Vec<Task>)
        ensures
            r@.len() == 2,
            r@[0].id@ == "task1"@,
            r@[0].name@ == "Task 1"@,
            r@[0].description@ == "First task in sequence"@,
            r@[0].dependencies@.len() == 0,
            r@[0].estimated_duration == Some(10u64),
            r@[0].status == TaskStatus::Pending,
            r@[1].id@ == "task2"@,
            r@[1].name@ == "Task 2"@,
            r@[1].description@ == "Second task dependent on Task 1"@,
            strings_view(r@[1].dependencies@) == seq!["task1"@],
            r@[1].estimated_duration == Some(20u64),
            r@[1].status == TaskStatus::Pending,
    {
        let t1 = Task::new("task1", "Task 1", "First task in sequence").with_estimate(10);
        let t2 = Task::new("task2", "Task 2", "Second task dependent on Task 1").depends_on("task1").with_estimate(20);
        assert(strings_view(t2.dependencies@) =~= seq!["task1"@]);
        vec![t1, t2]
    }

    /// The plan for a goal (the default goal when none is recorded): the
    /// given tasks added one by one, or the default decomposition.
    pub fn plan(&self, goal: Option<&str>, tasks: Option<Vec<Task>>) -> (r: EpicPlan)
        ensures
            r.goal@ == match goal {
                Some(g) => g@,
                None => DEFAULT_GOAL@,
            },
            tasks matches Some(ts) ==> r.tasks@ == with_tasks(Seq::empty(), ts@),
            tasks is None ==> r.tasks@.len() == 2 && r.tasks@[0].id@ == "task1"@ && r.tasks@[1].id@
                == "task2"@,
    {
        let mut plan = match goal {
            Some(g) => EpicPlan::new(g),
            None => EpicPlan::new(DEFAULT_GOAL),
        };
        let given = tasks.is_some();
        let mut tasks = match tasks {
            Some(t) => t,
            None => {
                let d = PlanningNode::default_tasks();
                proof {
                    reveal_strlit("task1");
                    reveal_strlit("task2");
                    assert(d@[0].id@[4] == '1' && d@[1].id@[4] == '2');
                    assert(d@[0].id@ != d@[1].id@);
                }
                d
            },
        };
        let ghost g = plan.goal;
        let ghost all = tasks@;
        assert(plan.tasks@ =~= Seq::<Task>::empty());
        while tasks.len() > 0
            invariant
                plan.goal == g,
                with_tasks(plan.tasks@, tasks@) == with_tasks(Seq::empty(), all),
            decreases tasks@.len(),
        {
            let ghost before = tasks@;
            let t = tasks.remove(0);
            assert(before.drop_first() == tasks@);
            plan.add_task(t);
        }
        proof {
            if !given {
                let t1 = all[0];
                let t2 = all[1];
                assert(all == seq![t1, t2]);
                assert(all.drop_first() =~= seq![t2]);
                assert(seq![t2].drop_first() =~= Seq::<Task>::empty());
                lemma_with_new_task(Seq::empty(), t1);
                assert(Seq::<Task>::empty().push(t1) =~= seq![t1]);
                lemma_with_new_task(seq![t1], t2);
                assert(seq![t1].push(t2) =~= seq![t1, t2]);
                assert(with_tasks(Seq::empty(), all) == with_tasks(seq![t1], seq![t2]));
                assert(with_tasks(seq![t1], seq![t2]) == with_tasks(seq![t1, t2], Seq::<Task>::empty()));
            }
            assert(with_tasks(plan.tasks@, tasks@) == plan.tasks@);
        }
        plan
    }
}

/// The tasks after each of `ts` is added in turn, in place of any with
/// its id.
pub open spec fn with_tasks(base: Seq<Task>, ts: Seq<Task>) -> Seq<Task>
    decreases ts.len(),
{
    if ts.len() == 0 {
        base
    } else {
        with_tasks(with_task(base, ts[0]), ts.drop_first())
    }
}

/// What a scheduling step decided.
#[derive(Debug)]
pub struct SchedulerStep {
    /// Where the graph goes next.
    pub output: NodeOutput,
    /// The task set running, when one was picked.
    pub current_task_id: Option<String>,
    /// Whether every task has completed.
    pub is_complete: bool,
    /// Failed tasks that recovery tasks were injected for, in plan order.
    pub injected: Vec<String>,
}

/// The two tasks hold the same values.
pub open spec fn same_task(a: Task, b: Task) -> bool {
    &&& a.id@ == b.id@
    &&& a.name@ == b.name@
    &&& a.description@ == b.description@
    &&& a.status == b.status
    &&& strings_view(a.dependencies@) == strings_view(b.dependencies@)
    &&& a.input@ == b.input@
    &&& opt_view(a.output) == opt_view(b.output)
    &&& opt_view(a.error) == opt_view(b.error)
    &&& opt_view(a.assigned_role) == opt_view(b.assigned_role)
    &&& a.estimated_duration == b.estimated_duration
    &&& a.started_at == b.started_at
    &&& a.completed_at == b.completed_at
}

/// The recovery task registered last for a failed id.
pub open spec fn registered_recovery(regs: Seq<(String, Task)>, id: Seq<char>) -> Option<Task>
    decreases regs.len(),
{
    if regs.len() == 0 {
        None
    } else if regs.last().0@ == id {
        Some(regs.last().1)
    } else {
        registered_recovery(regs.drop_last(), id)
    }
}

/// The ids of the failed tasks, in plan order.
pub open spec fn failed_ids(ts: Seq<Task>) -> Seq<Seq<char>> {
    task_ids(ts.filter(|t: Task| t.status == TaskStatus::Failed))
}

/// The failed ids with a registered recovery task, in order.
pub open spec fn recoverable(ids: Seq<Seq<char>>, regs: Seq<(String, Task)>) -> Seq<Seq<char>> {
    ids.filter(|x: Seq<char>| registered_recovery(regs, x) is Some)
}

/// `after` is `before` with one recovery per id of `ids`, in order, each a
/// copy of the recovery task registered for that id.
pub open spec fn recovered_in_order(
    before: Seq<Task>,
    after: Seq<Task>,
    ids: Seq<Seq<char>>,
    regs: Seq<(String, Task)>,
) -> bool {
    exists|plans: Seq<Seq<Task>>| #[trigger] recovery_chain(plans, before, after, ids, regs)
}

/// `plans` walks from `before` to `after`, one recovery per id.
pub open spec fn recovery_chain(
    plans: Seq<Seq<Task>>,
    before: Seq<Task>,
    after: Seq<Task>,
    ids: Seq<Seq<char>>,
    regs: Seq<(String, Task)>,
) -> bool {
    &&& plans.len() == ids.len() + 1
    &&& plans[0] == before
    &&& plans.last() == after
    &&& forall|m: int| 0 <= m < ids.len() ==> #[trigger] recovery_step(plans[m], plans[m + 1], ids[m], regs)
}

/// One recovery of the task `id` with a copy of its registered recovery
/// task; a plan without that task stays as it is.
pub open spec fn recovery_step(before: Seq<Task>, after: Seq<Task>, id: Seq<char>, regs: Seq<(String, Task)>) -> bool {
    match registered_recovery(regs, id) {
        Some(template) => if task_index(before, id) is None {
            after == before
        } else {
            exists|copy: Task| same_task(copy, template) && #[trigger] recovered_by(before, after, id, copy)
        },
        None => false,
    }
}

/// `x` is the ready id the scheduler ranks first.
pub open spec fn is_first_priority(ts: Seq<Task>, ready: Seq<Seq<char>>, x: Seq<char>) -> bool {
    exists|order: Seq<usize>| #[trigger] is_rank_order(priority_keys(ts, ready), order) && x == ready[order[0] as int]
}

/// Schedules and tracks execution of a plan.
#[derive(Clone, Debug)]
pub struct SchedulerNode {
    id: String,
    scheduler: Scheduler,
    auto_replan_recoveries: Vec<(String, Task)>,
}

impl SchedulerNode {
    /// A scheduler node with no recovery tasks registered.
    pub fn new(id: &str) -> (r: Self)
        ensures
            r.id()@ == id@,
            r.recoveries().len() == 0,
    {
        SchedulerNode { id: owned(id), scheduler: Scheduler::new(), auto_replan_recoveries: Vec::new() }
    }

    /// The node id.
    pub closed spec fn id(&self) -> String {
        self.id
    }

    /// The registered recovery tasks, by failed id, oldest first.
    pub closed spec fn recoveries(&self) -> Seq<(String, Task)> {
        self.auto_replan_recoveries@
    }

    /// The node id.
    pub fn node_id(&self) -> (r: &str)
        ensures
            r@ == self.id()@,
    {
        self.id.as_str()
    }

    /// The node with a recovery task registered for a failed task id; a
    /// later registration for the same id replaces an earlier one.
    pub fn register_recovery(self, failed_task_id: &str, recovery_task: Task) -> (r: Self)
        ensures
            r.id() == self.id(),
            r.recoveries().len() == self.recoveries().len() + 1,
            r.recoveries().drop_last() == self.recoveries(),
            r.recoveries().last().0@ == failed_task_id@,
            r.recoveries().last().1 == recovery_task,
    {
        let mut s = self;
        s.auto_replan_recoveries.push((owned(failed_task_id), recovery_task));
        s
    }

    fn recovery_for(&self, id: &String) -> (r: Option<&Task>)
        ensures
            match registered_recovery(self.recoveries(), id@) {
                Some(t) => r == Some(&t),
                None => r is None,
            },
    {
        let ghost regs = self.auto_replan_recoveries@;
        let mut i: usize = self.auto_replan_recoveries.len();
        assert(regs.take(i as int) == regs);
        while i > 0
            invariant
                i <= regs.len(),
                regs == self.auto_replan_recoveries@,
                registered_recovery(regs, id@) == registered_recovery(regs.take(i as int), id@),
            decreases i,
        {
            proof {
                assert(regs.take(i as int).drop_last() == regs.take(i - 1));
                assert(regs.take(i as int).last() == regs[i - 1]);
            }
            if str_eq(self.auto_replan_recoveries[i - 1].0.as_str(), id.as_str()) {
                return Some(&self.auto_replan_recoveries[i - 1].1);
            }
            i -= 1;
        }
        None
    }

    /// One scheduling step on the plan. A plan whose dependencies contain a
    /// cycle is an error. When tasks have failed, the registered recovery
    /// tasks are injected for them (`replan_injected`), or, with none
    /// registered, a replan is needed (`replan_needed`). Otherwise, with no
    /// task ready, the plan is `complete` when every task completed,
    /// `blocked` when some task is blocked, and goes on otherwise; with
    /// tasks ready, the first by priority is set running (`execute_task`).
    pub fn step(&self, plan: &mut EpicPlan) -> (r: Result<SchedulerStep, String>)
        ensures
            final(plan).goal == old(plan).goal,
            has_dependency_cycle(old(plan).tasks@) ==> (r matches Err(e) && e@ == CYCLIC_PLAN@
                && final(plan).tasks@ == old(plan).tasks@),
            !has_dependency_cycle(old(plan).tasks@) ==> (r matches Ok(s) && {
                let ts = old(plan).tasks@;
                let failed = failed_ids(ts);
                let ready = task_ids(ready_tasks(ts));
                if failed.len() > 0 {
                    let recs = recoverable(failed, self.recoveries());
                    &&& strings_view(s.injected@) == recs
                    &&& s.output@ == OutputView::Transition(
                        if recs.len() > 0 {
                            "replan_injected"@
                        } else {
                            "replan_needed"@
                        },
                    )
                    &&& s.current_task_id is None
                    &&& !s.is_complete
                    &&& recovered_in_order(ts, final(plan).tasks@, recs, self.recoveries())
                } else if ready.len() == 0 {
                    let all_done = forall|k: int| 0 <= k < ts.len() ==> (#[trigger] ts[k]).status
                        == TaskStatus::Completed;
                    let any_blocked = exists|k: int| 0 <= k < ts.len() && (#[trigger] ts[k]).status
                        == TaskStatus::Blocked;
                    &&& final(plan).tasks@ == ts
                    &&& s.injected@.len() == 0
                    &&& s.current_task_id is None
                    &&& s.is_complete == all_done
                    &&& s.output@ == if all_done {
                        OutputView::Transition("complete"@)
                    } else if any_blocked {
                        OutputView::Transition("blocked"@)
                    } else {
                        OutputView::Continue(None)
                    }
                } else {
                    &&& s.injected@.len() == 0
                    &&& !s.is_complete
                    &&& s.output@ == OutputView::Transition("execute_task"@)
                    &&& s.current_task_id matches Some(x) && is_first_priority(ts, ready, x@)
                        && status_update(ts, final(plan).tasks@, x@, TaskStatus::Running)
                }
            }),
    {
        if self.scheduler.has_cycles(plan) {
            return Err(owned(CYCLIC_PLAN));
        }
        let ghost ts = plan.tasks@;
        let failed = self.failed_task_ids(plan);
        if failed.len() > 0 {
            let ghost regs = self.recoveries();
            let ghost fv = strings_view(failed@);
            let ghost pred = |x: Seq<char>| registered_recovery(regs, x) is Some;
            let mut injected: Vec<String> = Vec::new();
            let ghost mut plans: Seq<Seq<Task>> = seq![ts];
            let mut i: usize = 0;
            while i < failed.len()
                invariant
                    i <= fv.len(),
                    fv == strings_view(failed@),
                    regs == self.recoveries(),
                    pred == (|x: Seq<char>| registered_recovery(regs, x) is Some),
                    plan.goal == old(plan).goal,
                    strings_view(injected@) == fv.take(i as int).filter(pred),
                    recovery_chain(plans, ts, plan.tasks@, fv.take(i as int).filter(pred), regs),
                decreases fv.len() - i,
            {
                let id = &failed[i];
                proof {
                    assert(fv.take(i + 1) == fv.take(i as int).push(id@));
                    fv.take(i as int).lemma_filter_push(id@, pred);
                }
                match self.recovery_for(id) {
                    Some(template) => {
                        let copy = template.duplicate();
                        let ghost before = plan.tasks@;
                        let _ = plan.inject_recovery_task(id.as_str(), copy);
                        let ghost before_inj = strings_view(injected@);
                        injected.push(copy_string(id));
                        proof {
                            let ids0 = fv.take(i as int).filter(pred);
                            let ids1 = ids0.push(id@);
                            let plans1 = plans.push(plan.tasks@);
                            assert(strings_view(injected@) =~= before_inj.push(id@));
                            assert(same_task(copy, *template));
                            assert(recovery_step(before, plan.tasks@, id@, regs));
                            assert forall|m: int| 0 <= m < ids1.len() implies #[trigger] recovery_step(
                                plans1[m],
                                plans1[m + 1],
                                ids1[m],
                                regs,
                            ) by {
                                if m < ids0.len() {
                                    assert(recovery_step(plans[m], plans[m + 1], ids0[m], regs));
                                }
                            }
                            plans = plans1;
                        }
                    },
                    None => {},
                }
                i += 1;
            }
            assert(fv.take(fv.len() as int) == fv);
            let output = if injected.len() > 0 {
                NodeOutput::transition("replan_injected")
            } else {
                NodeOutput::transition("replan_needed")
            };
            return Ok(SchedulerStep { output, current_task_id: None, is_complete: false, injected });
        }
        let ready = self.scheduler.next_tasks(plan);
        if ready.len() == 0 {
            let mut all_done = true;
            let mut any_blocked = false;
            let mut k: usize = 0;
            while k < plan.tasks.len()
                invariant
                    k <= ts.len(),
                    ts == plan.tasks@,
                    all_done == forall|m: int| 0 <= m < k ==> (#[trigger] ts[m]).status == TaskStatus::Completed,
                    any_blocked == exists|m: int| 0 <= m < k && (#[trigger] ts[m]).status == TaskStatus::Blocked,
                decreases ts.len() - k,
            {
                if plan.tasks[k].status != TaskStatus::Completed {
                    all_done = false;
                }
                if plan.tasks[k].status == TaskStatus::Blocked {
                    any_blocked = true;
                }
                k += 1;
            }
            let output = if all_done {
                NodeOutput::transition("complete")
            } else if any_blocked {
                NodeOutput::transition("blocked")
            } else {
                NodeOutput::cont()
            };
            return Ok(SchedulerStep { output, current_task_id: None, is_complete: all_done, injected: Vec::new() });
        }
        let prioritized = self.scheduler.prioritize_tasks(plan, ready.as_slice());
        proof {
            let order = choose|order: Seq<usize>|
                is_rank_order(priority_keys(ts, strings_view(ready@)), order) && forall|k: int|
                    0 <= k < strings_view(prioritized@).len() ==> #[trigger] strings_view(prioritized@)[k]
                        == strings_view(ready@)[order[k] as int];
            assert(strings_view(prioritized@)[0] == strings_view(ready@)[order[0] as int]);
        }
        let next = copy_string(&prioritized[0]);
        let _ = plan.update_task_status(next.as_str(), TaskStatus::Running);
        Ok(
            SchedulerStep {
                output: NodeOutput::transition("execute_task"),
                current_task_id: Some(next),
                is_complete: false,
                injected: Vec::new(),
            },
        )
    }

    /// The ids of the failed tasks, in plan order.
    fn failed_task_ids(&self, plan: &EpicPlan) -> (r: Vec<String>)
        ensures
            strings_view(r@) == failed_ids(plan.tasks@),
    {
        let ghost ts = plan.tasks@;
        let ghost pred = |t: Task| t.status == TaskStatus::Failed;
        let mut r: Vec<String> = Vec::new();
        let mut i: usize = 0;
        while i < plan.tasks.len()
            invariant
                i <= ts.len(),
                ts == plan.tasks@,
                pred == (|t: Task| t.status == TaskStatus::Failed),
                strings_view(r@) == task_ids(ts.take(i as int).filter(pred)),
            decreases ts.len() - i,
        {
            let t = &plan.tasks[i];
            proof {
                assert(ts.take(i + 1) == ts.take(i as int).push(*t));
                ts.take(i as int).lemma_filter_push(*t, pred);
            }
            if t.status == TaskStatus::Failed {
                let ghost before = strings_view(r@);
                let id = copy_string(&t.id);
                r.push(id);
                proof {
                    assert(strings_view(r@) == before.push(id@));
                    let f = ts.take(i as int).filter(pred);
                    assert(task_ids(f.push(*t)) =~= task_ids(f).push(t.id@));
                }
            }
            i += 1;
        }
        assert(ts.take(ts.len() as int) == ts);
        r
    }
}

} // verus!
