//! Plans of dependent tasks, failure propagation and recovery.

use crate::clock::now_millis;
use crate::text::{copy_opt_string, copy_string, copy_strings, opt_view, owned, str_eq, strings_view};
use vstd::prelude::*;

verus! {

broadcast use vstd::string::group_string_axioms;

/// Execution state of a task.
#[derive(Clone, Copy, Debug, PartialEq, Eq, Structural)]
pub enum TaskStatus {
    /// Waiting for its dependencies to complete.
    Pending,
    /// Executing.
    Running,
    /// Completed successfully.
    Completed,
    /// Failed during execution.
    Failed,
    /// Cannot execute because a dependency failed or is blocked.
    Blocked,
}

/// A discrete unit of work within a plan.
#[derive(Clone, Debug)]
pub struct Task {
    /// Unique identifier.
    pub id: String,
    /// Human-readable name.
    pub name: String,
    /// The task's goal.
    pub description: String,
    /// Current status.
    pub status: TaskStatus,
    /// Ids of the tasks that must complete before this one can start.
    pub dependencies: Vec<String>,
    /// Inputs for execution, as JSON text.
    pub input: String,
    /// Output of a successful execution, as JSON text.
    pub output: Option<String>,
    /// Error message if the task failed.
    pub error: Option<String>,
    /// Agent role assigned to execute the task.
    pub assigned_role: Option<String>,
    /// Estimated duration in seconds.
    pub estimated_duration: Option<u64>,
    /// When execution started, in milliseconds since the Unix epoch.
    pub started_at: Option<i64>,
    /// When execution ended, in milliseconds since the Unix epoch.
    pub completed_at: Option<i64>,
}

impl Task {
    /// A pending task with no dependencies and a null input.
    pub fn new(id: &str, name: &str, description: &str) -> (r: Self)
        ensures
            r.id@ == id@,
            r.name@ == name@,
            r.description@ == description@,
            r.status == TaskStatus::Pending,
            r.dependencies@.len() == 0,
            r.input@ == "null"@,
            r.output is None,
            r.error is None,
            r.assigned_role is None,
            r.estimated_duration is None,
            r.started_at is None,
            r.completed_at is None,
    {
        Task {
            id: owned(id),
            name: owned(name),
            description: owned(description),
            status: TaskStatus::Pending,
            dependencies: Vec::new(),
            input: owned("null"),
            output: None,
            error: None,
            assigned_role: None,
            estimated_duration: None,
            started_at: None,
            completed_at: None,
        }
    }

    /// The task with one more dependency.
    pub fn depends_on(self, dep_id: &str) -> (r: Self)
        ensures
            strings_view(r.dependencies@) == strings_view(self.dependencies@).push(dep_id@),
            r == (Task { dependencies: r.dependencies, ..self }),
    {
        let mut t = self;
        let d = owned(dep_id);
        let ghost before = t.dependencies@;
        t.dependencies.push(d);
        assert(strings_view(t.dependencies@) == strings_view(before).push(d@));
        t
    }

    /// The task with an agent role assigned.
    pub fn with_role(self, role: &str) -> (r: Self)
        ensures
            opt_view(r.assigned_role) == Some(role@),
            r == (Task { assigned_role: r.assigned_role, ..self }),
    {
        Task { assigned_role: Some(owned(role)), ..self }
    }

    /// The task with an estimated duration.
    pub fn with_estimate(self, duration_secs: u64) -> (r: Self)
        ensures
            r == (Task { estimated_duration: Some(duration_secs), ..self }),
    {
        Task { estimated_duration: Some(duration_secs), ..self }
    }

    /// A copy holding the same values.
    pub fn duplicate(&self) -> (r: Self)
        ensures
            r.id == self.id,
            r.name == self.name,
            r.description == self.description,
            r.status == self.status,
            strings_view(r.dependencies@) == strings_view(self.dependencies@),
            r.input == self.input,
            opt_view(r.output) == opt_view(self.output),
            opt_view(r.error) == opt_view(self.error),
            opt_view(r.assigned_role) == opt_view(self.assigned_role),
            r.estimated_duration == self.estimated_duration,
            r.started_at == self.started_at,
            r.completed_at == self.completed_at,
    {
        Task {
            id: self.id.clone(),
            name: self.name.clone(),
            description: self.description.clone(),
            status: self.status,
            dependencies: copy_strings(&self.dependencies),
            input: self.input.clone(),
            output: copy_opt_string(&self.output),
            error: copy_opt_string(&self.error),
            assigned_role: copy_opt_string(&self.assigned_role),
            estimated_duration: self.estimated_duration,
            started_at: self.started_at,
            completed_at: self.completed_at,
        }
    }
}

// ---------------------------------------------------------------------------
// Dependencies and failure propagation
// ---------------------------------------------------------------------------

/// Task `i` lists the id of task `j` among its dependencies.
pub open spec fn depends(ts: Seq<Task>, i: int, j: int) -> bool {
    strings_view(ts[i].dependencies@).contains(ts[j].id@)
}

/// Waiting or executing.
pub open spec fn is_active(s: TaskStatus) -> bool {
    s == TaskStatus::Pending || s == TaskStatus::Running
}

/// Failed or blocked.
pub open spec fn is_halted(s: TaskStatus) -> bool {
    s == TaskStatus::Failed || s == TaskStatus::Blocked
}

/// A status with an earlier block lifted.
pub open spec fn unblocked(s: TaskStatus) -> TaskStatus {
    if s == TaskStatus::Blocked {
        TaskStatus::Pending
    } else {
        s
    }
}

/// Task `i` reaches a failed task in at most `n` dependency steps, through
/// tasks that are waiting, executing or blocked.
pub open spec fn fails_within(ts: Seq<Task>, i: int, n: nat) -> bool
    decreases n,
{
    if n == 0 {
        false
    } else {
        exists|j: int|
            0 <= j < ts.len() && #[trigger] depends(ts, i, j) && (ts[j].status == TaskStatus::Failed
                || (is_active(unblocked(ts[j].status)) && fails_within(ts, j, (n - 1) as nat)))
    }
}

/// Task `i` is to be blocked: it is waiting, executing or blocked, and a
/// chain of its dependencies leads to a failed task.
pub open spec fn must_block(ts: Seq<Task>, i: int) -> bool {
    is_active(unblocked(ts[i].status)) && exists|n: nat| fails_within(ts, i, n)
}

/// The status of task `i` after propagation: blocked when a chain of
/// dependencies leads to a failure, else its status with any earlier block
/// lifted.
pub open spec fn propagated_status(ts: Seq<Task>, i: int) -> TaskStatus {
    if must_block(ts, i) {
        TaskStatus::Blocked
    } else {
        unblocked(ts[i].status)
    }
}

/// The tasks after propagation: only statuses change.
pub open spec fn propagated(ts: Seq<Task>) -> Seq<Task> {
    Seq::new(ts.len(), |i: int| Task { status: propagated_status(ts, i), ..ts[i] })
}

/// The two tasks agree on everything but the status.
pub open spec fn same_but_status(a: Task, b: Task) -> bool {
    a == Task { status: a.status, ..b }
}

/// The number of tasks not blocked.
pub open spec fn unblocked_count(ts: Seq<Task>) -> nat
    decreases ts.len(),
{
    if ts.len() == 0 {
        0
    } else {
        unblocked_count(ts.drop_last()) + if ts.last().status == TaskStatus::Blocked {
            0nat
        } else {
            1nat
        }
    }
}

proof fn lemma_unblocked_count_decreases(a: Seq<Task>, b: Seq<Task>, k: int)
    requires
        a.len() == b.len(),
        forall|i: int| 0 <= i < a.len() && a[i].status == TaskStatus::Blocked ==> #[trigger] b[i].status
            == TaskStatus::Blocked,
        0 <= k < a.len(),
        a[k].status != TaskStatus::Blocked,
        b[k].status == TaskStatus::Blocked,
    ensures
        unblocked_count(b) < unblocked_count(a),
    decreases a.len(),
{
    let n = a.len() - 1;
    if k == n {
        lemma_unblocked_count_le(a.drop_last(), b.drop_last());
    } else {
        assert forall|i: int| 0 <= i < a.drop_last().len() && a.drop_last()[i].status == TaskStatus::Blocked
            implies #[trigger] b.drop_last()[i].status == TaskStatus::Blocked by {
            assert(a.drop_last()[i] == a[i] && b.drop_last()[i] == b[i]);
        }
        lemma_unblocked_count_decreases(a.drop_last(), b.drop_last(), k);
        assert(a[n].status == TaskStatus::Blocked ==> b[n].status == TaskStatus::Blocked);
    }
}

proof fn lemma_unblocked_count_le(a: Seq<Task>, b: Seq<Task>)
    requires
        a.len() == b.len(),
        forall|i: int| 0 <= i < a.len() && a[i].status == TaskStatus::Blocked ==> #[trigger] b[i].status
            == TaskStatus::Blocked,
    ensures
        unblocked_count(b) <= unblocked_count(a),
    decreases a.len(),
{
    if a.len() > 0 {
        let n = a.len() - 1;
        assert forall|i: int| 0 <= i < a.drop_last().len() && a.drop_last()[i].status == TaskStatus::Blocked
            implies #[trigger] b.drop_last()[i].status == TaskStatus::Blocked by {
            assert(a.drop_last()[i] == a[i] && b.drop_last()[i] == b[i]);
        }
        lemma_unblocked_count_le(a.drop_last(), b.drop_last());
        assert(a[n].status == TaskStatus::Blocked ==> b[n].status == TaskStatus::Blocked);
    }
}

/// The propagation invariant: statuses only ever change to blocked where a
/// chain leads to a failure; every other task has its starting status with
/// any earlier block lifted.
pub open spec fn propagation_sound(orig: Seq<Task>, ts: Seq<Task>) -> bool {
    &&& ts.len() == orig.len()
    &&& forall|k: int| 0 <= k < ts.len() ==> same_but_status(#[trigger] ts[k], orig[k])
    &&& forall|k: int|
        0 <= k < ts.len() && (#[trigger] ts[k]).status == TaskStatus::Blocked ==> must_block(orig, k)
    &&& forall|k: int|
        0 <= k < ts.len() && (#[trigger] ts[k]).status != TaskStatus::Blocked ==> ts[k].status
            == unblocked(orig[k].status)
}

/// No waiting or executing task depends on a failed or blocked one.
pub open spec fn propagation_closed(ts: Seq<Task>) -> bool {
    forall|i: int, j: int|
        0 <= i < ts.len() && 0 <= j < ts.len() && is_active(ts[i].status) && #[trigger] depends(ts, i, j)
            ==> !is_halted(ts[j].status)
}

proof fn lemma_depends_same(orig: Seq<Task>, ts: Seq<Task>, i: int, j: int)
    requires
        ts.len() == orig.len(),
        0 <= i < ts.len(),
        0 <= j < ts.len(),
        same_but_status(ts[i], orig[i]),
        same_but_status(ts[j], orig[j]),
    ensures
        depends(ts, i, j) == depends(orig, i, j),
{
}

proof fn lemma_closed_blocks_all(orig: Seq<Task>, ts: Seq<Task>, i: int, n: nat)
    requires
        propagation_sound(orig, ts),
        propagation_closed(ts),
        0 <= i < ts.len(),
        is_active(unblocked(orig[i].status)),
        fails_within(orig, i, n),
    ensures
        ts[i].status == TaskStatus::Blocked,
    decreases n,
{
    let j = choose|j: int|
        0 <= j < orig.len() && #[trigger] depends(orig, i, j) && (orig[j].status == TaskStatus::Failed
            || (is_active(unblocked(orig[j].status)) && fails_within(orig, j, (n - 1) as nat)));
    assert(same_but_status(ts[i], orig[i]));
    assert(same_but_status(ts[j], orig[j]));
    lemma_depends_same(orig, ts, i, j);
    if orig[j].status == TaskStatus::Failed {
        if ts[j].status == TaskStatus::Blocked {
            assert(must_block(orig, j));
        }
        assert(is_halted(ts[j].status));
    } else {
        lemma_closed_blocks_all(orig, ts, j, (n - 1) as nat);
    }
    if ts[i].status != TaskStatus::Blocked {
        assert(is_active(ts[i].status));
        assert(!is_halted(ts[j].status));
    }
}

proof fn lemma_sound_closed_is_propagated(orig: Seq<Task>, ts: Seq<Task>)
    requires
        propagation_sound(orig, ts),
        propagation_closed(ts),
    ensures
        ts == propagated(orig),
{
    assert forall|i: int| 0 <= i < ts.len() implies #[trigger] ts[i] == propagated(orig)[i] by {
        if must_block(orig, i) {
            let n = choose|n: nat| fails_within(orig, i, n);
            lemma_closed_blocks_all(orig, ts, i, n);
        }
        assert(same_but_status(ts[i], orig[i]));
    }
    assert(ts =~= propagated(orig));
}

proof fn lemma_fails_within_same(a: Seq<Task>, b: Seq<Task>, i: int, n: nat)
    requires
        a.len() == b.len(),
        forall|k: int| 0 <= k < a.len() ==> same_but_status(#[trigger] b[k], a[k]),
        forall|k: int| 0 <= k < a.len() ==> ((#[trigger] a[k]).status == TaskStatus::Failed) == (b[k].status
            == TaskStatus::Failed),
        forall|k: int| 0 <= k < a.len() ==> is_active(unblocked((#[trigger] a[k]).status)) == is_active(
            unblocked(b[k].status),
        ),
        0 <= i < a.len(),
    ensures
        fails_within(a, i, n) == fails_within(b, i, n),
    decreases n,
{
    if n > 0 {
        if fails_within(a, i, n) {
            let j = choose|j: int|
                0 <= j < a.len() && #[trigger] depends(a, i, j) && (a[j].status == TaskStatus::Failed || (
                is_active(unblocked(a[j].status)) && fails_within(a, j, (n - 1) as nat)));
            lemma_fails_within_same(a, b, j, (n - 1) as nat);
            assert(same_but_status(b[i], a[i]) && same_but_status(b[j], a[j]));
            assert(depends(b, i, j));
        }
        if fails_within(b, i, n) {
            let j = choose|j: int|
                0 <= j < b.len() && #[trigger] depends(b, i, j) && (b[j].status == TaskStatus::Failed || (
                is_active(unblocked(b[j].status)) && fails_within(b, j, (n - 1) as nat)));
            lemma_fails_within_same(a, b, j, (n - 1) as nat);
            assert(same_but_status(b[i], a[i]) && same_but_status(b[j], a[j]));
            assert(depends(a, i, j));
        }
    }
}

/// Propagating failures twice gives what propagating once gives: a task
/// blocked by an unrecovered failure stays blocked, and nothing else moves.
pub proof fn lemma_propagation_idempotent(ts: Seq<Task>)
    ensures
        propagated(propagated(ts)) == propagated(ts),
{
    let p = propagated(ts);
    assert forall|k: int| 0 <= k < ts.len() implies same_but_status(#[trigger] p[k], ts[k]) by {}
    assert forall|k: int| 0 <= k < ts.len() implies ((#[trigger] ts[k]).status == TaskStatus::Failed) == (
    p[k].status == TaskStatus::Failed) by {}
    assert forall|k: int| 0 <= k < ts.len() implies is_active(unblocked((#[trigger] ts[k]).status))
        == is_active(unblocked(p[k].status)) by {}
    assert forall|i: int| 0 <= i < ts.len() implies must_block(p, i) == must_block(ts, i) by {
        if must_block(ts, i) {
            let n = choose|n: nat| fails_within(ts, i, n);
            lemma_fails_within_same(ts, p, i, n);
        }
        if must_block(p, i) {
            let n = choose|n: nat| fails_within(p, i, n);
            lemma_fails_within_same(ts, p, i, n);
        }
    }
    assert(propagated(p) =~= p);
}

/// After propagation no waiting or executing task depends on a failed or
/// blocked task.
pub proof fn lemma_propagation_closed(ts: Seq<Task>)
    ensures
        propagation_closed(propagated(ts)),
{
    let p = propagated(ts);
    assert forall|i: int, j: int|
        0 <= i < p.len() && 0 <= j < p.len() && is_active(p[i].status) && #[trigger] depends(p, i, j)
            implies !is_halted(p[j].status) by {
        assert(same_but_status(p[i], ts[i]) && same_but_status(p[j], ts[j]));
        assert(depends(ts, i, j));
        if is_halted(p[j].status) {
            if p[j].status == TaskStatus::Failed {
                assert(ts[j].status == TaskStatus::Failed);
                assert(fails_within(ts, i, 1));
            } else {
                let n = choose|n: nat| fails_within(ts, j, n);
                assert(fails_within(ts, i, n + 1));
            }
            assert(must_block(ts, i));
        }
    }
}

// ---------------------------------------------------------------------------
// Plans
// ---------------------------------------------------------------------------

/// A goal decomposed into dependent tasks.
#[derive(Clone, Debug)]
pub struct EpicPlan {
    /// The goal being pursued.
    pub goal: String,
    /// The tasks, one per id.
    pub tasks: Vec<Task>,
    /// When the plan was created, in milliseconds since the Unix epoch.
    pub created_at: i64,
    /// When the plan was last updated, in milliseconds since the Unix epoch.
    pub updated_at: i64,
}

/// The first position at or after `i` holding a task with this id.
pub open spec fn index_from(ts: Seq<Task>, id: Seq<char>, i: int) -> Option<int>
    decreases ts.len() - i,
{
    if i < 0 || i >= ts.len() {
        None
    } else if ts[i].id@ == id {
        Some(i)
    } else {
        index_from(ts, id, i + 1)
    }
}

/// The first position holding a task with this id.
pub open spec fn task_index(ts: Seq<Task>, id: Seq<char>) -> Option<int> {
    index_from(ts, id, 0)
}

/// Where `index_from` finds a task, it has the id; where it finds none,
/// no task from `i` on has it.
pub proof fn lemma_index_from(ts: Seq<Task>, id: Seq<char>, i: int)
    requires
        0 <= i,
    ensures
        match index_from(ts, id, i) {
            Some(p) => i <= p < ts.len() && ts[p].id@ == id && forall|k: int| i <= k < p ==> (
            #[trigger] ts[k]).id@ != id,
            None => forall|k: int| i <= k < ts.len() ==> (#[trigger] ts[k]).id@ != id,
        },
    decreases ts.len() - i,
{
    if i < ts.len() && ts[i].id@ != id {
        lemma_index_from(ts, id, i + 1);
    }
}

/// The outcome of recovering the failed task with `recovery`: `rec` is the
/// recovery task carrying the failed task's dependencies; after adding it,
/// the task with the failed id (at `q`) is `reset`: pending, without error,
/// depending on the recovery task alone; then failures are propagated.
pub open spec fn recovery_applied(
    before: Seq<Task>,
    after: Seq<Task>,
    failed_id: Seq<char>,
    recovery: Task,
    rec: Task,
    reset: Task,
    q: int,
) -> bool {
    let failed = before[task_index(before, failed_id).unwrap()];
    let added = with_task(before, rec);
    &&& rec == Task { dependencies: rec.dependencies, ..recovery }
    &&& strings_view(rec.dependencies@) == strings_view(failed.dependencies@)
    &&& task_index(added, failed_id) == Some(q)
    &&& reset == Task {
        dependencies: reset.dependencies,
        status: TaskStatus::Pending,
        error: None,
        ..added[q]
    }
    &&& strings_view(reset.dependencies@) == seq![recovery.id@]
    &&& after == propagated(added.update(q, reset))
}

/// `after` is `before` with the status of the first task with `id` set
/// (its start time stamped when it starts running, its end time when it
/// completes, fails or is blocked) and failures propagated; without such
/// a task nothing changes.
pub open spec fn status_update(before: Seq<Task>, after: Seq<Task>, id: Seq<char>, status: TaskStatus) -> bool {
    match task_index(before, id) {
        Some(p) => {
            let t = before[p];
            let set = Task {
                status,
                started_at: if status == TaskStatus::Running {
                    after[p].started_at
                } else {
                    t.started_at
                },
                completed_at: if status == TaskStatus::Completed || status == TaskStatus::Failed || status
                    == TaskStatus::Blocked {
                    after[p].completed_at
                } else {
                    t.completed_at
                },
                ..t
            };
            &&& after == propagated(before.update(p, set))
            &&& status == TaskStatus::Running ==> after[p].started_at is Some
            &&& (status == TaskStatus::Completed || status == TaskStatus::Failed || status
                == TaskStatus::Blocked) ==> after[p].completed_at is Some
        },
        None => after == before,
    }
}

/// `after` is `before` with the failed task `failed_id` recovered by
/// `recovery`, as `recovery_applied` describes.
pub open spec fn recovered_by(before: Seq<Task>, after: Seq<Task>, failed_id: Seq<char>, recovery: Task) -> bool {
    exists|rec: Task, reset: Task, q: int| #[trigger] recovery_applied(before, after, failed_id, recovery, rec, reset, q)
}

/// The tasks whose id differs from `id`.
pub open spec fn other_id(id: Seq<char>) -> spec_fn(Task) -> bool {
    |t: Task| t.id@ != id
}

/// The tasks after `task` is added in place of any with its id.
pub open spec fn with_task(ts: Seq<Task>, task: Task) -> Seq<Task> {
    ts.filter(other_id(task.id@)).push(task)
}

/// Adding a task whose id is new appends it.
pub proof fn lemma_with_new_task(ts: Seq<Task>, task: Task)
    requires
        forall|k: int| 0 <= k < ts.len() ==> (#[trigger] ts[k]).id@ != task.id@,
    ensures
        with_task(ts, task) == ts.push(task),
{
    crate::ranking::lemma_filter_keeps_all(ts, other_id(task.id@));
}

impl EpicPlan {
    /// An empty plan for the goal, stamped with the current time.
    pub fn new(goal: &str) -> (r: Self)
        ensures
            r.goal@ == goal@,
            r.tasks@.len() == 0,
            r.created_at == r.updated_at,
    {
        let now = now_millis();
        EpicPlan { goal: owned(goal), tasks: Vec::new(), created_at: now, updated_at: now }
    }

    fn position(&self, id: &str) -> (r: Option<usize>)
        ensures
            r matches Some(p) ==> p < self.tasks@.len() && task_index(self.tasks@, id@) == Some(p as int)
                && self.tasks@[p as int].id@ == id@,
            r is None <==> task_index(self.tasks@, id@) is None,
    {
        proof {
            lemma_index_from(self.tasks@, id@, 0);
        }
        let mut i: usize = 0;
        while i < self.tasks.len()
            invariant
                i <= self.tasks@.len(),
                index_from(self.tasks@, id@, 0) == index_from(self.tasks@, id@, i as int),
            decreases self.tasks@.len() - i,
        {
            if str_eq(self.tasks[i].id.as_str(), id) {
                return Some(i);
            }
            i += 1;
        }
        None
    }

    /// Adds a task in place of any task with the same id; it comes last.
    pub fn add_task(&mut self, task: Task)
        ensures
            final(self).tasks@ == with_task(old(self).tasks@, task),
            final(self).goal == old(self).goal,
            final(self).created_at == old(self).created_at,
    {
        let ghost orig = self.tasks@;
        let ghost pred = other_id(task.id@);
        let mut kept: Vec<Task> = Vec::new();
        let mut rest: Vec<Task> = Vec::new();
        std::mem::swap(&mut rest, &mut self.tasks);
        let total = rest.len();
        let mut i: usize = 0;
        while rest.len() > 0
            invariant
                orig == old(self).tasks@,
                pred == other_id(task.id@),
                rest@ == orig.skip(i as int),
                orig.len() == total,
                i <= orig.len(),
                kept@ == orig.take(i as int).filter(pred),
            decreases rest@.len(),
        {
            let t = rest.remove(0);
            proof {
                assert(orig.take(i + 1) == orig.take(i as int).push(t));
                orig.take(i as int).lemma_filter_push(t, pred);
                assert(rest@ =~= orig.skip(i + 1));
            }
            if !str_eq(t.id.as_str(), task.id.as_str()) {
                kept.push(t);
            }
            i += 1;
        }
        assert(orig.take(i as int) == orig);
        kept.push(task);
        self.tasks = kept;
        self.updated_at = now_millis();
    }

    /// The first task with this id.
    pub fn get_task(&self, id: &str) -> (r: Option<&Task>)
        ensures
            match task_index(self.tasks@, id@) {
                Some(p) => r == Some(&self.tasks@[p]),
                None => r is None,
            },
    {
        match self.position(id) {
            Some(p) => Some(&self.tasks[p]),
            None => None,
        }
    }

    /// A mutable borrow of the first task with this id; what is written
    /// through it lands in the plan.
    pub fn get_task_mut(&mut self, id: &str) -> (r: Option<&mut Task>)
        ensures
            final(self).goal == old(self).goal,
            final(self).created_at == old(self).created_at,
            final(self).updated_at == old(self).updated_at,
            match task_index(old(self).tasks@, id@) {
                Some(p) => r matches Some(t) && *t == old(self).tasks@[p] && final(self).tasks@ == old(
                    self,
                ).tasks@.update(p, *final(t)),
                None => r is None && final(self).tasks@ == old(self).tasks@,
            },
    {
        match self.position(id) {
            Some(p) => Some(&mut self.tasks[p]),
            None => None,
        }
    }

    /// Sets the status of the first task with this id, stamping the start
    /// time when it starts running and the end time when it completes, fails
    /// or is blocked, then propagates failures. Returns whether such a task
    /// exists; without one nothing changes.
    pub fn update_task_status(&mut self, id: &str, status: TaskStatus) -> (r: bool)
        ensures
            r == task_index(old(self).tasks@, id@).is_some(),
            final(self).goal == old(self).goal,
            final(self).created_at == old(self).created_at,
            status_update(old(self).tasks@, final(self).tasks@, id@, status),
            task_index(old(self).tasks@, id@) is None ==> final(self).updated_at == old(self).updated_at,
    {
        let now = now_millis();
        match self.position(id) {
            Some(p) => {
                self.tasks[p].status = status;
                match status {
                    TaskStatus::Running => {
                        self.tasks[p].started_at = Some(now);
                    },
                    TaskStatus::Completed | TaskStatus::Failed | TaskStatus::Blocked => {
                        self.tasks[p].completed_at = Some(now);
                    },
                    _ => {},
                }
                let ghost set_tasks = self.tasks@;
                self.propagate_blocked_status();
                proof {
                    assert(self.tasks@[p as int].started_at == set_tasks[p as int].started_at);
                    assert(self.tasks@[p as int].completed_at == set_tasks[p as int].completed_at);
                    assert(set_tasks =~= old(self).tasks@.update(
                        p as int,
                        Task {
                            status,
                            started_at: set_tasks[p as int].started_at,
                            completed_at: set_tasks[p as int].completed_at,
                            ..old(self).tasks@[p as int]
                        },
                    ));
                }
                self.updated_at = now;
                true
            },
            None => false,
        }
    }

    /// Recomputes blocked tasks from scratch: earlier blocks are lifted, then
    /// every waiting or executing task that a chain of dependencies leads
    /// from to a failed task is blocked. Nothing but statuses changes.
    pub fn propagate_blocked_status(&mut self)
        ensures
            final(self).tasks@ == propagated(old(self).tasks@),
            final(self).goal == old(self).goal,
            final(self).created_at == old(self).created_at,
            final(self).updated_at == old(self).updated_at,
    {
        let ghost orig = self.tasks@;
        let mut i: usize = 0;
        while i < self.tasks.len()
            invariant
                i <= self.tasks@.len(),
                self.tasks@.len() == orig.len(),
                self.goal == old(self).goal,
                self.created_at == old(self).created_at,
                self.updated_at == old(self).updated_at,
                orig == old(self).tasks@,
                forall|k: int|
                    0 <= k < i ==> #[trigger] self.tasks@[k] == (Task {
                        status: unblocked(orig[k].status),
                        ..orig[k]
                    }),
                forall|k: int| i <= k < self.tasks@.len() ==> #[trigger] self.tasks@[k] == orig[k],
            decreases self.tasks@.len() - i,
        {
            if self.tasks[i].status == TaskStatus::Blocked {
                self.tasks[i].status = TaskStatus::Pending;
            }
            i += 1;
        }
        proof {
            let ts = self.tasks@;
            assert forall|k: int| 0 <= k < ts.len() && (#[trigger] ts[k]).status == TaskStatus::Blocked
                implies must_block(orig, k) by {
                assert(ts[k] == (Task { status: unblocked(orig[k].status), ..orig[k] }));
            }
            assert forall|k: int| 0 <= k < ts.len() implies same_but_status(#[trigger] ts[k], orig[k]) by {
                assert(ts[k] == (Task { status: unblocked(orig[k].status), ..orig[k] }));
            }
        }
        loop
            invariant
                propagation_sound(orig, self.tasks@),
                self.goal == old(self).goal,
                self.created_at == old(self).created_at,
                self.updated_at == old(self).updated_at,
                orig == old(self).tasks@,
            ensures
                propagation_sound(orig, self.tasks@),
                propagation_closed(self.tasks@),
                self.goal == old(self).goal,
                self.created_at == old(self).created_at,
                self.updated_at == old(self).updated_at,
            decreases unblocked_count(self.tasks@),
        {
            let changed = self.block_pass(Ghost(orig));
            if !changed {
                break;
            }
        }
        proof {
            lemma_sound_closed_is_propagated(orig, self.tasks@);
        }
    }

    /// One pass: blocks each waiting or executing task with a dependency
    /// that was failed or blocked when the pass began. Returns whether any
    /// task changed; when none did, the tasks are closed.
    fn block_pass(&mut self, Ghost(orig): Ghost<Seq<Task>>) -> (changed: bool)
        requires
            propagation_sound(orig, old(self).tasks@),
        ensures
            propagation_sound(orig, final(self).tasks@),
            final(self).goal == old(self).goal,
            final(self).created_at == old(self).created_at,
            final(self).updated_at == old(self).updated_at,
            changed ==> unblocked_count(final(self).tasks@) < unblocked_count(old(self).tasks@),
            !changed ==> propagation_closed(final(self).tasks@) && final(self).tasks@ == old(self).tasks@,
    {
        let ghost ts0 = self.tasks@;
        let halted = self.halted_ids();
        let mut changed = false;
        let ghost mut witness: int = 0;
        let mut i: usize = 0;
        while i < self.tasks.len()
            invariant
                i <= self.tasks@.len(),
                ts0 == old(self).tasks@,
                self.tasks@.len() == ts0.len(),
                self.goal == old(self).goal,
                self.created_at == old(self).created_at,
                self.updated_at == old(self).updated_at,
                propagation_sound(orig, ts0),
                propagation_sound(orig, self.tasks@),
                forall|x: Seq<char>| #[trigger] strings_view(halted@).contains(x) <==> exists|j: int|
                    0 <= j < ts0.len() && ts0[j].id@ == x && is_halted(ts0[j].status),
                forall|k: int| i <= k < self.tasks@.len() ==> #[trigger] self.tasks@[k] == ts0[k],
                forall|k: int|
                    0 <= k < self.tasks@.len() && ts0[k].status == TaskStatus::Blocked ==> (
                    #[trigger] self.tasks@[k]).status == TaskStatus::Blocked,
                changed ==> 0 <= witness < self.tasks@.len() && ts0[witness].status
                    != TaskStatus::Blocked && self.tasks@[witness].status == TaskStatus::Blocked,
                !changed ==> forall|k: int| 0 <= k < i ==> #[trigger] self.tasks@[k] == ts0[k],
                !changed ==> forall|k: int, j: int|
                    0 <= k < i && 0 <= j < ts0.len() && is_active(ts0[k].status) && #[trigger] depends(
                        ts0,
                        k,
                        j,
                    ) ==> !is_halted(ts0[j].status),
            decreases self.tasks@.len() - i,
        {
            let status = self.tasks[i].status;
            if status == TaskStatus::Pending || status == TaskStatus::Running {
                let hit = first_listed(&self.tasks[i].dependencies, &halted);
                if hit {
                    proof {
                        let d = choose|d: Seq<char>| strings_view(self.tasks@[i as int].dependencies@).contains(d)
                            && strings_view(halted@).contains(d);
                        let j = choose|j: int| 0 <= j < ts0.len() && ts0[j].id@ == d && is_halted(ts0[j].status);
                        assert(self.tasks@[i as int] == ts0[i as int]);
                        assert(same_but_status(ts0[i as int], orig[i as int]));
                        assert(same_but_status(ts0[j], orig[j]));
                        assert(depends(orig, i as int, j));
                        let n: nat = if ts0[j].status == TaskStatus::Failed {
                            1
                        } else {
                            let m = choose|m: nat| fails_within(orig, j, m);
                            m + 1
                        };
                        if ts0[j].status == TaskStatus::Failed {
                            assert(orig[j].status == TaskStatus::Failed);
                        } else {
                            assert(must_block(orig, j));
                        }
                        assert(fails_within(orig, i as int, n));
                        assert(must_block(orig, i as int));
                    }
                    self.tasks[i].status = TaskStatus::Blocked;
                    proof {
                        witness = i as int;
                    }
                    changed = true;
                } else {
                    proof {
                        assert forall|j: int| 0 <= j < ts0.len() && #[trigger] depends(ts0, i as int, j)
                            implies !is_halted(ts0[j].status) by {
                            if is_halted(ts0[j].status) {
                                assert(strings_view(halted@).contains(ts0[j].id@));
                                assert(self.tasks@[i as int] == ts0[i as int]);
                            }
                        }
                    }
                }
            }
            i += 1;
        }
        proof {
            if changed {
                lemma_unblocked_count_decreases(ts0, self.tasks@, witness);
            } else {
                assert(self.tasks@ =~= ts0);
            }
        }
        changed
    }

    /// The ids of the failed or blocked tasks.
    fn halted_ids(&self) -> (r: Vec<String>)
        ensures
            forall|x: Seq<char>| #[trigger] strings_view(r@).contains(x) <==> exists|j: int|
                0 <= j < self.tasks@.len() && self.tasks@[j].id@ == x && is_halted(self.tasks@[j].status),
    {
        let mut r: Vec<String> = Vec::new();
        let mut i: usize = 0;
        while i < self.tasks.len()
            invariant
                i <= self.tasks@.len(),
                forall|x: Seq<char>| #[trigger] strings_view(r@).contains(x) <==> exists|j: int|
                    0 <= j < i && self.tasks@[j].id@ == x && is_halted(self.tasks@[j].status),
            decreases self.tasks@.len() - i,
        {
            let t = &self.tasks[i];
            if t.status == TaskStatus::Failed || t.status == TaskStatus::Blocked {
                let ghost before = strings_view(r@);
                let id = copy_string(&t.id);
                r.push(id);
                proof {
                    assert(strings_view(r@) == before.push(id@));
                    assert forall|x: Seq<char>| #[trigger] strings_view(r@).contains(x) <==> exists|j: int|
                        0 <= j < i + 1 && self.tasks@[j].id@ == x && is_halted(self.tasks@[j].status) by {
                        if strings_view(r@).contains(x) {
                            let p = choose|p: int| 0 <= p < strings_view(r@).len() && strings_view(r@)[p] == x;
                            if p < before.len() {
                                assert(before.contains(x));
                            }
                        }
                        if exists|j: int| 0 <= j < i + 1 && self.tasks@[j].id@ == x && is_halted(self.tasks@[j].status) {
                            let j = choose|j: int| 0 <= j < i + 1 && self.tasks@[j].id@ == x && is_halted(self.tasks@[j].status);
                            if j < i {
                                assert(before.contains(x));
                                let p = choose|p: int| 0 <= p < before.len() && before[p] == x;
                                assert(strings_view(r@)[p] == x);
                            } else {
                                assert(strings_view(r@)[before.len() as int] == x);
                            }
                        }
                    }
                }
            }
            i += 1;
        }
        r
    }

    /// Adds a recovery task for a failed task: the recovery task takes over
    /// the failed task's dependencies, the failed task then depends on the
    /// recovery task alone and is reset to pending with its error cleared,
    /// and failures are propagated again. Returns whether the failed task
    /// exists; without it nothing changes.
    pub fn inject_recovery_task(&mut self, failed_task_id: &str, recovery_task: Task) -> (r: bool)
        ensures
            r == task_index(old(self).tasks@, failed_task_id@).is_some(),
            final(self).goal == old(self).goal,
            final(self).created_at == old(self).created_at,
            !r ==> final(self).tasks@ == old(self).tasks@,
            r ==> recovered_by(old(self).tasks@, final(self).tasks@, failed_task_id@, recovery_task),
    {
        let p = match self.position(failed_task_id) {
            Some(p) => p,
            None => {
                return false;
            },
        };
        let rec_id = copy_string(&recovery_task.id);
        let deps = copy_strings(&self.tasks[p].dependencies);
        let ghost failed = self.tasks@[p as int];
        let ghost orig = self.tasks@;
        let mut rec = recovery_task;
        rec.dependencies = deps;
        let ghost rec_v = rec;
        self.add_task(rec);
        let ghost added = self.tasks@;
        proof {
            assert(added == with_task(orig, rec_v));
            if rec_v.id@ != failed_task_id@ {
                orig.lemma_filter_contains(|t: Task| t.id@ != rec_v.id@, p as int);
                let w = orig.filter(|t: Task| t.id@ != rec_v.id@);
                let k = choose|k: int| 0 <= k < w.len() && w[k] == orig[p as int];
                assert(added[k].id@ == failed_task_id@);
            } else {
                assert(added[added.len() - 1].id@ == failed_task_id@);
            }
        }
        let ghost witness: int = if rec_v.id@ != failed_task_id@ {
            choose|k: int| 0 <= k < added.len() && added[k].id@ == failed_task_id@
        } else {
            added.len() - 1
        };
        let q = match self.position(failed_task_id) {
            Some(q) => q,
            None => {
                proof {
                    lemma_index_from(added, failed_task_id@, 0);
                    assert(added[witness].id@ == failed_task_id@);
                }
                return true;
            },
        };
        let new_deps = vec![rec_id];
        self.tasks[q].dependencies = new_deps;
        self.tasks[q].status = TaskStatus::Pending;
        self.tasks[q].error = None;
        proof {
            let reset = self.tasks@[q as int];
            assert(strings_view(reset.dependencies@) =~= seq![recovery_task.id@]);
            assert(self.tasks@ =~= added.update(q as int, reset));
        }
        let ghost updated = self.tasks@;
        let ghost reset = updated[q as int];
        self.propagate_blocked_status();
        proof {
            assert(task_index(orig, failed_task_id@) == Some(p as int));
            assert(rec_v == Task { dependencies: rec_v.dependencies, ..recovery_task });
            assert(strings_view(rec_v.dependencies@) == strings_view(failed.dependencies@));
            assert(task_index(added, failed_task_id@) == Some(q as int));
            assert(reset == Task {
                dependencies: reset.dependencies,
                status: TaskStatus::Pending,
                error: None,
                ..added[q as int]
            });
            assert(strings_view(reset.dependencies@) == seq![recovery_task.id@]);
            assert(self.tasks@ == propagated(added.update(q as int, reset)));
            assert(recovery_applied(orig, self.tasks@, failed_task_id@, recovery_task, rec_v, reset, q as int));
        }
        self.updated_at = now_millis();
        assert(orig == old(self).tasks@);
        assert(recovery_applied(old(self).tasks@, self.tasks@, failed_task_id@, recovery_task, rec_v, reset, q as int));
        true
    }
}

/// Whether some string of `items` is among `listed`.
fn first_listed(items: &Vec<String>, listed: &Vec<String>) -> (r: bool)
    ensures
        r == exists|d: Seq<char>| strings_view(items@).contains(d) && strings_view(listed@).contains(d),
{
    let mut i: usize = 0;
    while i < items.len()
        invariant
            i <= items@.len(),
            forall|k: int| 0 <= k < i ==> !strings_view(listed@).contains(#[trigger] items@[k]@),
        decreases items@.len() - i,
    {
        let mut j: usize = 0;
        while j < listed.len()
            invariant
                i < items@.len(),
                j <= listed@.len(),
                forall|m: int| 0 <= m < j ==> (#[trigger] listed@[m])@ != items@[i as int]@,
            decreases listed@.len() - j,
        {
            if str_eq(items[i].as_str(), listed[j].as_str()) {
                proof {
                    assert(strings_view(items@)[i as int] == items@[i as int]@);
                    assert(strings_view(listed@)[j as int] == items@[i as int]@);
                    assert(strings_view(items@).contains(items@[i as int]@));
                    assert(strings_view(listed@).contains(items@[i as int]@));
                }
                return true;
            }
            j += 1;
        }
        proof {
            if strings_view(listed@).contains(items@[i as int]@) {
                let m = choose|m: int| 0 <= m < listed@.len() && strings_view(listed@)[m] == items@[i as int]@;
                assert(listed@[m]@ == items@[i as int]@);
            }
        }
        i += 1;
    }
    proof {
        if exists|d: Seq<char>| strings_view(items@).contains(d) && strings_view(listed@).contains(d) {
            let d = choose|d: Seq<char>| strings_view(items@).contains(d) && strings_view(listed@).contains(d);
            let k = choose|k: int| 0 <= k < items@.len() && strings_view(items@)[k] == d;
            assert(items@[k]@ == d);
        }
    }
    false
}

} // verus!
