//! Dependency-aware scheduling of plan tasks.

use crate::planning::plan::{depends, task_index, EpicPlan, Task, TaskStatus};
use crate::ranking::{is_rank_order, rank_order, ranked_prefix};
use crate::text::{copy_string, str_eq, strings_view};
use vstd::prelude::*;

verus! {

broadcast use vstd::string::group_string_axioms;

/// Every dependency of the task names a task of the plan, and the first
/// task with that id has completed.
pub open spec fn deps_completed(ts: Seq<Task>, t: Task) -> bool {
    forall|k: int|
        0 <= k < t.dependencies@.len() ==> match task_index(ts, (#[trigger] t.dependencies@[k])@) {
            Some(j) => ts[j].status == TaskStatus::Completed,
            None => false,
        }
}

/// A task is ready when it is pending and its dependencies have completed.
pub open spec fn is_ready(ts: Seq<Task>, t: Task) -> bool {
    t.status == TaskStatus::Pending && deps_completed(ts, t)
}

/// The ready tasks of a plan, in plan order.
pub open spec fn ready_tasks(ts: Seq<Task>) -> Seq<Task> {
    ts.filter(|t: Task| is_ready(ts, t))
}

/// The ids of tasks.
pub open spec fn task_ids(ts: Seq<Task>) -> Seq<Seq<char>> {
    ts.map_values(|t: Task| t.id@)
}

/// `mark` selects a nonempty group of tasks in which every task depends on
/// a task of the group.
pub open spec fn is_dependency_loop(ts: Seq<Task>, mark: Seq<bool>) -> bool {
    &&& mark.len() == ts.len()
    &&& exists|i: int| 0 <= i < mark.len() && mark[i]
    &&& forall|i: int|
        0 <= i < mark.len() && #[trigger] mark[i] ==> exists|j: int|
            0 <= j < mark.len() && mark[j] && #[trigger] depends(ts, i, j)
}

/// The dependencies of the plan contain a cycle: some nonempty group of
/// tasks in which every task depends on a task of the group (in a finite
/// plan, the same as a chain of dependencies that returns to its start).
pub open spec fn has_dependency_cycle(ts: Seq<Task>) -> bool {
    exists|mark: Seq<bool>| is_dependency_loop(ts, mark)
}

/// Task `j` is reached from task `i` in at most `n` dependency steps.
pub open spec fn reaches_within(ts: Seq<Task>, i: int, j: int, n: nat) -> bool
    decreases n,
{
    if n == 0 {
        false
    } else {
        depends(ts, i, j) || exists|k: int|
            0 <= k < ts.len() && #[trigger] depends(ts, i, k) && reaches_within(ts, k, j, (n - 1) as nat)
    }
}

/// Id `x` is a dependency of task `i`, directly or through a chain of its
/// dependencies.
pub open spec fn downstream_of(ts: Seq<Task>, i: int, x: Seq<char>) -> bool {
    strings_view(ts[i].dependencies@).contains(x) || exists|j: int, n: nat|
        0 <= j < ts.len() && #[trigger] reaches_within(ts, i, j, n) && strings_view(
            ts[j].dependencies@,
        ).contains(x)
}

/// The number of tasks among the first `m` that `x` lies downstream of.
pub open spec fn blocked_by_count(ts: Seq<Task>, x: Seq<char>, m: int) -> nat
    decreases m,
{
    if m <= 0 {
        0
    } else {
        blocked_by_count(ts, x, m - 1) + if downstream_of(ts, m - 1, x) {
            1nat
        } else {
            0nat
        }
    }
}

/// How many tasks of the plan `x` lies downstream of.
pub open spec fn downstream_count(ts: Seq<Task>, x: Seq<char>) -> nat {
    blocked_by_count(ts, x, ts.len() as int)
}

/// Ranking keys for prioritizing: the downstream count of each id.
pub open spec fn priority_keys(ts: Seq<Task>, ids: Seq<Seq<char>>) -> Seq<(i128, i128)> {
    ids.map_values(|x: Seq<char>| (downstream_count(ts, x) as i128, 0i128))
}

/// Dependency-aware scheduler for plan tasks.
#[derive(Clone, Copy, Debug)]
pub struct Scheduler;

/// Whether the task with this id is present and completed.
fn completed_dep(plan: &EpicPlan, id: &String) -> (r: bool)
    ensures
        r == match task_index(plan.tasks@, id@) {
            Some(j) => plan.tasks@[j].status == TaskStatus::Completed,
            None => false,
        },
{
    match plan.get_task(id.as_str()) {
        Some(t) => t.status == TaskStatus::Completed,
        None => false,
    }
}

/// Whether task `i` depends on task `j`.
fn depends_at(ts: &Vec<Task>, i: usize, j: usize) -> (r: bool)
    requires
        i < ts@.len(),
        j < ts@.len(),
    ensures
        r == depends(ts@, i as int, j as int),
{
    let deps = &ts[i].dependencies;
    let id = &ts[j].id;
    let mut k: usize = 0;
    while k < deps.len()
        invariant
            k <= deps@.len(),
            deps == ts@[i as int].dependencies,
            id == ts@[j as int].id,
            forall|m: int| 0 <= m < k ==> (#[trigger] deps@[m])@ != id@,
        decreases deps@.len() - k,
    {
        if str_eq(deps[k].as_str(), id.as_str()) {
            assert(strings_view(deps@)[k as int] == id@);
            return true;
        }
        k += 1;
    }
    proof {
        if strings_view(deps@).contains(id@) {
            let m = choose|m: int| 0 <= m < strings_view(deps@).len() && strings_view(deps@)[m] == id@;
            assert(deps@[m]@ == id@);
        }
    }
    false
}

/// Whether `x` is among the dependencies of task `i`.
fn lists_dep(ts: &Vec<Task>, i: usize, x: &String) -> (r: bool)
    requires
        i < ts@.len(),
    ensures
        r == strings_view(ts@[i as int].dependencies@).contains(x@),
{
    let deps = &ts[i].dependencies;
    let mut k: usize = 0;
    while k < deps.len()
        invariant
            k <= deps@.len(),
            deps == ts@[i as int].dependencies,
            forall|m: int| 0 <= m < k ==> (#[trigger] deps@[m])@ != x@,
        decreases deps@.len() - k,
    {
        if str_eq(deps[k].as_str(), x.as_str()) {
            assert(strings_view(deps@)[k as int] == x@);
            return true;
        }
        k += 1;
    }
    proof {
        if strings_view(deps@).contains(x@) {
            let m = choose|m: int| 0 <= m < strings_view(deps@).len() && strings_view(deps@)[m] == x@;
            assert(deps@[m]@ == x@);
        }
    }
    false
}

/// The number of `false` marks.
pub open spec fn unmarked_count(m: Seq<bool>) -> nat
    decreases m.len(),
{
    if m.len() == 0 {
        0
    } else {
        unmarked_count(m.drop_last()) + if m.last() {
            0nat
        } else {
            1nat
        }
    }
}

proof fn lemma_unmarked_count_set(m: Seq<bool>, k: int)
    requires
        0 <= k < m.len(),
        !m[k],
    ensures
        unmarked_count(m.update(k, true)) + 1 == unmarked_count(m),
    decreases m.len(),
{
    let n = m.len() - 1;
    if k < n {
        lemma_unmarked_count_set(m.drop_last(), k);
        assert(m.update(k, true).drop_last() =~= m.drop_last().update(k, true));
    } else {
        assert(m.update(k, true).drop_last() =~= m.drop_last());
    }
}

proof fn lemma_unmarked_count_none(m: Seq<bool>)
    requires
        unmarked_count(m) == 0,
    ensures
        forall|k: int| 0 <= k < m.len() ==> #[trigger] m[k],
    decreases m.len(),
{
    if m.len() > 0 {
        lemma_unmarked_count_none(m.drop_last());
        assert forall|k: int| 0 <= k < m.len() implies #[trigger] m[k] by {
            if k < m.len() - 1 {
                assert(m.drop_last()[k] == m[k]);
            }
        }
    }
}

/// The tasks reached from task `i`: marked exactly when some chain of
/// dependencies leads there.
fn reached_from(ts: &Vec<Task>, i: usize) -> (m: Vec<bool>)
    requires
        i < ts@.len(),
    ensures
        m@.len() == ts@.len(),
        forall|j: int| 0 <= j < ts@.len() ==> (#[trigger] m@[j] <==> exists|n: nat| reaches_within(ts@, i as int, j, n)),
{
    let ghost t = ts@;
    let mut m: Vec<bool> = Vec::new();
    let mut k: usize = 0;
    while k < ts.len()
        invariant
            k <= t.len(),
            t == ts@,
            m@.len() == k,
            forall|j: int| 0 <= j < k ==> !(#[trigger] m@[j]),
        decreases t.len() - k,
    {
        m.push(false);
        k += 1;
    }
    loop
        invariant
            t == ts@,
            i < t.len(),
            m@.len() == t.len(),
            forall|j: int| 0 <= j < t.len() && #[trigger] m@[j] ==> exists|n: nat| reaches_within(t, i as int, j, n),
        ensures
            m@.len() == t.len(),
            forall|j: int| 0 <= j < t.len() && #[trigger] m@[j] ==> exists|n: nat| reaches_within(t, i as int, j, n),
            forall|j: int| 0 <= j < t.len() && depends(t, i as int, j) ==> #[trigger] m@[j],
            forall|a: int, b: int| 0 <= a < t.len() && 0 <= b < t.len() && #[trigger] m@[a] && #[trigger] depends(t, a, b) ==> m@[b],
        decreases unmarked_count(m@),
    {
        let mut changed = false;
        let ghost m0 = m@;
        let ghost mut w: int = 0;
        let mut j: usize = 0;
        while j < ts.len()
            invariant
                t == ts@,
                i < t.len(),
                j <= t.len(),
                m@.len() == t.len(),
                m0.len() == t.len(),
                forall|x: int| 0 <= x < t.len() && #[trigger] m@[x] ==> exists|n: nat| reaches_within(t, i as int, x, n),
                forall|x: int| 0 <= x < t.len() && m0[x] ==> #[trigger] m@[x],
                changed ==> 0 <= w < t.len() && !m0[w] && m@[w],
                !changed ==> m@ == m0,
                !changed ==> forall|x: int| 0 <= x < j && depends(t, i as int, x) ==> #[trigger] m@[x],
                !changed ==> forall|a: int, x: int| 0 <= a < t.len() && 0 <= x < j && #[trigger] m@[a] && #[trigger] depends(t, a, x) ==> m@[x],
            decreases t.len() - j,
        {
            if !m[j] {
                let mut hit = depends_at(ts, i, j);
                proof {
                    if hit {
                        assert(reaches_within(t, i as int, j as int, 1));
                    }
                }
                let mut a: usize = 0;
                while a < ts.len() && !hit
                    invariant
                        t == ts@,
                        i < t.len(),
                        j < t.len(),
                        a <= t.len(),
                        m@.len() == t.len(),
                        hit ==> exists|n: nat| reaches_within(t, i as int, j as int, n),
                        forall|x: int| 0 <= x < t.len() && #[trigger] m@[x] ==> exists|n: nat| reaches_within(t, i as int, x, n),
                        !hit ==> !depends(t, i as int, j as int),
                        !hit ==> forall|b: int| 0 <= b < a && #[trigger] m@[b] ==> !depends(t, b, j as int),
                    decreases t.len() - a,
                {
                    if m[a] && depends_at(ts, a, j) {
                        proof {
                            let n = choose|n: nat| reaches_within(t, i as int, a as int, n);
                            lemma_reaches_extend(t, i as int, a as int, j as int, n);
                        }
                        hit = true;
                    }
                    a += 1;
                }
                if hit {
                    proof {
                        if depends(t, i as int, j as int) {
                            assert(reaches_within(t, i as int, j as int, 1));
                        }
                    }
                    m.set(j, true);
                    proof {
                        w = j as int;
                    }
                    changed = true;
                }
            }
            j += 1;
        }
        if !changed {
            break;
        }
        proof {
            lemma_unmarked_count_le_set(m0, m@, w);
        }
    }
    proof {
        assert forall|j: int| 0 <= j < t.len() implies (#[trigger] m@[j] <==> exists|n: nat| reaches_within(t, i as int, j, n)) by {
            if exists|n: nat| reaches_within(t, i as int, j, n) {
                let n = choose|n: nat| reaches_within(t, i as int, j, n);
                lemma_closed_marks_reached(t, m@, i as int, j, n);
            }
        }
    }
    m
}

proof fn lemma_unmarked_count_le_set(a: Seq<bool>, b: Seq<bool>, w: int)
    requires
        a.len() == b.len(),
        forall|x: int| 0 <= x < a.len() && a[x] ==> #[trigger] b[x],
        0 <= w < a.len(),
        !a[w],
        b[w],
    ensures
        unmarked_count(b) < unmarked_count(a),
    decreases a.len(),
{
    let n = a.len() - 1;
    assert forall|x: int| 0 <= x < a.drop_last().len() && a.drop_last()[x] implies #[trigger] b.drop_last()[x] by {
        assert(a.drop_last()[x] == a[x] && b.drop_last()[x] == b[x]);
    }
    if w == n {
        lemma_unmarked_count_le(a.drop_last(), b.drop_last());
    } else {
        lemma_unmarked_count_le_set(a.drop_last(), b.drop_last(), w);
        assert(a[n] ==> b[n]);
    }
}

proof fn lemma_unmarked_count_le(a: Seq<bool>, b: Seq<bool>)
    requires
        a.len() == b.len(),
        forall|x: int| 0 <= x < a.len() && a[x] ==> #[trigger] b[x],
    ensures
        unmarked_count(b) <= unmarked_count(a),
    decreases a.len(),
{
    if a.len() > 0 {
        let n = a.len() - 1;
        assert forall|x: int| 0 <= x < a.drop_last().len() && a.drop_last()[x] implies #[trigger] b.drop_last()[x] by {
            assert(a.drop_last()[x] == a[x] && b.drop_last()[x] == b[x]);
        }
        lemma_unmarked_count_le(a.drop_last(), b.drop_last());
        assert(a[n] ==> b[n]);
    }
}

proof fn lemma_reaches_extend(ts: Seq<Task>, i: int, a: int, j: int, n: nat)
    requires
        reaches_within(ts, i, a, n),
        0 <= a < ts.len(),
        depends(ts, a, j),
    ensures
        reaches_within(ts, i, j, n + 1),
    decreases n,
{
    if depends(ts, i, a) {
        assert(reaches_within(ts, a, j, 1));
        assert(reaches_within(ts, i, j, 2));
        lemma_reaches_monotone(ts, i, j, 2, n + 1);
    } else {
        let k = choose|k: int| 0 <= k < ts.len() && #[trigger] depends(ts, i, k) && reaches_within(ts, k, a, (n - 1) as nat);
        lemma_reaches_extend(ts, k, a, j, (n - 1) as nat);
    }
}

proof fn lemma_reaches_monotone(ts: Seq<Task>, i: int, j: int, n: nat, m: nat)
    requires
        reaches_within(ts, i, j, n),
        n <= m,
    ensures
        reaches_within(ts, i, j, m),
    decreases n,
{
    if !depends(ts, i, j) {
        let k = choose|k: int| 0 <= k < ts.len() && #[trigger] depends(ts, i, k) && reaches_within(ts, k, j, (n - 1) as nat);
        lemma_reaches_monotone(ts, k, j, (n - 1) as nat, (m - 1) as nat);
    }
}

proof fn lemma_closed_marks_reached(ts: Seq<Task>, m: Seq<bool>, i: int, j: int, n: nat)
    requires
        m.len() == ts.len(),
        0 <= i < ts.len(),
        0 <= j < ts.len(),
        forall|x: int| 0 <= x < ts.len() && depends(ts, i, x) ==> #[trigger] m[x],
        forall|a: int, b: int| 0 <= a < ts.len() && 0 <= b < ts.len() && #[trigger] m[a] && #[trigger] depends(ts, a, b) ==> m[b],
        reaches_within(ts, i, j, n),
    ensures
        m[j],
    decreases n,
{
    if !depends(ts, i, j) {
        let k = choose|k: int| 0 <= k < ts.len() && #[trigger] depends(ts, i, k) && reaches_within(ts, k, j, (n - 1) as nat);
        lemma_marked_reach(ts, m, k, j, (n - 1) as nat);
    }
}

proof fn lemma_marked_reach(ts: Seq<Task>, m: Seq<bool>, k: int, j: int, n: nat)
    requires
        m.len() == ts.len(),
        0 <= k < ts.len(),
        0 <= j < ts.len(),
        m[k],
        forall|a: int, b: int| 0 <= a < ts.len() && 0 <= b < ts.len() && #[trigger] m[a] && #[trigger] depends(ts, a, b) ==> m[b],
        reaches_within(ts, k, j, n),
    ensures
        m[j],
    decreases n,
{
    if depends(ts, k, j) {
    } else {
        let l = choose|l: int| 0 <= l < ts.len() && #[trigger] depends(ts, k, l) && reaches_within(ts, l, j, (n - 1) as nat);
        lemma_marked_reach(ts, m, l, j, (n - 1) as nat);
    }
}

impl Scheduler {
    /// A scheduler.
    pub fn new() -> (r: Self) {
        Scheduler
    }

    /// The ids of the tasks ready to execute, in plan order: pending tasks
    /// whose every dependency names a completed task of the plan.
    pub fn next_tasks(&self, plan: &EpicPlan) -> (r: Vec<String>)
        ensures
            strings_view(r@) == task_ids(ready_tasks(plan.tasks@)),
    {
        let ghost ts = plan.tasks@;
        let ghost pred = |t: Task| is_ready(ts, t);
        let mut ready: Vec<String> = Vec::new();
        let mut i: usize = 0;
        while i < plan.tasks.len()
            invariant
                i <= ts.len(),
                ts == plan.tasks@,
                pred == (|t: Task| is_ready(ts, t)),
                strings_view(ready@) == task_ids(ts.take(i as int).filter(pred)),
            decreases ts.len() - i,
        {
            let task = &plan.tasks[i];
            proof {
                assert(ts.take(i + 1) == ts.take(i as int).push(*task));
                ts.take(i as int).lemma_filter_push(*task, pred);
            }
            let mut satisfied = task.status == TaskStatus::Pending;
            let mut k: usize = 0;
            while satisfied && k < task.dependencies.len()
                invariant
                    k <= task.dependencies@.len(),
                    ts == plan.tasks@,
                    satisfied ==> task.status == TaskStatus::Pending,
                    satisfied ==> forall|m: int| 0 <= m < k ==> match task_index(ts, (#[trigger] task.dependencies@[m])@) {
                        Some(j) => ts[j].status == TaskStatus::Completed,
                        None => false,
                    },
                    !satisfied ==> !is_ready(ts, *task),
                decreases task.dependencies@.len() - k,
            {
                if !completed_dep(plan, &task.dependencies[k]) {
                    satisfied = false;
                }
                k += 1;
            }
            let ghost before = ready@;
            if satisfied {
                let id = copy_string(&task.id);
                ready.push(id);
                proof {
                    assert(strings_view(ready@) == strings_view(before).push(id@));
                    let f = ts.take(i as int).filter(pred);
                    assert(task_ids(f.push(*task)) =~= task_ids(f).push(task.id@));
                }
            }
            i += 1;
        }
        assert(ts.take(ts.len() as int) == ts);
        ready
    }

    /// The ready ids ordered by how many tasks each lies downstream of
    /// (directly or through a chain of dependencies), most first; equal
    /// counts keep their order.
    pub fn prioritize_tasks(&self, plan: &EpicPlan, ready_task_ids: &[String]) -> (r: Vec<String>)
        ensures
            ranked_prefix(
                strings_view(r@),
                strings_view(ready_task_ids@),
                priority_keys(plan.tasks@, strings_view(ready_task_ids@)),
                ready_task_ids@.len(),
            ),
    {
        let ghost ts = plan.tasks@;
        let n = plan.tasks.len();
        let mut reach: Vec<Vec<bool>> = Vec::new();
        let mut i: usize = 0;
        while i < n
            invariant
                i <= n,
                n == ts.len(),
                ts == plan.tasks@,
                reach@.len() == i,
                forall|a: int| 0 <= a < i ==> (#[trigger] reach@[a])@.len() == n,
                forall|a: int, j: int| 0 <= a < i && 0 <= j < n ==> (#[trigger] reach@[a]@[j] <==> exists|m: nat| reaches_within(ts, a, j, m)),
            decreases n - i,
        {
            reach.push(reached_from(&plan.tasks, i));
            i += 1;
        }
        let ghost ids = strings_view(ready_task_ids@);
        let mut keys: Vec<(i128, i128)> = Vec::new();
        let mut k: usize = 0;
        while k < ready_task_ids.len()
            invariant
                k <= ready_task_ids@.len(),
                n == ts.len(),
                ts == plan.tasks@,
                ids == strings_view(ready_task_ids@),
                reach@.len() == n,
                forall|a: int| 0 <= a < n ==> (#[trigger] reach@[a])@.len() == n,
                forall|a: int, j: int| 0 <= a < n && 0 <= j < n ==> (#[trigger] reach@[a]@[j] <==> exists|m: nat| reaches_within(ts, a, j, m)),
                keys@ == priority_keys(ts, ids.take(k as int)),
            decreases ready_task_ids@.len() - k,
        {
            let x = &ready_task_ids[k];
            let mut count: usize = 0;
            let mut a: usize = 0;
            while a < n
                invariant
                    a <= n,
                    n == ts.len(),
                    ts == plan.tasks@,
                    reach@.len() == n,
                    forall|b: int| 0 <= b < n ==> (#[trigger] reach@[b])@.len() == n,
                    forall|b: int, j: int| 0 <= b < n && 0 <= j < n ==> (#[trigger] reach@[b]@[j] <==> exists|m: nat| reaches_within(ts, b, j, m)),
                    count == blocked_by_count(ts, x@, a as int),
                    count <= a,
                decreases n - a,
            {
                let mut down = lists_dep(&plan.tasks, a, x);
                let mut j: usize = 0;
                while j < n && !down
                    invariant
                        j <= n,
                        a < n,
                        n == ts.len(),
                        ts == plan.tasks@,
                        reach@.len() == n,
                        forall|b: int| 0 <= b < n ==> (#[trigger] reach@[b])@.len() == n,
                        forall|b: int, y: int| 0 <= b < n && 0 <= y < n ==> (#[trigger] reach@[b]@[y] <==> exists|m: nat| reaches_within(ts, b, y, m)),
                        down ==> downstream_of(ts, a as int, x@),
                        !down ==> !strings_view(ts[a as int].dependencies@).contains(x@),
                        !down ==> forall|y: int| 0 <= y < j && #[trigger] reach@[a as int]@[y] ==> !strings_view(ts[y].dependencies@).contains(x@),
                    decreases n - j,
                {
                    if reach[a][j] && lists_dep(&plan.tasks, j, x) {
                        proof {
                            let m = choose|m: nat| reaches_within(ts, a as int, j as int, m);
                            assert(reaches_within(ts, a as int, j as int, m) && strings_view(ts[j as int].dependencies@).contains(x@));
                        }
                        down = true;
                    }
                    j += 1;
                }
                proof {
                    if !down && downstream_of(ts, a as int, x@) {
                        let (y, m) = choose|y: int, m: nat| 0 <= y < ts.len() && #[trigger] reaches_within(ts, a as int, y, m)
                            && strings_view(ts[y].dependencies@).contains(x@);
                        assert(reach@[a as int]@[y]);
                    }
                }
                if down {
                    count += 1;
                }
                a += 1;
            }
            keys.push((count as i128, 0i128));
            proof {
                assert(ids.take(k + 1) == ids.take(k as int).push(x@));
                assert(priority_keys(ts, ids.take(k + 1)) =~= priority_keys(ts, ids.take(k as int)).push(
                    (downstream_count(ts, x@) as i128, 0i128),
                ));
            }
            k += 1;
        }
        assert(ids.take(ready_task_ids@.len() as int) == ids);
        let order = rank_order(&keys);
        let mut r: Vec<String> = Vec::new();
        let mut p: usize = 0;
        while p < order.len()
            invariant
                p <= order@.len(),
                is_rank_order(keys@, order@),
                keys@.len() == ready_task_ids@.len(),
                strings_view(r@).len() == p,
                forall|y: int| 0 <= y < p ==> #[trigger] strings_view(r@)[y] == strings_view(ready_task_ids@)[order@[y] as int],
            decreases order@.len() - p,
        {
            let ghost before = r@;
            let s = copy_string(&ready_task_ids[order[p]]);
            r.push(s);
            proof {
                assert(strings_view(r@) == strings_view(before).push(s@));
            }
            p += 1;
        }
        r
    }

    /// Whether the dependencies of the plan contain a cycle.
    pub fn has_cycles(&self, plan: &EpicPlan) -> (r: bool)
        ensures
            r == has_dependency_cycle(plan.tasks@),
    {
        let ghost ts = plan.tasks@;
        let n = plan.tasks.len();
        let (removed, Ghost(rank)) = eliminate(&plan.tasks);
        let mut any_left = false;
        let mut i: usize = 0;
        while i < n
            invariant
                i <= n,
                removed@.len() == n,
                any_left == exists|x: int| 0 <= x < i && !removed@[x],
            decreases n - i,
        {
            if !removed[i] {
                any_left = true;
            }
            i += 1;
        }
        proof {
            if any_left {
                let x = choose|x: int| 0 <= x < i && !removed@[x];
                lemma_remaining_loop(ts, removed@, x);
            } else {
                assert forall|y: int| 0 <= y < ts.len() implies #[trigger] removed@[y] by {
                    if !removed@[y] {
                        assert(0 <= y < i && !removed@[y]);
                    }
                }
                lemma_no_cycle_when_all_removed(ts, removed@, rank);
            }
        }
        any_left
    }
}

/// A task not yet removed whose dependencies all were, if there is one.
fn find_free(ts: &Vec<Task>, removed: &Vec<bool>) -> (r: Option<usize>)
    requires
        removed@.len() == ts@.len(),
    ensures
        match r {
            Some(f) => f < ts@.len() && !removed@[f as int] && forall|j: int|
                0 <= j < ts@.len() && #[trigger] depends(ts@, f as int, j) ==> removed@[j],
            None => forall|x: int|
                0 <= x < ts@.len() && !(#[trigger] removed@[x]) ==> exists|j: int|
                    0 <= j < ts@.len() && !removed@[j] && #[trigger] depends(ts@, x, j),
        },
{
    let n = ts.len();
    let mut i: usize = 0;
    while i < n
        invariant
            n == ts@.len(),
            removed@.len() == n,
            i <= n,
            forall|x: int|
                0 <= x < i && !(#[trigger] removed@[x]) ==> exists|j: int| 0 <= j < n && !removed@[j] && #[trigger] depends(ts@, x, j),
        decreases n - i,
    {
        if !removed[i] {
            let mut free = true;
            let mut j: usize = 0;
            while j < n && free
                invariant
                    n == ts@.len(),
                    removed@.len() == n,
                    i < n,
                    j <= n,
                    free ==> forall|x: int| 0 <= x < j && #[trigger] depends(ts@, i as int, x) ==> removed@[x],
                    !free ==> exists|x: int| 0 <= x < n && !removed@[x] && #[trigger] depends(ts@, i as int, x),
                decreases n - j,
            {
                if !removed[j] && depends_at(ts, i, j) {
                    free = false;
                }
                j += 1;
            }
            if free {
                return Some(i);
            }
        }
        i += 1;
    }
    None
}

/// Removes tasks one at a time, each once all its dependencies are removed,
/// until none can be; `rank` records the removal order.
fn eliminate(ts: &Vec<Task>) -> (r: (Vec<bool>, Ghost<Seq<nat>>))
    ensures
        r.0@.len() == ts@.len(),
        r.1@.len() == ts@.len(),
        forall|i: int, j: int|
            0 <= i < ts@.len() && 0 <= j < ts@.len() && #[trigger] r.0@[i] && #[trigger] depends(ts@, i, j)
                ==> r.0@[j] && r.1@[j] < r.1@[i],
        forall|i: int|
            0 <= i < ts@.len() && !(#[trigger] r.0@[i]) ==> exists|j: int|
                0 <= j < ts@.len() && !r.0@[j] && #[trigger] depends(ts@, i, j),
{
    let n = ts.len();
    let mut removed: Vec<bool> = Vec::new();
    let ghost mut rank: Seq<nat> = Seq::empty();
    let mut k: usize = 0;
    while k < n
        invariant
            k <= n,
            n == ts@.len(),
            removed@.len() == k,
            rank.len() == k,
            forall|j: int| 0 <= j < k ==> !(#[trigger] removed@[j]),
        decreases n - k,
    {
        removed.push(false);
        proof {
            rank = rank.push(0);
        }
        k += 1;
    }
    let ghost mut count: nat = 0;
    loop
        invariant
            n == ts@.len(),
            removed@.len() == n,
            rank.len() == n,
            forall|i: int| 0 <= i < n && #[trigger] removed@[i] ==> rank[i] <= count,
            forall|i: int, j: int|
                0 <= i < n && 0 <= j < n && #[trigger] removed@[i] && #[trigger] depends(ts@, i, j) ==> removed@[j]
                    && rank[j] < rank[i],
        ensures
            removed@.len() == n,
            rank.len() == n,
            forall|i: int, j: int|
                0 <= i < n && 0 <= j < n && #[trigger] removed@[i] && #[trigger] depends(ts@, i, j) ==> removed@[j]
                    && rank[j] < rank[i],
            forall|i: int|
                0 <= i < n && !(#[trigger] removed@[i]) ==> exists|j: int| 0 <= j < n && !removed@[j] && #[trigger] depends(ts@, i, j),
        decreases unmarked_count(removed@),
    {
        match find_free(ts, &removed) {
            Some(f) => {
                let ghost before = removed@;
                removed.set(f, true);
                proof {
                    let old_rank = rank;
                    rank = rank.update(f as int, count + 1);
                    count = count + 1;
                    lemma_unmarked_count_set(before, f as int);
                    assert(removed@ == before.update(f as int, true));
                    assert forall|a: int, b: int|
                        0 <= a < n && 0 <= b < n && #[trigger] removed@[a] && #[trigger] depends(ts@, a, b)
                            implies removed@[b] && rank[b] < rank[a] by {
                        if a == f as int {
                            assert(before[b]);
                            assert(b != f as int);
                            assert(old_rank[b] <= count - 1);
                        } else {
                            assert(before[a]);
                            assert(before[b] && old_rank[b] < old_rank[a]);
                            assert(b != f as int);
                        }
                    }
                }
            },
            None => {
                break;
            },
        }
    }
    (removed, Ghost(rank))
}

/// Tasks that could not be removed form a dependency loop.
proof fn lemma_remaining_loop(ts: Seq<Task>, removed: Seq<bool>, x: int)
    requires
        removed.len() == ts.len(),
        0 <= x < ts.len(),
        !removed[x],
        forall|i: int|
            0 <= i < ts.len() && !(#[trigger] removed[i]) ==> exists|j: int|
                0 <= j < ts.len() && !removed[j] && #[trigger] depends(ts, i, j),
    ensures
        has_dependency_cycle(ts),
{
    let mark = removed.map_values(|b: bool| !b);
    assert(mark[x]);
    assert forall|a: int| 0 <= a < mark.len() && #[trigger] mark[a] implies exists|b: int|
        0 <= b < mark.len() && mark[b] && #[trigger] depends(ts, a, b) by {
        assert(!removed[a]);
        let b = choose|b: int| 0 <= b < ts.len() && !removed[b] && #[trigger] depends(ts, a, b);
        assert(mark[b]);
    }
    assert(is_dependency_loop(ts, mark));
}

/// When every task was removed after its dependencies, there is no loop.
proof fn lemma_no_cycle_when_all_removed(ts: Seq<Task>, removed: Seq<bool>, rank: Seq<nat>)
    requires
        removed.len() == ts.len(),
        rank.len() == ts.len(),
        forall|i: int| 0 <= i < ts.len() ==> #[trigger] removed[i],
        forall|i: int, j: int|
            0 <= i < ts.len() && 0 <= j < ts.len() && #[trigger] removed[i] && #[trigger] depends(ts, i, j) ==> removed[j]
                && rank[j] < rank[i],
    ensures
        !has_dependency_cycle(ts),
{
    if has_dependency_cycle(ts) {
        let mark = choose|mark: Seq<bool>| is_dependency_loop(ts, mark);
        let x = choose|x: int| 0 <= x < mark.len() && mark[x];
        lemma_removed_outside_loops(ts, removed, rank, mark, x);
    }
}

/// When every task was removed, each only after its dependencies, no task
/// belongs to a dependency loop.
proof fn lemma_removed_outside_loops(ts: Seq<Task>, removed: Seq<bool>, rank: Seq<nat>, mark: Seq<bool>, x: int)
    requires
        removed.len() == ts.len(),
        rank.len() == ts.len(),
        forall|i: int| 0 <= i < ts.len() ==> #[trigger] removed[i],
        forall|i: int, j: int|
            0 <= i < ts.len() && 0 <= j < ts.len() && #[trigger] removed[i] && #[trigger] depends(ts, i, j) ==> removed[j]
                && rank[j] < rank[i],
        is_dependency_loop(ts, mark),
        0 <= x < mark.len(),
    ensures
        !mark[x],
    decreases rank[x],
{
    if mark[x] {
        let j = choose|j: int| 0 <= j < mark.len() && mark[j] && #[trigger] depends(ts, x, j);
        assert(removed[x]);
        lemma_removed_outside_loops(ts, removed, rank, mark, j);
    }
}

} // verus!
