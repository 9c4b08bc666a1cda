use oxidizedgraph::planning::node::{PlanningNode, SchedulerNode, CYCLIC_PLAN, DEFAULT_GOAL};
use oxidizedgraph::planning::plan::{EpicPlan, Task, TaskStatus};
use oxidizedgraph::planning::progress::PlanTally;
use oxidizedgraph::planning::scheduler::Scheduler;
use oxidizedgraph::planning::self_healing::{classify_failure, FailureClass};

fn task(id: &str) -> Task {
    Task::new(id, id, id)
}

#[test]
fn recovery_unblocks_downstream_tasks() {
    let mut plan = EpicPlan::new("goal");
    plan.add_task(task("a"));
    plan.add_task(task("b").depends_on("a"));
    plan.add_task(task("c").depends_on("b"));

    plan.get_task_mut("a").unwrap().status = TaskStatus::Failed;
    plan.get_task_mut("a").unwrap().error = Some("boom".into());
    plan.propagate_blocked_status();
    assert_eq!(plan.get_task("b").unwrap().status, TaskStatus::Blocked);
    assert_eq!(plan.get_task("c").unwrap().status, TaskStatus::Blocked);

    assert!(plan.inject_recovery_task("a", task("a_recover")));
    assert_eq!(plan.get_task("a").unwrap().status, TaskStatus::Pending);
    assert_eq!(plan.get_task("b").unwrap().status, TaskStatus::Pending, "b must un-block once its upstream is recovered");
    assert_eq!(plan.get_task("c").unwrap().status, TaskStatus::Pending, "c must un-block transitively");
}

#[test]
fn propagate_keeps_blocking_on_unrecovered_failure() {
    let mut plan = EpicPlan::new("goal");
    plan.add_task(task("ok"));
    plan.add_task(task("bad"));
    plan.add_task(task("dep").depends_on("ok").depends_on("bad"));

    plan.get_task_mut("bad").unwrap().status = TaskStatus::Failed;
    plan.propagate_blocked_status();
    assert_eq!(plan.get_task("dep").unwrap().status, TaskStatus::Blocked);

    plan.propagate_blocked_status();
    assert_eq!(plan.get_task("dep").unwrap().status, TaskStatus::Blocked);
}

#[test]
fn adding_a_task_again_replaces_it() {
    let mut plan = EpicPlan::new("goal");
    plan.add_task(task("a"));
    plan.add_task(task("b"));
    plan.add_task(Task::new("a", "renamed", "x"));
    assert_eq!(plan.tasks.len(), 2);
    assert_eq!(plan.tasks[1].name, "renamed");
    assert!(plan.get_task("zzz").is_none());
}

#[test]
fn update_status_reports_unknown_ids() {
    let mut plan = EpicPlan::new("goal");
    plan.add_task(task("a"));
    assert!(plan.update_task_status("a", TaskStatus::Running));
    assert!(plan.get_task("a").unwrap().started_at.is_some());
    assert!(!plan.update_task_status("nope", TaskStatus::Completed));
}

#[test]
fn scheduler_finds_ready_tasks_and_cycles() {
    let mut plan = EpicPlan::new("goal");
    plan.add_task(task("a"));
    plan.add_task(task("b").depends_on("a"));
    let s = Scheduler::new();
    assert_eq!(s.next_tasks(&plan), vec!["a"]);
    assert!(!s.has_cycles(&plan));
    plan.update_task_status("a", TaskStatus::Completed);
    assert_eq!(s.next_tasks(&plan), vec!["b"]);

    let mut cyclic = EpicPlan::new("loop");
    cyclic.add_task(task("x").depends_on("y"));
    cyclic.add_task(task("y").depends_on("x"));
    assert!(s.has_cycles(&cyclic));
}

#[test]
fn prioritize_puts_most_downstream_first() {
    let mut plan = EpicPlan::new("goal");
    plan.add_task(task("leaf"));
    plan.add_task(task("root"));
    plan.add_task(task("mid").depends_on("root"));
    plan.add_task(task("top").depends_on("mid"));
    let s = Scheduler::new();
    let ready = vec!["leaf".to_string(), "root".to_string()];
    assert_eq!(s.prioritize_tasks(&plan, &ready), vec!["root", "leaf"]);
}

#[test]
fn planning_node_uses_default_goal_and_tasks() {
    let node = PlanningNode::new("planner");
    let plan = node.plan(None, None);
    assert_eq!(plan.goal, DEFAULT_GOAL);
    assert_eq!(plan.tasks.len(), 2);
    assert_eq!(plan.tasks[1].dependencies, vec!["task1"]);
}

#[test]
fn scheduler_node_refuses_cycles() {
    let node = SchedulerNode::new("scheduler");
    let mut cyclic = EpicPlan::new("loop");
    cyclic.add_task(task("x").depends_on("y"));
    cyclic.add_task(task("y").depends_on("x"));
    assert_eq!(node.step(&mut cyclic).unwrap_err(), CYCLIC_PLAN);
}

#[test]
fn scheduler_node_runs_ready_task_then_completes() {
    let node = SchedulerNode::new("scheduler");
    let mut plan = EpicPlan::new("goal");
    plan.add_task(task("a"));
    let step = node.step(&mut plan).unwrap();
    assert_eq!(step.current_task_id, Some("a".to_string()));
    assert_eq!(plan.get_task("a").unwrap().status, TaskStatus::Running);
    plan.update_task_status("a", TaskStatus::Completed);
    let done = node.step(&mut plan).unwrap();
    assert!(done.is_complete);
}

#[test]
fn scheduler_node_injects_registered_recovery() {
    let node = SchedulerNode::new("scheduler").register_recovery("a", task("a_fix"));
    let mut plan = EpicPlan::new("goal");
    plan.add_task(task("a"));
    plan.update_task_status("a", TaskStatus::Failed);
    let step = node.step(&mut plan).unwrap();
    assert_eq!(step.injected, vec!["a"]);
    assert_eq!(step.output.target(), Some("replan_injected"));
    assert!(plan.get_task("a_fix").is_some());
}

#[test]
fn tally_counts_statuses() {
    let mut plan = EpicPlan::new("goal");
    plan.add_task(task("a").with_estimate(10));
    plan.add_task(task("b").with_estimate(20));
    plan.add_task(task("c"));
    plan.update_task_status("a", TaskStatus::Completed);
    plan.update_task_status("b", TaskStatus::Failed);
    let t = PlanTally::of(&plan);
    assert_eq!((t.total, t.completed, t.failed, t.pending), (3, 1, 1, 1));
    assert_eq!((t.estimate_secs, t.estimate_count), (30, 2));
}

#[test]
fn failures_are_classified_by_phrase() {
    assert_eq!(classify_failure("Compilation FAILED in module"), FailureClass::Compile);
    assert_eq!(classify_failure("assertion failed: x == y"), FailureClass::Test);
    assert_eq!(classify_failure("Connection refused by host"), FailureClass::Integration);
    assert_eq!(classify_failure("thread panicked while running"), FailureClass::Runtime);
    assert_eq!(classify_failure("something odd"), FailureClass::Unknown);
    assert_eq!(FailureClass::Compile.as_str(), "compile");
}
