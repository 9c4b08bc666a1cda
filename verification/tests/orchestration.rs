use oxidizedgraph::orchestration::merge::{context_subset, merge_context, merge_context_for_keys, subgraph_position};
use oxidizedgraph::orchestration::parallel::{JoinProgress, JoinStep, JoinStrategy};
use oxidizedgraph::orchestration::spawner::SubgraphSpawner;
use oxidizedgraph::runner::RunnerConfig;

#[test]
fn test_generate_id() {
    let mut spawner = SubgraphSpawner::new();
    let id1 = spawner.generate_id("test");
    let id2 = spawner.generate_id("test");
    assert_eq!(id1, "test-0");
    assert_eq!(id2, "test-1");
    assert_ne!(id1, id2);
}

#[test]
fn spawner_tracks_active_subgraphs() {
    let mut spawner = SubgraphSpawner::new().with_config(RunnerConfig::new().max_iterations(7));
    assert_eq!(spawner.config().max_iterations, 7);
    assert!(!spawner.has_active());
    spawner.register("a");
    spawner.register("b");
    spawner.register("a");
    assert_eq!(spawner.active_count(), 2);
    assert_eq!(spawner.active_ids(), vec!["a", "b"]);
    spawner.complete("a");
    assert_eq!(spawner.active_ids(), vec!["b"]);
    spawner.complete("missing");
    assert_eq!(spawner.active_count(), 1);
    spawner.complete("b");
    assert!(!spawner.has_active());
}

fn run(strategy: JoinStrategy, outcomes: &[(bool, bool)]) -> Vec<usize> {
    let mut p = JoinProgress::start(strategy, outcomes.len());
    let mut awaited = Vec::new();
    loop {
        match p.next_step() {
            JoinStep::Await(i) => {
                awaited.push(i);
                let (completed, failed) = outcomes[i];
                p = p.record(completed, failed);
            }
            JoinStep::Race => {
                awaited.push(usize::MAX);
                p = p.record(true, false);
            }
            JoinStep::Done => return awaited,
        }
    }
}

#[test]
fn join_strategies_decide_what_is_awaited() {
    let outcomes = [(true, false), (false, true), (true, false)];
    assert_eq!(run(JoinStrategy::WaitAll, &outcomes), vec![0, 1, 2]);
    assert_eq!(run(JoinStrategy::FailFast, &outcomes), vec![0, 1]);
    assert_eq!(run(JoinStrategy::WaitN(1), &outcomes), vec![0]);
    assert_eq!(run(JoinStrategy::WaitN(2), &outcomes), vec![0, 1, 2]);
    assert_eq!(run(JoinStrategy::WaitFirst, &outcomes), vec![usize::MAX]);
    assert_eq!(run(JoinStrategy::WaitFirst, &[]), Vec::<usize>::new());
    assert_eq!(JoinStrategy::default(), JoinStrategy::WaitAll);
}

fn entries(pairs: &[(&str, &str)]) -> Vec<(String, String)> {
    pairs.iter().map(|(k, v)| (k.to_string(), v.to_string())).collect()
}

fn lookup<'a>(context: &'a [(String, String)], key: &str) -> Option<&'a str> {
    context.iter().rev().find(|(k, _)| k == key).map(|(_, v)| v.as_str())
}

#[test]
fn context_subset_keeps_only_the_named_keys() {
    let parent = entries(&[("a", "1"), ("b", "2"), ("c", "3")]);
    let keys = vec!["a".to_string(), "c".to_string(), "missing".to_string()];
    let child = context_subset(&parent, &keys);
    assert_eq!(lookup(&child, "a"), Some("1"));
    assert_eq!(lookup(&child, "c"), Some("3"));
    assert_eq!(lookup(&child, "b"), None);
    assert_eq!(lookup(&child, "missing"), None);
}

#[test]
fn merge_context_prefers_the_child_value() {
    let mut parent = entries(&[("a", "1"), ("b", "2")]);
    let child = entries(&[("b", "20"), ("c", "30")]);
    merge_context(&mut parent, &child);
    assert_eq!(lookup(&parent, "a"), Some("1"));
    assert_eq!(lookup(&parent, "b"), Some("20"));
    assert_eq!(lookup(&parent, "c"), Some("30"));
}

#[test]
fn merge_context_for_keys_ignores_other_child_entries() {
    let mut parent = entries(&[("a", "1")]);
    let child = entries(&[("a", "10"), ("b", "20")]);
    merge_context_for_keys(&mut parent, &child, &vec!["b".to_string()]);
    assert_eq!(lookup(&parent, "a"), Some("1"));
    assert_eq!(lookup(&parent, "b"), Some("20"));
}

#[test]
fn subgraph_position_finds_the_first_match() {
    let ids = vec!["a".to_string(), "b".to_string(), "b".to_string()];
    assert_eq!(subgraph_position(&ids, "b"), Some(1));
    assert_eq!(subgraph_position(&ids, "z"), None);
}
