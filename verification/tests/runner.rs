use oxidizedgraph::graph::END;
use oxidizedgraph::runner::{RunAction, RunProgress, RunnerConfig};
use oxidizedgraph::runtime::RuntimeConfig;

#[test]
fn test_runner_config() {
    let config = RunnerConfig::new().max_iterations(50).verbose(true).tag("test").tag("example");
    assert_eq!(config.max_iterations, 50);
    assert!(config.verbose);
    assert_eq!(config.tags, vec!["test", "example"]);
}

#[test]
fn test_runtime_config() {
    let config = RuntimeConfig::new().recursion_limit(50).thread_id("thread-123").tag("test").tag("example").streaming(false);
    assert_eq!(config.recursion_limit, 50);
    assert_eq!(config.thread_id, Some("thread-123".to_string()));
    assert!(config.tags.contains(&"test".to_string()));
    assert!(!config.stream);
}

#[test]
fn runtime_tags_are_kept_once() {
    let config = RuntimeConfig::new().tag("a").tag("b").tag("a");
    assert_eq!(config.tags, vec!["a", "b"]);
}

#[test]
fn test_max_iterations() {
    let config = RunnerConfig::default().max_iterations(5);
    let mut progress = RunProgress::start("infinite");
    let mut executed = 0;
    loop {
        match progress.next_action(&config) {
            RunAction::Execute(node) => {
                executed += 1;
                progress.advance(node.as_str());
            }
            RunAction::RecursionLimit(n) => {
                assert_eq!(n, 5);
                break;
            }
            RunAction::Done => panic!("a self-loop never ends"),
        }
    }
    assert_eq!(executed, 5);
}

#[test]
fn run_ends_at_end_marker() {
    let config = RunnerConfig::new();
    let mut progress = RunProgress::start("a");
    assert!(matches!(progress.next_action(&config), RunAction::Execute(ref n) if n == "a"));
    progress.advance(END);
    assert!(matches!(progress.next_action(&config), RunAction::Done));
    assert_eq!(progress.iterations, 1);
}

#[test]
fn runner_config_tags_extend() {
    let config = RunnerConfig::new().tag("x").tags(&vec!["y".to_string(), "z".to_string()]);
    assert_eq!(config.tags, vec!["x", "y", "z"]);
    assert_eq!(config.max_iterations, 100);
    assert_eq!(RunnerConfig::new().recursion_limit(7).max_iterations, 7);
}

#[test]
fn run_reaching_the_end_after_exactly_the_limit_succeeds() {
    let config = RunnerConfig::new().max_iterations(2);
    let mut progress = RunProgress::start("a");
    assert!(matches!(progress.next_action(&config), RunAction::Execute(_)));
    progress.advance("b");
    assert!(matches!(progress.next_action(&config), RunAction::Execute(_)));
    progress.advance(END);
    assert_eq!(progress.iterations, 2);
    assert!(matches!(progress.next_action(&config), RunAction::Done));
}

#[test]
fn runtime_limit_bounds_a_self_loop() {
    let config = RuntimeConfig::new().recursion_limit(5);
    let mut progress = RunProgress::start("loop");
    let mut executed = 0;
    loop {
        match progress.next_action_within(config.recursion_limit) {
            RunAction::Execute(node) => {
                executed += 1;
                progress.advance(node.as_str());
            }
            RunAction::RecursionLimit(n) => {
                assert_eq!(n, 5);
                break;
            }
            RunAction::Done => panic!("a self-loop never ends"),
        }
    }
    assert_eq!(executed, 5);
}
