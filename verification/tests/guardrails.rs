use oxidizedgraph::guardrails::findings::{FindingSeverity, GateResult, ReviewFinding};
use oxidizedgraph::guardrails::gate::{decide_gate, gate_result_from_runs, CheckRun, CommandSpec, GateOutcome, MockCommandRunner, QualityGateConfig};
use oxidizedgraph::guardrails::risk::{ChangeRisk, RiskClassifier, RiskLevel};

fn one_check(block_on_failure: bool) -> QualityGateConfig {
    QualityGateConfig {
        checks: vec![CommandSpec { name: "mock_check".to_string(), program: "true".to_string(), args: vec![] }],
        block_on_failure,
    }
}

fn run_gate(
    config: &QualityGateConfig,
    runner: &MockCommandRunner,
    external: Option<Vec<ReviewFinding>>,
    change: Option<ChangeRisk>,
) -> GateOutcome {
    let runs: Vec<CheckRun> = config.checks.iter().map(|c| CheckRun { outcome: runner.run(c), duration_ms: 1 }).collect();
    let result = gate_result_from_runs(&config.checks, &runs);
    decide_gate(result, external, change, config.block_on_failure, &RiskClassifier::new())
}

#[test]
fn test_high_risk_destructive_git() {
    let classifier = RiskClassifier::new();
    let level = classifier.classify(&ChangeRisk { destructive_git: true, ..Default::default() });
    assert_eq!(level, RiskLevel::High);
}

#[test]
fn test_merge_blocker_on_failed_gates() {
    let classifier = RiskClassifier::new();
    let blocker = classifier.merge_blocker(false, RiskLevel::Low);
    assert!(blocker.blocked);
}

#[test]
fn test_quality_gate_pass_routes_passed() {
    let runner = MockCommandRunner::new().with_result("mock_check", 0, "ok");
    let outcome = run_gate(&one_check(true), &runner, None, None);
    assert_eq!(outcome.route, "passed");
    assert!(outcome.gate_result.passed);
}

#[test]
fn test_quality_gate_fail_routes_gate_failed() {
    let runner = MockCommandRunner::new().with_result("mock_check", 1, "failed");
    let outcome = run_gate(&one_check(true), &runner, None, None);
    assert_eq!(outcome.route, "gate_failed");
    assert_eq!(outcome.gate_result.findings.len(), 1);
    assert_eq!(outcome.gate_result.findings[0].rule_id, "gate.mock_check");
    assert_eq!(outcome.gate_result.findings[0].message, "Check 'mock_check' failed with exit code 1");
}

#[test]
fn test_high_risk_requires_approval_even_when_gates_pass() {
    let runner = MockCommandRunner::new().with_result("mock_check", 0, "ok");
    let change = ChangeRisk { destructive_git: true, ..Default::default() };
    let outcome = run_gate(&one_check(true), &runner, None, Some(change));
    assert_eq!(outcome.route, "needs_approval");
}

#[test]
fn test_medium_risk_routes_review_when_gates_pass() {
    let runner = MockCommandRunner::new().with_result("mock_check", 0, "ok");
    let change = ChangeRisk { files_changed: 10, used_shell: true, ..Default::default() };
    let outcome = run_gate(&one_check(true), &runner, None, Some(change));
    assert_eq!(outcome.route, "review");
    assert_eq!(outcome.risk, RiskLevel::Medium);
}

#[test]
fn test_non_blocking_failure_routes_gate_failed_but_advisory() {
    let runner = MockCommandRunner::new().with_result("mock_check", 1, "failed");
    let outcome = run_gate(&one_check(false), &runner, None, None);
    assert_eq!(outcome.route, "gate_failed");
    assert!(!outcome.gate_result.passed);
    assert!(!outcome.merge_blocker.blocked, "non-blocking failure should be advisory");
}

#[test]
fn test_external_error_finding_fails_passing_gate() {
    let runner = MockCommandRunner::new().with_result("mock_check", 0, "ok");
    let external = vec![ReviewFinding::error("auditor.security", "hardcoded credential in src/main.rs")];
    let outcome = run_gate(&one_check(true), &runner, Some(external), None);
    assert_eq!(outcome.route, "gate_failed");
    assert!(!outcome.gate_result.passed);
    assert!(outcome.merge_blocker.blocked, "Error finding must block merge");
}

#[test]
fn missing_mock_result_is_a_runner_error() {
    let runner = MockCommandRunner::new();
    let spec = CommandSpec { name: "absent".to_string(), program: "x".to_string(), args: vec![] };
    assert!(runner.run(&spec).is_err());
    let outcome = run_gate(&one_check(true), &runner, None, None);
    assert_eq!(outcome.route, "gate_failed");
}

#[test]
fn gate_result_counts_errors() {
    let r = GateResult::fail(vec![], vec![ReviewFinding::error("a", "b"), ReviewFinding::error("c", "d")]);
    assert_eq!(r.count_errors(), 2);
    assert!(r.merge_blocked);
    assert_eq!(r.findings[0].severity, FindingSeverity::Error);
    let p = GateResult::pass(vec![]);
    assert!(p.passed);
    assert_eq!(p.count_errors(), 0);
}

#[test]
fn approval_routes_by_risk() {
    assert_eq!(RiskClassifier::approval_route(RiskLevel::High, true), "needs_approval");
    assert_eq!(RiskClassifier::approval_route(RiskLevel::Medium, true), "review");
    assert_eq!(RiskClassifier::approval_route(RiskLevel::Low, true), "passed");
    assert_eq!(RiskClassifier::approval_route(RiskLevel::Low, false), "gate_failed");
}

#[test]
fn rust_default_checks() {
    let c = QualityGateConfig::rust_defaults();
    assert!(c.block_on_failure);
    assert!(!c.checks.is_empty());
}

#[test]
fn gate_merge_blocker_reasons() {
    let config = one_check(true);
    let failing = MockCommandRunner::new().with_result("mock_check", 1, "boom");
    let out = run_gate(&config, &failing, None, None);
    assert!(out.merge_blocker.blocked);
    assert_eq!(out.merge_blocker.reason, "Required quality gates failed");

    let passing = MockCommandRunner::new().with_result("mock_check", 0, "ok");
    let risky = ChangeRisk { destructive_git: true, ..Default::default() };
    let out = run_gate(&config, &passing, None, Some(risky));
    assert!(out.merge_blocker.blocked);
    assert_eq!(out.merge_blocker.reason, "High-risk change requires explicit human approval");

    let out = run_gate(&config, &passing, None, None);
    assert!(!out.merge_blocker.blocked);
    assert_eq!(out.merge_blocker.reason, "");

    let lenient = one_check(false);
    let out = run_gate(&lenient, &failing, None, None);
    assert!(!out.merge_blocker.blocked);
    assert_eq!(out.merge_blocker.reason, "");
}
