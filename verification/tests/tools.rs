use oxidizedgraph::tools::policy::{PolicyDecision, ToolExecutionPolicy, ToolPolicyEngine};
use oxidizedgraph::tools::sandbox::{SandboxConfig, SandboxError, SubprocessSandbox};

#[test]
fn test_deny_unknown_tool() {
    let engine = ToolPolicyEngine::new(ToolExecutionPolicy::default());
    let result = engine.evaluate("unknown_tool", None);
    assert!(result.is_err());
}

#[test]
fn test_block_dangerous_command() {
    let engine = ToolPolicyEngine::new(ToolExecutionPolicy::permissive());
    let result = engine.evaluate("shell", Some("sudo rm -rf /"));
    assert!(result.is_err());
}

#[test]
fn test_require_approval() {
    let policy = ToolExecutionPolicy::permissive().require_approval("git_push");
    let engine = ToolPolicyEngine::new(policy);
    assert_eq!(engine.evaluate("git_push", None).unwrap(), PolicyDecision::RequireApproval);
}

#[test]
fn denied_tool_is_denied_even_with_approval() {
    let policy = ToolExecutionPolicy::permissive().require_approval("shell").deny_tool("shell");
    let engine = ToolPolicyEngine::new(policy);
    assert_eq!(engine.evaluate("shell", None).unwrap(), PolicyDecision::Deny);
}

#[test]
fn sandbox_config_defaults_and_timeouts() {
    let c = SandboxConfig::default();
    assert_eq!((c.timeout_secs, c.timeout_nanos), (30, 0));
    assert!(c.allowed_roots.is_empty());
    let t = SandboxConfig::with_timeout(0, 1_500_000_000);
    assert_eq!((t.timeout_secs, t.timeout_nanos), (1, 500_000_000));
    let r = SandboxConfig::with_timeout(5, 0).with_root("/tmp/work");
    assert_eq!(r.allowed_roots, vec!["/tmp/work".to_string()]);
    assert_eq!(r.timeout_secs, 5);
}

#[test]
fn sandbox_without_roots_allows_any_dir() {
    let sandbox = SubprocessSandbox::new(SandboxConfig::default());
    assert!(!sandbox.restricts_working_dir());
    let verdict = sandbox.validate_working_dir(&Err("no such dir".to_string()), &vec![]);
    assert!(verdict.is_ok());
}

#[test]
fn sandbox_checks_roots_in_order() {
    let sandbox = SubprocessSandbox::new(SandboxConfig::default().with_root("/a").with_root("/b"));
    assert!(sandbox.restricts_working_dir());
    let roots = vec![Ok("/a".to_string()), Ok("/b".to_string())];
    assert!(sandbox.validate_working_dir(&Ok("/b/c".to_string()), &roots).is_ok());
    assert!(sandbox.validate_working_dir(&Ok("/a".to_string()), &roots).is_ok());
    match sandbox.validate_working_dir(&Ok("/ab".to_string()), &roots) {
        Err(SandboxError::InvalidWorkingDir(m)) => assert_eq!(m, "\"/ab\" not under allowed roots"),
        other => panic!("unexpected {:?}", other),
    }
    match sandbox.validate_working_dir(&Err("missing".to_string()), &roots) {
        Err(SandboxError::InvalidWorkingDir(m)) => assert_eq!(m, "missing"),
        other => panic!("unexpected {:?}", other),
    }
    let bad_first = vec![Err("root gone".to_string()), Ok("/b".to_string())];
    match sandbox.validate_working_dir(&Ok("/b/c".to_string()), &bad_first) {
        Err(SandboxError::InvalidWorkingDir(m)) => assert_eq!(m, "root gone"),
        other => panic!("unexpected {:?}", other),
    }
}

#[test]
fn sandbox_command_result_trims_or_fails() {
    match SubprocessSandbox::command_result(true, "  hello\n", "") {
        Ok(out) => assert_eq!(out, "hello"),
        Err(e) => panic!("unexpected {:?}", e),
    }
    match SubprocessSandbox::command_result(false, "out", "bad thing") {
        Err(SandboxError::CommandFailed(m)) => assert_eq!(m, "bad thing"),
        other => panic!("unexpected {:?}", other),
    }
}

#[test]
fn sandbox_error_messages() {
    let sandbox = SubprocessSandbox::new(SandboxConfig::with_timeout(0, 50_000_000));
    let e = sandbox.timeout_error();
    assert!(matches!(e, SandboxError::Timeout(0, 50_000_000)));
    assert_eq!(e.message(), "Command timed out after 50ms");
    assert_eq!(SandboxError::CommandFailed("x".into()).message(), "Command failed: x");
    assert_eq!(
        SandboxError::InvalidWorkingDir("y".into()).message(),
        "Working directory not allowed: y"
    );
}
