use oxidizedgraph::node::NodeResult;
use oxidizedgraph::nodes::basic::{ContextRouterNode, DelayNode, EchoNode, StaticTransitionNode};
use oxidizedgraph::nodes::quality::{ChangeRiskClassifierNode, QualityGateNode, QualityReport, ReviewFinding, RiskLevel, Severity};
use oxidizedgraph::message::ToolResult as MessageToolResult;
use oxidizedgraph::nodes::llm::{apply_response, LLMResponse, StopReason};
use oxidizedgraph::nodes::tool::{missing_tool_result, record_tool_results, ToolResult};
use oxidizedgraph::state::{AgentState, MessageRole, ToolCall};

#[test]
fn test_tool_result() {
    let result = ToolResult::success("call_1", "Success!");
    assert!(result.is_success());
    assert_eq!(result.as_str(), "Success!");

    let result = ToolResult::error("call_2", "Failed");
    assert!(!result.is_success());
    assert_eq!(result.as_str(), "Failed");
}

#[test]
fn tool_result_without_content_or_error_is_empty() {
    let r = ToolResult { tool_call_id: "c".to_string(), content: None, error: None };
    assert!(!r.is_success());
    assert_eq!(r.as_str(), "");
}

#[test]
fn message_tool_results() {
    let ok = MessageToolResult::success("id1", "done");
    assert!(!ok.is_error);
    assert_eq!(ok.content, "done");
    let bad = MessageToolResult::error("id2", "boom");
    assert!(bad.is_error);
    assert_eq!(bad.content, "boom");
    assert_eq!(bad.tool_call_id, "id2");
}

#[test]
fn test_echo_node() {
    let node = EchoNode::new("echo", "Hello, World!");
    let (write, output) = node.execute();
    assert!(!output.is_terminal());
    assert_eq!(write.key, "echo");
    assert_eq!(write.value, "Hello, World!");
}

#[test]
fn test_delay_node() {
    let node = DelayNode::from_millis("delay", 10);
    assert_eq!(node.node_id(), "delay");
    assert_eq!((node.secs, node.nanos), (0, 10_000_000));
    assert!(!node.execute().is_terminal());
    let whole = DelayNode::from_secs("wait", 2);
    assert_eq!((whole.node_id(), whole.secs, whole.nanos), ("wait", 2, 0));
    let long = DelayNode::new("long", 1, 2_500_000_000);
    assert_eq!((long.secs, long.nanos), (3, 500_000_000));
}

#[test]
fn test_static_transition_node() {
    let node = StaticTransitionNode::new("transit", "next_node");
    assert_eq!(node.execute().target(), Some("next_node"));
}

#[test]
fn test_static_transition_to_end() {
    let node = StaticTransitionNode::to_end("end_transit");
    assert!(node.execute().is_terminal());
}

#[test]
fn test_context_router_node() {
    let node = ContextRouterNode::new("router", "action")
        .route("process", "process_node")
        .route("complete", "complete_node")
        .default_route("fallback_node");
    assert_eq!(node.execute(Some("process")).target(), Some("process_node"));
    assert_eq!(node.execute(Some("unknown")).target(), Some("fallback_node"));
    let bare = ContextRouterNode::new("router", "action");
    assert!(bare.execute(None).is_terminal());
}

#[test]
fn test_quality_report_mergeable() {
    let mut report = QualityReport::default();
    assert!(report.is_mergeable());

    report.findings.push(ReviewFinding {
        severity: Severity::Warning,
        file: "src/main.rs".to_string(),
        line: Some(10),
        message: "Unused variable".to_string(),
        rule_id: "W001".to_string(),
    });
    assert!(report.is_mergeable());

    report.findings.push(ReviewFinding {
        severity: Severity::Error,
        file: "src/main.rs".to_string(),
        line: None,
        message: "Syntax error".to_string(),
        rule_id: "E001".to_string(),
    });
    assert!(!report.is_mergeable());

    report.findings.clear();
    report.failed_checks.push("test-suite".to_string());
    assert!(!report.is_mergeable());
}

#[test]
fn test_quality_gate_node() {
    let node = QualityGateNode::new("quality_gate");
    let mut report = QualityReport::default();
    report.failed_checks.push("lint".to_string());
    assert_eq!(node.execute(Some(&report)).target(), Some("block"));
    let report = QualityReport::default();
    assert_eq!(node.execute(Some(&report)).target(), Some("pass"));
}

#[test]
fn test_change_risk_classifier_node() {
    let node = ChangeRiskClassifierNode::new("risk_classifier");
    assert_eq!(node.execute(Some(RiskLevel::High)).target(), Some("require_approval"));
    assert_eq!(node.execute(Some(RiskLevel::Low)).target(), Some("auto_approve"));
}

#[test]
fn test_llm_response() {
    let response = LLMResponse::text("Hello");
    assert_eq!(response.content, "Hello");
    assert!(response.tool_calls.is_empty());
    assert_eq!(response.stop_reason, StopReason::EndTurn);

    let tool_call = ToolCall::new("1", "get_weather", "{}");
    let response = LLMResponse::with_tool_calls("Checking weather", vec![tool_call]);
    assert_eq!(response.tool_calls.len(), 1);
    assert_eq!(response.stop_reason, StopReason::ToolUse);
}

#[test]
fn test_llm_node_with_mock() {
    let mut state = AgentState::new();
    state.add_user_message("Hello");
    apply_response(&mut state, LLMResponse::text("Mock response"));
    assert_eq!(state.messages.len(), 2);
    assert!(state.is_complete);
}

#[test]
fn llm_response_with_calls_keeps_task_open() {
    let mut state = AgentState::new();
    apply_response(&mut state, LLMResponse::with_tool_calls("check", vec![ToolCall::new("1", "w", "{}")]));
    assert_eq!(state.tool_calls.len(), 1);
    assert!(!state.is_complete);
    assert_eq!(state.messages[0].role, MessageRole::Assistant);
}

#[test]
fn test_tool_node() {
    let mut state = AgentState::new();
    state.tool_calls.push(ToolCall::new("1", "echo", "{\"message\":\"Hello\"}"));
    let results = vec![ToolResult::success("1", "Hello"), missing_tool_result("2", "nope")];
    record_tool_results(&mut state, &results);
    assert!(state.tool_calls.is_empty());
    assert_eq!(state.messages.len(), 2);
    assert_eq!(state.messages[0].content, "Hello");
    assert_eq!(state.messages[1].content, "Tool 'nope' not found");
    assert_eq!(state.messages[1].tool_call_id, Some("2".to_string()));
}

#[derive(Clone, Debug, PartialEq)]
struct CounterState {
    counter: u32,
}

#[test]
fn test_node_result() {
    let state = CounterState { counter: 42 };
    let result = NodeResult::Continue(state.clone());
    assert!(result.is_continue());
    assert_eq!(result.state().counter, 42);
    let result = NodeResult::End(state.clone());
    assert!(result.is_end());
    let result = NodeResult::Interrupt { state, reason: "Need input".to_string() };
    assert!(result.is_interrupt());
}

#[test]
fn node_result_constructors_carry_the_state() {
    let r = NodeResult::interrupt(CounterState { counter: 1 }, "wait");
    assert!(r.is_interrupt() && !r.is_continue() && !r.is_end());
    match &r {
        NodeResult::Interrupt { reason, .. } => assert_eq!(reason, "wait"),
        _ => panic!("expected an interruption"),
    }
    assert_eq!(r.into_state(), CounterState { counter: 1 });
    assert_eq!(NodeResult::cont(CounterState { counter: 2 }).into_state().counter, 2);
    assert!(NodeResult::end(CounterState { counter: 3 }).is_end());
}
