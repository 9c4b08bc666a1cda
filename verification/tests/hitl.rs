use oxidizedgraph::guardrails::risk::RiskLevel;
use oxidizedgraph::hitl::intervention::{HitlController, HitlError};
use oxidizedgraph::hitl::node::{ApprovalCheckpointNode, GrantApprovalNode, ResumeNode};
use oxidizedgraph::hitl::policy::{ApprovalAction, ApprovalMatrix, ApprovalPolicy};
use oxidizedgraph::hitl::timeline::{RunTimeline, TransitionRecord};
use oxidizedgraph::hitl::types::{ApprovalEvent, ApprovalRequest, ApprovalStatus, EventDetail, HitlContext};

#[test]
fn high_risk_pauses_by_default() {
    let policy = ApprovalPolicy::default();
    assert!(policy.matrix.requires_pause(RiskLevel::High));
    assert!(!policy.matrix.requires_pause(RiskLevel::Low));
}

#[test]
fn permissive_and_strict_matrices() {
    let p = ApprovalMatrix::permissive();
    assert_eq!(p.action_for(RiskLevel::Low), ApprovalAction::Allow);
    assert_eq!(p.action_for(RiskLevel::Medium), ApprovalAction::Allow);
    assert_eq!(p.action_for(RiskLevel::High), ApprovalAction::Pause);
    let s = ApprovalMatrix::strict();
    assert_eq!(s.action_for(RiskLevel::Low), ApprovalAction::Allow);
    assert_eq!(s.action_for(RiskLevel::Medium), ApprovalAction::Pause);
    assert_eq!(s.action_for(RiskLevel::High), ApprovalAction::Pause);
}

#[test]
fn checkpoint_pauses_on_high_risk() {
    let node = ApprovalCheckpointNode::new("checkpoint");
    let mut state = HitlContext::new();
    state.change_risk_level = Some(RiskLevel::High);
    state.change_summary = Some("Refactor auth module".to_string());
    let output = node.execute(&mut state);
    assert_eq!(output.target(), Some("awaiting_approval"));
    assert_eq!(state.paused, Some(true));
    assert!(state.request.is_some());
    assert_eq!(state.events.len(), 1);
    assert_eq!(state.events[0].kind, "checkpoint_created");
}

#[test]
fn checkpoint_allows_low_risk() {
    let node = ApprovalCheckpointNode::new("checkpoint");
    let mut state = HitlContext::new();
    state.change_risk_level = Some(RiskLevel::Low);
    let output = node.execute(&mut state);
    assert_eq!(output.target(), Some("approved"));
    assert!(state.request.is_none());
}

#[test]
fn grant_approval_records_decision() {
    let checkpoint = ApprovalCheckpointNode::new("checkpoint");
    let grant = GrantApprovalNode::new("grant", "operator@example.com");
    let mut state = HitlContext::new();
    state.change_risk_level = Some(RiskLevel::High);
    checkpoint.execute(&mut state);
    grant.execute(&mut state).unwrap();
    let decision = state.decision.clone().unwrap();
    assert_eq!(decision.status, ApprovalStatus::Approved);
    assert_eq!(decision.approver, "operator@example.com");
    assert_eq!(state.paused, Some(false));
    let after = checkpoint.execute(&mut state);
    assert_eq!(after.target(), Some("approved"));
}

#[test]
fn grant_without_request_fails() {
    let grant = GrantApprovalNode::new("grant", "op");
    let mut state = HitlContext::new();
    assert!(grant.execute(&mut state).is_err());
}

#[test]
fn resume_clears_pause() {
    let mut state = HitlContext::new();
    state.paused = Some(true);
    let resume = ResumeNode::new("resume");
    let _ = resume.execute(&mut state);
    assert_eq!(state.paused, Some(false));
}

#[test]
fn controller_pause_approve_deny() {
    let controller = HitlController::new();
    let mut state = HitlContext::new();
    assert_eq!(controller.approve(&mut state, "op", None).unwrap_err(), HitlError::NoPendingRequest);
    let request = controller.pause(&mut state, "risky", RiskLevel::High);
    assert_eq!(request.reason, "risky");
    assert!(controller.status(&state).paused);
    let decision = controller.deny(&mut state, "op", "too risky").unwrap();
    assert_eq!(decision.status, ApprovalStatus::Denied);
    assert_eq!(decision.rationale, Some("too risky".to_string()));
    assert!(!controller.status(&state).paused);
    assert_eq!(state.events.len(), 2);
    assert!(controller.requires_pause(RiskLevel::Medium));
    assert!(!controller.requires_pause(RiskLevel::Low));
}

#[test]
fn builds_mixed_timeline() {
    let transitions = vec![TransitionRecord {
        run_id: "run-1".to_string(),
        iteration: 0,
        node_id: "gate".to_string(),
        output_kind: "transition".to_string(),
        next_node: Some("checkpoint".to_string()),
        output_target: Some("awaiting_approval".to_string()),
        state_iteration: 0,
        recorded_at: 1_700_000_000_000,
    }];
    let approvals = vec![ApprovalEvent {
        id: "evt-1".to_string(),
        timestamp: 1_700_000_000_500,
        kind: "checkpoint_created".to_string(),
        detail: EventDetail::Json("{}".to_string()),
    }];
    let timeline = RunTimeline::from_artifacts(&transitions, &approvals);
    assert_eq!(timeline.entries.len(), 2);
    assert_eq!(timeline.approval_count(), 1);
    assert_eq!(timeline.entries[0].label, "gate -> Some(\"checkpoint\")");
    assert_eq!(timeline.entries[1].seq, 1);
}

#[test]
fn approval_request_builders() {
    let r = ApprovalRequest::new("why", RiskLevel::Medium).with_tool("shell").with_summary("s");
    assert_eq!(r.reason, "why");
    assert_eq!(r.tool_name, Some("shell".to_string()));
    assert_eq!(r.change_summary, Some("s".to_string()));
    assert_eq!(r.risk_level, RiskLevel::Medium);
    assert_eq!(r.id.len(), 36);
}
