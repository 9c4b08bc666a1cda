//! Approval requests, operator decisions, explanations and audit events,
//! and the part of a run's context that the approval workflow reads and
//! writes.

use crate::clock::{new_id, now_millis};
use crate::guardrails::findings::ReviewFinding;
use crate::guardrails::risk::RiskLevel;
use crate::text::{copy_opt_string, copy_strings, opt_view, owned, strings_view};
use vstd::prelude::*;

verus! {

broadcast use vstd::string::group_string_axioms;

/// Context key: execution is paused awaiting human input.
pub const CTX_HITL_PAUSED: &'static str = "hitl_paused";

/// Context key: pending approval request payload.
pub const CTX_APPROVAL_REQUEST: &'static str = "approval_request";

/// Context key: latest approval decision.
pub const CTX_APPROVAL_DECISION: &'static str = "approval_decision";

/// Context key: append-only approval audit log.
pub const CTX_APPROVAL_EVENTS: &'static str = "approval_events";

/// Context key: standardized explanation for operators.
pub const CTX_EXPLANATION: &'static str = "hitl_explanation";

/// Lifecycle status of an approval request.
#[derive(Clone, Copy, Debug, PartialEq, Eq, Structural)]
pub enum ApprovalStatus {
    /// Awaiting human decision.
    Pending,
    /// Human approved continuation.
    Approved,
    /// Human rejected the action.
    Denied,
}

/// A checkpoint request for human review.
#[derive(Clone, Debug, PartialEq)]
pub struct ApprovalRequest {
    /// Unique request id.
    pub id: String,
    /// Human-readable reason for the pause.
    pub reason: String,
    /// Classified risk driving the checkpoint.
    pub risk_level: RiskLevel,
    /// Tool name when pausing on tool policy.
    pub tool_name: Option<String>,
    /// Short summary of the proposed change.
    pub change_summary: Option<String>,
    /// When the request was created, in milliseconds since the Unix epoch.
    pub created_at: i64,
}

impl ApprovalRequest {
    /// A new request with a fresh random id, stamped with the current time.
    pub fn new(reason: &str, risk_level: RiskLevel) -> (r: Self)
        ensures
            r.id@.len() == 36,
            r.reason@ == reason@,
            r.risk_level == risk_level,
            r.tool_name is None,
            r.change_summary is None,
    {
        ApprovalRequest {
            id: new_id(),
            reason: owned(reason),
            risk_level,
            tool_name: None,
            change_summary: None,
            created_at: now_millis(),
        }
    }

    /// The request with tool context attached.
    pub fn with_tool(self, tool_name: &str) -> (r: Self)
        ensures
            r.id == self.id,
            r.reason == self.reason,
            r.risk_level == self.risk_level,
            opt_view(r.tool_name) == Some(tool_name@),
            r.change_summary == self.change_summary,
            r.created_at == self.created_at,
    {
        ApprovalRequest { tool_name: Some(owned(tool_name)), ..self }
    }

    /// The request with a change summary attached.
    pub fn with_summary(self, summary: &str) -> (r: Self)
        ensures
            r.id == self.id,
            r.reason == self.reason,
            r.risk_level == self.risk_level,
            r.tool_name == self.tool_name,
            opt_view(r.change_summary) == Some(summary@),
            r.created_at == self.created_at,
    {
        ApprovalRequest { change_summary: Some(owned(summary)), ..self }
    }

    /// A copy holding the same values.
    pub fn duplicate(&self) -> (r: Self)
        ensures
            r == *self,
    {
        ApprovalRequest {
            id: self.id.clone(),
            reason: self.reason.clone(),
            risk_level: self.risk_level,
            tool_name: match &self.tool_name {
                Some(t) => Some(t.clone()),
                None => None,
            },
            change_summary: match &self.change_summary {
                Some(s) => Some(s.clone()),
                None => None,
            },
            created_at: self.created_at,
        }
    }
}

/// Operator decision on an approval request.
#[derive(Clone, Debug, PartialEq)]
pub struct ApprovalDecision {
    /// Request this decision applies to.
    pub request_id: String,
    /// Outcome.
    pub status: ApprovalStatus,
    /// Approver identity or role label.
    pub approver: String,
    /// Rationale recorded by the operator.
    pub rationale: Option<String>,
    /// When the decision was recorded, in milliseconds since the Unix epoch.
    pub decided_at: i64,
}

impl ApprovalDecision {
    /// An approval, stamped with the current time.
    pub fn approve(request_id: &str, approver: &str) -> (r: Self)
        ensures
            r.request_id@ == request_id@,
            r.status == ApprovalStatus::Approved,
            r.approver@ == approver@,
            r.rationale is None,
    {
        ApprovalDecision {
            request_id: owned(request_id),
            status: ApprovalStatus::Approved,
            approver: owned(approver),
            rationale: None,
            decided_at: now_millis(),
        }
    }

    /// A denial with its rationale, stamped with the current time.
    pub fn deny(request_id: &str, approver: &str, rationale: &str) -> (r: Self)
        ensures
            r.request_id@ == request_id@,
            r.status == ApprovalStatus::Denied,
            r.approver@ == approver@,
            opt_view(r.rationale) == Some(rationale@),
    {
        ApprovalDecision {
            request_id: owned(request_id),
            status: ApprovalStatus::Denied,
            approver: owned(approver),
            rationale: Some(owned(rationale)),
            decided_at: now_millis(),
        }
    }

    /// A copy holding the same values.
    pub fn duplicate(&self) -> (r: Self)
        ensures
            r == *self,
    {
        ApprovalDecision {
            request_id: self.request_id.clone(),
            status: self.status,
            approver: self.approver.clone(),
            rationale: match &self.rationale {
                Some(t) => Some(t.clone()),
                None => None,
            },
            decided_at: self.decided_at,
        }
    }
}

/// Explainability payload shown to operators at a checkpoint.
#[derive(Clone, Debug)]
pub struct ExplanationPayload {
    /// One-line summary of what the agent intends to do.
    pub summary: String,
    /// Why the checkpoint fired.
    pub rationale: String,
    /// Diff or file hint.
    pub diff_hint: Option<String>,
    /// Recent tool actions leading to the checkpoint.
    pub tool_actions: Vec<String>,
}

/// What an explanation holds.
pub struct ExplanationView {
    pub summary: Seq<char>,
    pub rationale: Seq<char>,
    pub diff_hint: Option<Seq<char>>,
    pub tool_actions: Seq<Seq<char>>,
}

impl View for ExplanationPayload {
    type V = ExplanationView;

    open spec fn view(&self) -> ExplanationView {
        ExplanationView {
            summary: self.summary@,
            rationale: self.rationale@,
            diff_hint: opt_view(self.diff_hint),
            tool_actions: strings_view(self.tool_actions@),
        }
    }
}

impl ExplanationPayload {
    /// An explanation with a summary and rationale, no diff hint and no
    /// tool actions.
    pub fn new(summary: &str, rationale: &str) -> (r: Self)
        ensures
            r@ == (ExplanationView {
                summary: summary@,
                rationale: rationale@,
                diff_hint: None,
                tool_actions: Seq::empty(),
            }),
    {
        let r = ExplanationPayload {
            summary: owned(summary),
            rationale: owned(rationale),
            diff_hint: None,
            tool_actions: Vec::new(),
        };
        assert(strings_view(r.tool_actions@) =~= Seq::<Seq<char>>::empty());
        r
    }

    /// A copy holding the same values.
    pub fn duplicate(&self) -> (r: Self)
        ensures
            r@ == self@,
    {
        ExplanationPayload {
            summary: self.summary.clone(),
            rationale: self.rationale.clone(),
            diff_hint: copy_opt_string(&self.diff_hint),
            tool_actions: copy_strings(&self.tool_actions),
        }
    }
}

/// What an audit event records.
#[derive(Clone, Debug)]
pub enum EventDetail {
    /// The request a checkpoint created.
    Request(ApprovalRequest),
    /// The decision an operator recorded.
    Decision(ApprovalDecision),
    /// A payload recorded elsewhere, as JSON text.
    Json(String),
}

/// Immutable audit event for approval workflows.
#[derive(Clone, Debug)]
pub struct ApprovalEvent {
    /// Event id.
    pub id: String,
    /// Event time, in milliseconds since the Unix epoch.
    pub timestamp: i64,
    /// Event kind label.
    pub kind: String,
    /// The request, decision or other payload the event records.
    pub detail: EventDetail,
}

impl ApprovalEvent {
    /// A `checkpoint_created` event recording the request, with a fresh id
    /// and the current time.
    pub fn checkpoint_created(request: &ApprovalRequest) -> (r: Self)
        ensures
            r.id@.len() == 36,
            r.kind@ == "checkpoint_created"@,
            r.detail == EventDetail::Request(*request),
    {
        ApprovalEvent {
            id: new_id(),
            timestamp: now_millis(),
            kind: owned("checkpoint_created"),
            detail: EventDetail::Request(request.duplicate()),
        }
    }

    /// A `decision_recorded` event recording the decision, with a fresh id
    /// and the current time.
    pub fn decision_recorded(decision: &ApprovalDecision) -> (r: Self)
        ensures
            r.id@.len() == 36,
            r.kind@ == "decision_recorded"@,
            r.detail == EventDetail::Decision(*decision),
    {
        ApprovalEvent {
            id: new_id(),
            timestamp: now_millis(),
            kind: owned("decision_recorded"),
            detail: EventDetail::Decision(decision.duplicate()),
        }
    }

    /// A copy holding the same values.
    pub fn duplicate(&self) -> (r: Self)
        ensures
            r == *self,
    {
        ApprovalEvent {
            id: self.id.clone(),
            timestamp: self.timestamp,
            kind: self.kind.clone(),
            detail: match &self.detail {
                EventDetail::Request(q) => EventDetail::Request(q.duplicate()),
                EventDetail::Decision(d) => EventDetail::Decision(d.duplicate()),
                EventDetail::Json(j) => EventDetail::Json(j.clone()),
            },
        }
    }
}

/// The entries of a run's context that the approval workflow reads and
/// writes; an absent entry is `None`.
#[derive(Debug)]
pub struct HitlContext {
    /// `hitl_paused`: execution is paused awaiting human input.
    pub paused: Option<bool>,
    /// `approval_request`: the pending request.
    pub request: Option<ApprovalRequest>,
    /// `hitl_explanation`: the explanation for operators.
    pub explanation: Option<ExplanationPayload>,
    /// `approval_decision`: the latest decision.
    pub decision: Option<ApprovalDecision>,
    /// `approval_events`: the audit log, oldest first.
    pub events: Vec<ApprovalEvent>,
    /// `change_risk_level`: the classified risk of the change.
    pub change_risk_level: Option<RiskLevel>,
    /// `change_summary`: a short summary of the change.
    pub change_summary: Option<String>,
    /// `proposed_diff`: a diff or file-change hint.
    pub proposed_diff: Option<String>,
    /// `recent_tool_actions`: recent tool invocations.
    pub recent_tool_actions: Option<Vec<String>>,
    /// `review_findings`: findings from quality gates or auditors.
    pub review_findings: Option<Vec<ReviewFinding>>,
}

impl HitlContext {
    /// A context with no entries.
    pub fn new() -> (r: Self)
        ensures
            r.paused is None,
            r.request is None,
            r.explanation is None,
            r.decision is None,
            r.events@.len() == 0,
            r.change_risk_level is None,
            r.change_summary is None,
            r.proposed_diff is None,
            r.recent_tool_actions is None,
            r.review_findings is None,
    {
        HitlContext {
            paused: None,
            request: None,
            explanation: None,
            decision: None,
            events: Vec::new(),
            change_risk_level: None,
            change_summary: None,
            proposed_diff: None,
            recent_tool_actions: None,
            review_findings: None,
        }
    }
}

/// Appends an event to the audit log; nothing else changes.
pub fn append_approval_event(state: &mut HitlContext, event: ApprovalEvent)
    ensures
        final(state).events@ == old(state).events@.push(event),
        final(state).paused == old(state).paused,
        final(state).request == old(state).request,
        final(state).explanation == old(state).explanation,
        final(state).decision == old(state).decision,
        final(state).change_risk_level == old(state).change_risk_level,
        final(state).change_summary == old(state).change_summary,
        final(state).proposed_diff == old(state).proposed_diff,
        final(state).recent_tool_actions == old(state).recent_tool_actions,
        final(state).review_findings == old(state).review_findings,
{
    state.events.push(event);
}

} // verus!
