//! Operator intervention: pause, approve, deny and resume a run.

use crate::guardrails::risk::RiskLevel;
use crate::hitl::explain::ReviewSummaryBuilder;
use crate::hitl::node::{records_decision, records_request, same_inputs};
use crate::hitl::policy::{matrix_action, ApprovalAction, ApprovalPolicy};
use crate::hitl::types::{
    append_approval_event, ApprovalDecision, ApprovalEvent, ApprovalRequest, ApprovalStatus,
    ExplanationPayload, ExplanationView, HitlContext,
};
use crate::text::{concat_strings, copy_opt_string, opt_view, owned, strings_view};
use vstd::prelude::*;

verus! {

broadcast use vstd::string::group_string_axioms;

/// Current HITL status of a run.
#[derive(Debug)]
pub struct HitlStatus {
    /// Whether execution is paused for human input.
    pub paused: bool,
    /// Pending approval request.
    pub request: Option<ApprovalRequest>,
    /// Explanation for operators.
    pub explanation: Option<ExplanationPayload>,
    /// Latest decision, if recorded.
    pub decision: Option<ApprovalDecision>,
    /// Approval audit events, oldest first.
    pub events: Vec<ApprovalEvent>,
}

/// Intervention errors.
#[derive(Clone, Copy, Debug, PartialEq, Eq, Structural)]
pub enum HitlError {
    /// No pending approval request to act on.
    NoPendingRequest,
    /// Run is not paused for intervention.
    NotPaused,
}

impl HitlError {
    /// The error message.
    pub fn message(&self) -> (r: &'static str)
        ensures
            r@ == match *self {
                HitlError::NoPendingRequest => "no pending approval request"@,
                HitlError::NotPaused => "run is not paused for intervention"@,
            },
    {
        match self {
            HitlError::NoPendingRequest => "no pending approval request",
            HitlError::NotPaused => "run is not paused for intervention",
        }
    }
}

/// What a manual pause does: it records a request for the reason and risk,
/// summarizing the recorded change, appends it to the audit log, records an
/// explanation built from the context, sets the pause and clears any
/// earlier decision.
pub open spec fn pause_effect(
    before: HitlContext,
    after: HitlContext,
    reason: Seq<char>,
    risk: RiskLevel,
    q: ApprovalRequest,
) -> bool {
    &&& q.reason@ == reason
    &&& q.risk_level == risk
    &&& q.tool_name is None
    &&& opt_view(q.change_summary) == Some(
        match before.change_summary {
            Some(s) => s@,
            None => Seq::<char>::empty(),
        },
    )
    &&& after.request == Some(q)
    &&& after.paused == Some(true)
    &&& after.decision is None
    &&& after.events@.len() == before.events@.len() + 1
    &&& after.events@.drop_last() == before.events@
    &&& records_request(after.events@.last(), q)
    &&& after.explanation matches Some(x) && x@ == (ExplanationView {
        summary: match before.change_summary {
            Some(s) => s@,
            None => crate::hitl::explain::DEFAULT_CHANGE_SUMMARY@,
        },
        rationale: "Manual pause: "@ + reason,
        diff_hint: opt_view(before.proposed_diff),
        tool_actions: match before.recent_tool_actions {
            Some(t) => strings_view(t@),
            None => Seq::empty(),
        },
    })
    &&& same_inputs(after, before)
}

/// What recording an operator decision on the pending request does: the
/// decision answers that request, is recorded and appended to the audit
/// log, and the pause is cleared.
pub open spec fn decision_effect(before: HitlContext, after: HitlContext, d: ApprovalDecision) -> bool {
    &&& before.request matches Some(q) && d.request_id@ == q.id@
    &&& after.decision == Some(d)
    &&& after.paused == Some(false)
    &&& after.request == before.request
    &&& after.explanation == before.explanation
    &&& after.events@.len() == before.events@.len() + 1
    &&& after.events@.drop_last() == before.events@
    &&& records_decision(after.events@.last(), d)
    &&& same_inputs(after, before)
}

/// The context is unchanged.
pub open spec fn unchanged(before: HitlContext, after: HitlContext) -> bool {
    &&& after.paused == before.paused
    &&& after.request == before.request
    &&& after.explanation == before.explanation
    &&& after.decision == before.decision
    &&& after.events == before.events
    &&& same_inputs(after, before)
}

/// Programmatic hooks for operator pause, approve, deny and resume.
#[derive(Clone, Debug)]
pub struct HitlController {
    policy: ApprovalPolicy,
    summarizer: ReviewSummaryBuilder,
}

impl HitlController {
    /// The approval policy in force.
    pub closed spec fn policy(&self) -> ApprovalPolicy {
        self.policy
    }

    /// A controller with the default approval policy.
    pub fn new() -> (r: Self)
        ensures
            r.policy().matrix@ == (crate::hitl::policy::MatrixView {
                low: ApprovalAction::Allow,
                medium: ApprovalAction::Pause,
                high: ApprovalAction::Pause,
            }),
            r.policy().approver_role.0@ == "operator"@,
    {
        HitlController { policy: ApprovalPolicy::default(), summarizer: ReviewSummaryBuilder::new() }
    }

    /// A controller with a custom policy.
    pub fn with_policy(policy: ApprovalPolicy) -> (r: Self)
        ensures
            r.policy() == policy,
    {
        HitlController { policy, summarizer: ReviewSummaryBuilder::new() }
    }

    /// The current HITL status: the pause flag (not paused when unset), the
    /// request, explanation, decision and audit log.
    pub fn status(&self, state: &HitlContext) -> (r: HitlStatus)
        ensures
            r.paused == match state.paused {
                Some(p) => p,
                None => false,
            },
            r.request == state.request,
            match r.explanation {
                Some(x) => state.explanation matches Some(y) && x@ == y@,
                None => state.explanation is None,
            },
            r.decision == state.decision,
            r.events@ == state.events@,
    {
        let mut events: Vec<ApprovalEvent> = Vec::new();
        let mut i: usize = 0;
        while i < state.events.len()
            invariant
                i <= state.events@.len(),
                events@ == state.events@.take(i as int),
            decreases state.events@.len() - i,
        {
            events.push(state.events[i].duplicate());
            i += 1;
            assert(state.events@.take(i as int) == state.events@.take(i - 1).push(state.events@[i - 1]));
        }
        assert(state.events@.take(state.events@.len() as int) == state.events@);
        HitlStatus {
            paused: match state.paused {
                Some(p) => p,
                None => false,
            },
            request: match &state.request {
                Some(q) => Some(q.duplicate()),
                None => None,
            },
            explanation: match &state.explanation {
                Some(x) => Some(x.duplicate()),
                None => None,
            },
            decision: match &state.decision {
                Some(d) => Some(d.duplicate()),
                None => None,
            },
            events,
        }
    }

    /// Pauses the run by hand and creates an approval checkpoint; returns
    /// the request.
    pub fn pause(&self, state: &mut HitlContext, reason: &str, risk_level: RiskLevel) -> (r:
        ApprovalRequest)
        ensures
            pause_effect(*old(state), *final(state), reason@, risk_level, r),
    {
        let summary = match &state.change_summary {
            Some(s) => s.clone(),
            None => owned(""),
        };
        proof {
            reveal_strlit("");
            assert(""@ =~= Seq::<char>::empty());
        }
        let request = ApprovalRequest::new(reason, risk_level).with_summary(summary.as_str());
        let rationale = concat_strings("Manual pause: ", request.reason.as_str());
        let review = self.summarizer.from_state(state, rationale.as_str());
        let explanation = self.summarizer.to_explanation(&review);
        append_approval_event(state, ApprovalEvent::checkpoint_created(&request));
        let returned = request.duplicate();
        state.request = Some(request);
        state.explanation = Some(explanation);
        state.paused = Some(true);
        state.decision = None;
        assert(returned == request);
        assert(state.request == Some(returned));
        assert(records_request(state.events@.last(), returned));
        assert(state.events@.drop_last() == old(state).events@);
        assert(same_inputs(*state, *old(state)));
        returned
    }

    /// Records an operator approval of the pending request and clears the
    /// pause. Without a pending request it fails and changes nothing.
    pub fn approve(&self, state: &mut HitlContext, approver: &str, rationale: Option<String>) -> (r:
        Result<ApprovalDecision, HitlError>)
        ensures
            match old(state).request {
                None => r == Err::<ApprovalDecision, HitlError>(HitlError::NoPendingRequest) && unchanged(
                    *old(state),
                    *final(state),
                ),
                Some(_) => r matches Ok(d) && {
                    &&& decision_effect(*old(state), *final(state), d)
                    &&& d.status == ApprovalStatus::Approved
                    &&& d.approver@ == approver@
                    &&& d.rationale == rationale
                },
            },
    {
        let request_id = match &state.request {
            Some(q) => q.id.clone(),
            None => {
                return Err(HitlError::NoPendingRequest);
            },
        };
        let mut decision = ApprovalDecision::approve(request_id.as_str(), approver);
        decision.rationale = rationale;
        append_approval_event(state, ApprovalEvent::decision_recorded(&decision));
        let returned = decision.duplicate();
        state.decision = Some(decision);
        state.paused = Some(false);
        assert(returned == decision);
        assert(state.decision == Some(returned));
        assert(records_decision(state.events@.last(), returned));
        assert(state.events@.drop_last() == old(state).events@);
        assert(same_inputs(*state, *old(state)));
        Ok(returned)
    }

    /// Records an operator denial of the pending request, with its
    /// rationale, and clears the pause. Without a pending request it fails
    /// and changes nothing.
    pub fn deny(&self, state: &mut HitlContext, approver: &str, rationale: &str) -> (r: Result<
        ApprovalDecision,
        HitlError,
    >)
        ensures
            match old(state).request {
                None => r == Err::<ApprovalDecision, HitlError>(HitlError::NoPendingRequest) && unchanged(
                    *old(state),
                    *final(state),
                ),
                Some(_) => r matches Ok(d) && {
                    &&& decision_effect(*old(state), *final(state), d)
                    &&& d.status == ApprovalStatus::Denied
                    &&& d.approver@ == approver@
                    &&& opt_view(d.rationale) == Some(rationale@)
                },
            },
    {
        let request_id = match &state.request {
            Some(q) => q.id.clone(),
            None => {
                return Err(HitlError::NoPendingRequest);
            },
        };
        let decision = ApprovalDecision::deny(request_id.as_str(), approver, rationale);
        append_approval_event(state, ApprovalEvent::decision_recorded(&decision));
        let returned = decision.duplicate();
        state.decision = Some(decision);
        state.paused = Some(false);
        assert(returned == decision);
        assert(state.decision == Some(returned));
        assert(records_decision(state.events@.last(), returned));
        assert(state.events@.drop_last() == old(state).events@);
        assert(same_inputs(*state, *old(state)));
        Ok(returned)
    }

    /// Clears the pause without recording a decision.
    pub fn resume(&self, state: &mut HitlContext)
        ensures
            final(state).paused == Some(false),
            final(state).request == old(state).request,
            final(state).explanation == old(state).explanation,
            final(state).decision == old(state).decision,
            final(state).events == old(state).events,
            same_inputs(*final(state), *old(state)),
    {
        state.paused = Some(false);
    }

    /// Whether the policy pauses at this risk level.
    pub fn requires_pause(&self, risk: RiskLevel) -> (r: bool)
        ensures
            r == (matrix_action(self.policy().matrix@, risk) == ApprovalAction::Pause),
    {
        self.policy.matrix.requires_pause(risk)
    }
}

/// A decision recorded after a manual pause answers the request that pause
/// created, clears the pause, and leaves the audit log as it was with the
/// checkpoint and then the decision appended.
pub proof fn lemma_decision_answers_pause(
    s0: HitlContext,
    s1: HitlContext,
    s2: HitlContext,
    reason: Seq<char>,
    risk: RiskLevel,
    q: ApprovalRequest,
    d: ApprovalDecision,
)
    requires
        pause_effect(s0, s1, reason, risk, q),
        decision_effect(s1, s2, d),
    ensures
        d.request_id@ == q.id@,
        s2.request == Some(q),
        s2.decision == Some(d),
        s2.paused == Some(false),
        s2.events@.len() == s0.events@.len() + 2,
        s2.events@.take(s0.events@.len() as int) == s0.events@,
        records_request(s2.events@[s0.events@.len() as int], q),
        records_decision(s2.events@.last(), d),
{
    let n = s0.events@.len() as int;
    assert(s2.events@.take(n) =~= s1.events@.drop_last().take(n));
    assert(s1.events@.drop_last().take(n) =~= s0.events@);
    assert(s2.events@[n] == s1.events@[n]);
}

/// The audit log only grows: every step of the workflow keeps the events
/// already recorded, in order.
pub open spec fn log_extends(before: Seq<ApprovalEvent>, after: Seq<ApprovalEvent>) -> bool {
    before.len() <= after.len() && after.take(before.len() as int) == before
}

/// Pauses and recorded decisions extend the audit log.
pub proof fn lemma_audit_log_append_only(
    s0: HitlContext,
    s1: HitlContext,
    reason: Seq<char>,
    risk: RiskLevel,
    q: ApprovalRequest,
    d: ApprovalDecision,
)
    ensures
        pause_effect(s0, s1, reason, risk, q) ==> log_extends(s0.events@, s1.events@),
        decision_effect(s0, s1, d) ==> log_extends(s0.events@, s1.events@),
        unchanged(s0, s1) ==> log_extends(s0.events@, s1.events@),
{
    if pause_effect(s0, s1, reason, risk, q) || decision_effect(s0, s1, d) {
        assert(s1.events@.take(s0.events@.len() as int) =~= s1.events@.drop_last());
    }
    if unchanged(s0, s1) {
        assert(s1.events@.take(s0.events@.len() as int) =~= s0.events@);
    }
}

} // verus!
