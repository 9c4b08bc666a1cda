//! Checkpoint, approval and resume steps of the approval workflow.

use crate::graph::{NodeOutput, OutputView};
use crate::guardrails::risk::{risk_label, risk_name, RiskLevel};
use crate::hitl::explain::DEFAULT_CHANGE_SUMMARY;
use crate::hitl::policy::{matrix_action, ApprovalAction, ApprovalPolicy, MatrixView};
use crate::hitl::types::{
    append_approval_event, ApprovalDecision, ApprovalEvent, ApprovalRequest, ApprovalStatus,
    EventDetail, ExplanationPayload, ExplanationView, HitlContext,
};
use crate::text::{concat_strings, copy_opt_string, opt_view, owned};
use vstd::prelude::*;

verus! {

broadcast use vstd::string::group_string_axioms;

/// The transition a recorded decision takes.
pub open spec fn decision_route(s: ApprovalStatus) -> Seq<char> {
    match s {
        ApprovalStatus::Approved => "approved"@,
        ApprovalStatus::Denied => "denied"@,
        ApprovalStatus::Pending => "awaiting_approval"@,
    }
}

/// The risk a checkpoint acts on: the recorded level, medium when none is.
pub open spec fn checkpoint_risk(s: HitlContext) -> RiskLevel {
    match s.change_risk_level {
        Some(r) => r,
        None => RiskLevel::Medium,
    }
}

/// `e` is the audit event a checkpoint writes for request `q`.
pub open spec fn records_request(e: ApprovalEvent, q: ApprovalRequest) -> bool {
    e.kind@ == "checkpoint_created"@ && e.detail == EventDetail::Request(q)
}

/// `e` is the audit event an operator's decision `d` writes.
pub open spec fn records_decision(e: ApprovalEvent, d: ApprovalDecision) -> bool {
    e.kind@ == "decision_recorded"@ && e.detail == EventDetail::Decision(d)
}

/// The entries other than the pause flag, request, explanation, decision
/// and audit log are the same.
pub open spec fn same_inputs(a: HitlContext, b: HitlContext) -> bool {
    &&& a.change_risk_level == b.change_risk_level
    &&& a.change_summary == b.change_summary
    &&& a.proposed_diff == b.proposed_diff
    &&& a.recent_tool_actions == b.recent_tool_actions
    &&& a.review_findings == b.review_findings
}

/// Pauses execution when policy requires human approval for the current risk level.
#[derive(Clone, Debug)]
pub struct ApprovalCheckpointNode {
    id: String,
    policy: ApprovalPolicy,
}

impl ApprovalCheckpointNode {
    /// A checkpoint with the default policy.
    pub fn new(id: &str) -> (r: Self)
        ensures
            r.id()@ == id@,
            r.policy().matrix@ == (MatrixView {
                low: ApprovalAction::Allow,
                medium: ApprovalAction::Pause,
                high: ApprovalAction::Pause,
            }),
    {
        ApprovalCheckpointNode { id: owned(id), policy: ApprovalPolicy::default() }
    }

    /// The checkpoint with its approval policy replaced.
    pub fn with_policy(self, policy: ApprovalPolicy) -> (r: Self)
        ensures
            r.id() == self.id(),
            r.policy() == policy,
    {
        ApprovalCheckpointNode { policy, ..self }
    }

    /// The node id.
    pub closed spec fn id(&self) -> String {
        self.id
    }

    /// The approval policy.
    pub closed spec fn policy(&self) -> ApprovalPolicy {
        self.policy
    }

    /// The node id.
    pub fn node_id(&self) -> (r: &str)
        ensures
            r@ == self.id()@,
    {
        self.id.as_str()
    }

    /// Evaluates the checkpoint. A recorded decision is followed and clears
    /// the pause. Otherwise the policy's action for the recorded risk
    /// (medium when none is recorded) decides: allow goes on as `approved`;
    /// deny records a request and goes to `denied`; pause records a request
    /// and an explanation and waits as `awaiting_approval`. A recorded
    /// request is also appended to the audit log and pauses the run.
    pub fn execute(&self, state: &mut HitlContext) -> (r: NodeOutput)
        ensures
            same_inputs(*final(state), *old(state)),
            old(state).decision matches Some(d) ==> (d.status == ApprovalStatus::Denied ==> r@
                == OutputView::Transition("denied"@)),
            old(state).decision matches Some(d) ==> (d.status == ApprovalStatus::Approved ==> r@
                == OutputView::Transition("approved"@)),
            match old(state).decision {
                Some(d) => {
                    &&& r@ == OutputView::Transition(decision_route(d.status))
                    &&& final(state).paused == Some(false)
                    &&& final(state).request == old(state).request
                    &&& final(state).explanation == old(state).explanation
                    &&& final(state).decision == old(state).decision
                    &&& final(state).events == old(state).events
                },
                None => {
                    let risk = checkpoint_risk(*old(state));
                    match matrix_action(self.policy().matrix@, risk) {
                        ApprovalAction::Allow => {
                            &&& r@ == OutputView::Transition("approved"@)
                            &&& final(state).paused == old(state).paused
                            &&& final(state).request == old(state).request
                            &&& final(state).explanation == old(state).explanation
                            &&& final(state).decision == old(state).decision
                            &&& final(state).events == old(state).events
                        },
                        ApprovalAction::Deny => {
                            &&& r@ == OutputView::Transition("denied"@)
                            &&& final(state).paused == Some(true)
                            &&& final(state).request matches Some(q) && {
                                &&& q.reason@ == "Policy denied action"@
                                &&& q.risk_level == risk
                                &&& q.tool_name is None
                                &&& opt_view(q.change_summary) == Some(
                                    match old(state).change_summary {
                                        Some(s) => s@,
                                        None => Seq::<char>::empty(),
                                    },
                                )
                                &&& final(state).events@.len() == old(state).events@.len() + 1
                                &&& final(state).events@.drop_last() == old(state).events@
                                &&& records_request(final(state).events@.last(), q)
                            }
                            &&& final(state).explanation == old(state).explanation
                            &&& final(state).decision is None
                        },
                        ApprovalAction::Pause => {
                            let summary = match old(state).change_summary {
                                Some(s) => s@,
                                None => DEFAULT_CHANGE_SUMMARY@,
                            };
                            &&& r@ == OutputView::Transition("awaiting_approval"@)
                            &&& final(state).paused == Some(true)
                            &&& final(state).request matches Some(q) && {
                                &&& q.reason@ == risk_name(risk) + " change requires human approval"@
                                &&& q.risk_level == risk
                                &&& q.tool_name is None
                                &&& opt_view(q.change_summary) == Some(summary)
                                &&& final(state).events@.len() == old(state).events@.len() + 1
                                &&& final(state).events@.drop_last() == old(state).events@
                                &&& records_request(final(state).events@.last(), q)
                            }
                            &&& final(state).explanation matches Some(x) && x@ == (ExplanationView {
                                summary,
                                rationale: "Risk level "@ + risk_name(risk) + " matched pause policy"@,
                                diff_hint: None,
                                tool_actions: Seq::empty(),
                            })
                            &&& final(state).decision is None
                        },
                    }
                },
            },
    {
        match &state.decision {
            Some(d) => {
                let status = d.status;
                state.paused = Some(false);
                return match status {
                    ApprovalStatus::Approved => NodeOutput::transition("approved"),
                    ApprovalStatus::Denied => NodeOutput::transition("denied"),
                    ApprovalStatus::Pending => NodeOutput::transition("awaiting_approval"),
                };
            },
            None => {},
        }
        let risk = match state.change_risk_level {
            Some(r) => r,
            None => RiskLevel::Medium,
        };
        match self.policy.matrix.action_for(risk) {
            ApprovalAction::Allow => NodeOutput::transition("approved"),
            ApprovalAction::Deny => {
                let summary = match &state.change_summary {
                    Some(s) => s.clone(),
                    None => owned(""),
                };
                proof {
                    reveal_strlit("");
                    assert(""@ =~= Seq::<char>::empty());
                }
                let request = ApprovalRequest::new("Policy denied action", risk).with_summary(
                    summary.as_str(),
                );
                append_approval_event(state, ApprovalEvent::checkpoint_created(&request));
                state.request = Some(request);
                state.paused = Some(true);
                NodeOutput::transition("denied")
            },
            ApprovalAction::Pause => {
                let summary = match &state.change_summary {
                    Some(s) => s.clone(),
                    None => owned(DEFAULT_CHANGE_SUMMARY),
                };
                let reason = concat_strings(risk_label(risk), " change requires human approval");
                let request = ApprovalRequest::new(reason.as_str(), risk).with_summary(
                    summary.as_str(),
                );
                let r1 = concat_strings("Risk level ", risk_label(risk));
                let rationale = concat_strings(r1.as_str(), " matched pause policy");
                let explanation = ExplanationPayload::new(summary.as_str(), rationale.as_str());
                append_approval_event(state, ApprovalEvent::checkpoint_created(&request));
                state.request = Some(request);
                state.explanation = Some(explanation);
                state.paused = Some(true);
                NodeOutput::transition("awaiting_approval")
            },
        }
    }
}

/// Records an operator approval and clears the pause flag.
#[derive(Clone, Debug)]
pub struct GrantApprovalNode {
    id: String,
    approver: String,
    rationale: Option<String>,
}

impl GrantApprovalNode {
    /// Approves the pending request as the given operator.
    pub fn new(id: &str, approver: &str) -> (r: Self)
        ensures
            r.id()@ == id@,
            r.approver()@ == approver@,
            r.rationale() is None,
    {
        GrantApprovalNode { id: owned(id), approver: owned(approver), rationale: None }
    }

    /// The node with an operator rationale attached.
    pub fn with_rationale(self, rationale: &str) -> (r: Self)
        ensures
            r.id() == self.id(),
            r.approver() == self.approver(),
            opt_view(r.rationale()) == Some(rationale@),
    {
        GrantApprovalNode { rationale: Some(owned(rationale)), ..self }
    }

    /// The node id.
    pub closed spec fn id(&self) -> String {
        self.id
    }

    /// The approving operator.
    pub closed spec fn approver(&self) -> String {
        self.approver
    }

    /// The operator's rationale.
    pub closed spec fn rationale(&self) -> Option<String> {
        self.rationale
    }

    /// The node id.
    pub fn node_id(&self) -> (r: &str)
        ensures
            r@ == self.id()@,
    {
        self.id.as_str()
    }

    /// Approves the pending request: records the decision, appends it to the
    /// audit log, clears the pause and continues. Without a pending request
    /// it fails with `no approval_request in context` and changes nothing.
    pub fn execute(&self, state: &mut HitlContext) -> (r: Result<NodeOutput, String>)
        ensures
            same_inputs(*final(state), *old(state)),
            final(state).request == old(state).request,
            final(state).explanation == old(state).explanation,
            match old(state).request {
                None => {
                    &&& r matches Err(e) && e@ == "no approval_request in context"@
                    &&& final(state).paused == old(state).paused
                    &&& final(state).decision == old(state).decision
                    &&& final(state).events == old(state).events
                },
                Some(q) => {
                    &&& r matches Ok(o) && o@ == OutputView::Continue(None)
                    &&& final(state).paused == Some(false)
                    &&& final(state).decision matches Some(d) && {
                        &&& d.request_id@ == q.id@
                        &&& d.status == ApprovalStatus::Approved
                        &&& d.approver@ == self.approver()@
                        &&& opt_view(d.rationale) == opt_view(self.rationale())
                        &&& final(state).events@.len() == old(state).events@.len() + 1
                        &&& final(state).events@.drop_last() == old(state).events@
                        &&& records_decision(final(state).events@.last(), d)
                    }
                },
            },
    {
        let request_id = match &state.request {
            Some(q) => q.id.clone(),
            None => {
                return Err(owned("no approval_request in context"));
            },
        };
        let mut decision = ApprovalDecision::approve(request_id.as_str(), self.approver.as_str());
        decision.rationale = copy_opt_string(&self.rationale);
        append_approval_event(state, ApprovalEvent::decision_recorded(&decision));
        state.decision = Some(decision);
        state.paused = Some(false);
        Ok(NodeOutput::cont())
    }
}

/// Clears the pause so execution can continue after outside intervention.
#[derive(Clone, Debug)]
pub struct ResumeNode {
    id: String,
}

impl ResumeNode {
    /// A resume node.
    pub fn new(id: &str) -> (r: Self)
        ensures
            r.id()@ == id@,
    {
        ResumeNode { id: owned(id) }
    }

    /// The node id.
    pub closed spec fn id(&self) -> String {
        self.id
    }

    /// The node id.
    pub fn node_id(&self) -> (r: &str)
        ensures
            r@ == self.id()@,
    {
        self.id.as_str()
    }

    /// Clears the pause flag and continues.
    pub fn execute(&self, state: &mut HitlContext) -> (r: NodeOutput)
        ensures
            r@ == OutputView::Continue(None),
            final(state).paused == Some(false),
            same_inputs(*final(state), *old(state)),
            final(state).request == old(state).request,
            final(state).explanation == old(state).explanation,
            final(state).decision == old(state).decision,
            final(state).events == old(state).events,
    {
        state.paused = Some(false);
        NodeOutput::cont()
    }
}


/// A recorded decision is followed by its own status: a denial goes to
/// `denied` and never to `approved`, an approval goes to `approved`, and a
/// decision still pending keeps waiting; no two statuses share a route.
pub proof fn lemma_decision_routes_follow_status(a: ApprovalStatus, b: ApprovalStatus)
    ensures
        decision_route(ApprovalStatus::Denied) == "denied"@,
        decision_route(ApprovalStatus::Approved) == "approved"@,
        decision_route(ApprovalStatus::Pending) == "awaiting_approval"@,
        a != b ==> decision_route(a) != decision_route(b),
{
    reveal_strlit("denied");
    reveal_strlit("approved");
    reveal_strlit("awaiting_approval");
    assert("denied"@ != "approved"@) by {
        assert("denied"@[0] != "approved"@[0]);
    }
    assert("denied"@ != "awaiting_approval"@) by {
        assert("denied"@[0] != "awaiting_approval"@[0]);
    }
    assert("approved"@ != "awaiting_approval"@) by {
        assert("approved"@.len() != "awaiting_approval"@.len());
    }
}

} // verus!
