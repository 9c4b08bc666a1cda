//! Human-in-the-loop approval policy matrix.

use crate::guardrails::risk::RiskLevel;
use crate::text::owned;
use vstd::prelude::*;

verus! {

broadcast use vstd::string::group_string_axioms;

/// Action taken when a checkpoint is evaluated.
#[derive(Clone, Copy, Debug, PartialEq, Eq, Structural)]
pub enum ApprovalAction {
    /// Continue without pausing.
    Allow,
    /// Pause execution until a human approves.
    Pause,
    /// Reject and route to a denial path.
    Deny,
}

/// Maps risk levels to required approval behavior.
#[derive(Clone, Copy, Debug, PartialEq, Eq, Structural)]
pub struct ApprovalMatrix {
    low: ApprovalAction,
    medium: ApprovalAction,
    high: ApprovalAction,
}

/// The actions of a matrix for low, medium and high risk.
pub struct MatrixView {
    pub low: ApprovalAction,
    pub medium: ApprovalAction,
    pub high: ApprovalAction,
}

impl View for ApprovalMatrix {
    type V = MatrixView;

    closed spec fn view(&self) -> MatrixView {
        MatrixView { low: self.low, medium: self.medium, high: self.high }
    }
}

/// The action a matrix prescribes for a risk level.
pub open spec fn matrix_action(m: MatrixView, risk: RiskLevel) -> ApprovalAction {
    match risk {
        RiskLevel::Low => m.low,
        RiskLevel::Medium => m.medium,
        RiskLevel::High => m.high,
    }
}

impl Default for ApprovalMatrix {
    /// Low risk continues; medium and high risk pause.
    fn default() -> (r: Self)
        ensures
            r@ == (MatrixView {
                low: ApprovalAction::Allow,
                medium: ApprovalAction::Pause,
                high: ApprovalAction::Pause,
            }),
    {
        ApprovalMatrix {
            low: ApprovalAction::Allow,
            medium: ApprovalAction::Pause,
            high: ApprovalAction::Pause,
        }
    }
}

impl ApprovalMatrix {
    /// Permissive matrix: only high risk pauses.
    pub fn permissive() -> (r: Self)
        ensures
            r@ == (MatrixView {
                low: ApprovalAction::Allow,
                medium: ApprovalAction::Allow,
                high: ApprovalAction::Pause,
            }),
    {
        ApprovalMatrix {
            low: ApprovalAction::Allow,
            medium: ApprovalAction::Allow,
            high: ApprovalAction::Pause,
        }
    }

    /// Strict matrix: medium and high risk both pause.
    pub fn strict() -> (r: Self)
        ensures
            r@ == (MatrixView {
                low: ApprovalAction::Allow,
                medium: ApprovalAction::Pause,
                high: ApprovalAction::Pause,
            }),
    {
        ApprovalMatrix {
            low: ApprovalAction::Allow,
            medium: ApprovalAction::Pause,
            high: ApprovalAction::Pause,
        }
    }

    /// The action for a risk level.
    pub fn action_for(&self, risk: RiskLevel) -> (r: ApprovalAction)
        ensures
            r == matrix_action(self@, risk),
    {
        match risk {
            RiskLevel::Low => self.low,
            RiskLevel::Medium => self.medium,
            RiskLevel::High => self.high,
        }
    }

    /// Whether execution must pause for human input at this risk level.
    pub fn requires_pause(&self, risk: RiskLevel) -> (r: bool)
        ensures
            r == (matrix_action(self@, risk) == ApprovalAction::Pause),
    {
        self.action_for(risk) == ApprovalAction::Pause
    }
}

/// Named approver role for audit trails.
#[derive(Clone, Debug, PartialEq, Eq)]
pub struct ApproverRole(pub String);

impl ApproverRole {
    /// The default operator role, `operator`.
    pub fn operator() -> (r: Self)
        ensures
            r.0@ == "operator"@,
    {
        ApproverRole(owned("operator"))
    }

    /// The security auditor role, `security`.
    pub fn security() -> (r: Self)
        ensures
            r.0@ == "security"@,
    {
        ApproverRole(owned("security"))
    }
}

/// Policy bundle used by checkpoint nodes.
#[derive(Clone, Debug)]
pub struct ApprovalPolicy {
    /// Risk-to-action matrix.
    pub matrix: ApprovalMatrix,
    /// Role recorded on approval events.
    pub approver_role: ApproverRole,
}

impl Default for ApprovalPolicy {
    /// The default matrix and the operator role.
    fn default() -> (r: Self)
        ensures
            r.matrix@ == (MatrixView {
                low: ApprovalAction::Allow,
                medium: ApprovalAction::Pause,
                high: ApprovalAction::Pause,
            }),
            r.approver_role.0@ == "operator"@,
    {
        ApprovalPolicy { matrix: ApprovalMatrix::default(), approver_role: ApproverRole::operator() }
    }
}

impl ApprovalPolicy {
    /// A policy with a custom matrix and the operator role.
    pub fn with_matrix(matrix: ApprovalMatrix) -> (r: Self)
        ensures
            r.matrix == matrix,
            r.approver_role.0@ == "operator"@,
    {
        ApprovalPolicy { matrix, approver_role: ApproverRole::operator() }
    }
}

} // verus!
