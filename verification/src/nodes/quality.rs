//! Quality-report and change-risk gates.

use crate::graph::{NodeOutput, OutputView};
use crate::text::owned;
use vstd::prelude::*;

verus! {

broadcast use vstd::string::group_string_axioms;

/// Severity of a review finding.
#[derive(Clone, Copy, Debug, PartialEq, Eq, Structural)]
pub enum Severity {
    /// Informational.
    Info,
    /// Worth a look; does not block.
    Warning,
    /// Blocks merge.
    Error,
}

/// A finding from a review of the change.
#[derive(Clone, Debug)]
pub struct ReviewFinding {
    /// How serious it is.
    pub severity: Severity,
    /// File it concerns.
    pub file: String,
    /// Line it concerns.
    pub line: Option<usize>,
    /// What was found.
    pub message: String,
    /// The rule that found it.
    pub rule_id: String,
}

/// Results of quality checks on a change.
#[derive(Debug)]
pub struct QualityReport {
    /// Review findings.
    pub findings: Vec<ReviewFinding>,
    /// Checks that passed.
    pub passed_checks: Vec<String>,
    /// Checks that failed.
    pub failed_checks: Vec<String>,
}

impl Default for QualityReport {
    /// No findings and no checks.
    fn default() -> (r: Self)
        ensures
            r.findings@.len() == 0,
            r.passed_checks@.len() == 0,
            r.failed_checks@.len() == 0,
    {
        QualityReport { findings: Vec::new(), passed_checks: Vec::new(), failed_checks: Vec::new() }
    }
}

/// No check failed and no finding is an error.
pub open spec fn mergeable(r: QualityReport) -> bool {
    r.failed_checks@.len() == 0 && forall|i: int|
        0 <= i < r.findings@.len() ==> (#[trigger] r.findings@[i]).severity != Severity::Error
}

impl QualityReport {
    /// Whether the change may merge: no check failed and no finding is an
    /// error.
    pub fn is_mergeable(&self) -> (r: bool)
        ensures
            r == mergeable(*self),
    {
        if self.failed_checks.len() > 0 {
            return false;
        }
        let mut i: usize = 0;
        while i < self.findings.len()
            invariant
                i <= self.findings@.len(),
                forall|k: int| 0 <= k < i ==> (#[trigger] self.findings@[k]).severity != Severity::Error,
            decreases self.findings@.len() - i,
        {
            if self.findings[i].severity == Severity::Error {
                return false;
            }
            i += 1;
        }
        true
    }
}

/// Blocks merge when the quality report is not mergeable.
#[derive(Clone, Debug)]
pub struct QualityGateNode {
    id: String,
}

impl QualityGateNode {
    /// A quality gate node.
    pub fn new(id: &str) -> (r: Self)
        ensures
            r.id()@ == id@,
    {
        QualityGateNode { id: owned(id) }
    }

    /// The node id.
    pub closed spec fn id(&self) -> String {
        self.id
    }

    /// The node id.
    pub fn node_id(&self) -> (r: &str)
        ensures
            r@ == self.id()@,
    {
        self.id.as_str()
    }

    /// `pass` for a mergeable report (an absent report is empty, so
    /// mergeable), else `block`.
    pub fn execute(&self, report: Option<&QualityReport>) -> (r: NodeOutput)
        ensures
            r@ == OutputView::Transition(
                match report {
                    Some(q) => if mergeable(*q) {
                        "pass"@
                    } else {
                        "block"@
                    },
                    None => "pass"@,
                },
            ),
    {
        let ok = match report {
            Some(q) => q.is_mergeable(),
            None => true,
        };
        if ok {
            NodeOutput::transition("pass")
        } else {
            NodeOutput::transition("block")
        }
    }
}

/// Risk level of a change.
#[derive(Clone, Copy, Debug, PartialEq, Eq, Structural)]
pub enum RiskLevel {
    /// Low risk.
    Low,
    /// Medium risk.
    Medium,
    /// High risk, such as destructive operations.
    High,
}

/// Routes change approval on the classified risk.
#[derive(Clone, Debug)]
pub struct ChangeRiskClassifierNode {
    id: String,
}

impl ChangeRiskClassifierNode {
    /// A risk routing node.
    pub fn new(id: &str) -> (r: Self)
        ensures
            r.id()@ == id@,
    {
        ChangeRiskClassifierNode { id: owned(id) }
    }

    /// The node id.
    pub closed spec fn id(&self) -> String {
        self.id
    }

    /// The node id.
    pub fn node_id(&self) -> (r: &str)
        ensures
            r@ == self.id()@,
    {
        self.id.as_str()
    }

    /// `require_approval` for high risk, else `auto_approve`; an absent
    /// level counts as low.
    pub fn execute(&self, risk: Option<RiskLevel>) -> (r: NodeOutput)
        ensures
            r@ == OutputView::Transition(
                if risk == Some(RiskLevel::High) {
                    "require_approval"@
                } else {
                    "auto_approve"@
                },
            ),
    {
        match risk {
            Some(RiskLevel::High) => NodeOutput::transition("require_approval"),
            _ => NodeOutput::transition("auto_approve"),
        }
    }
}

} // verus!
