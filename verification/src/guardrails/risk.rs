//! Change-risk classification for approval routing.

use crate::text::owned;
use vstd::prelude::*;

verus! {

/// Risk level for an autonomous change.
#[derive(Clone, Copy, Debug, PartialEq, Eq, PartialOrd, Ord, Hash, Structural)]
pub enum RiskLevel {
    /// Low risk: auto-merge eligible when gates pass
    Low,
    /// Medium: may need review
    Medium,
    /// High: requires explicit human approval
    High,
}

/// The name `{:?}` shows for a risk level.
pub open spec fn risk_name(r: RiskLevel) -> Seq<char> {
    match r {
        RiskLevel::Low => "Low"@,
        RiskLevel::Medium => "Medium"@,
        RiskLevel::High => "High"@,
    }
}

/// Name of a risk level, as its debug form shows it.
pub fn risk_label(r: RiskLevel) -> (s: &'static str)
    ensures
        s@ == risk_name(r),
{
    match r {
        RiskLevel::Low => "Low",
        RiskLevel::Medium => "Medium",
        RiskLevel::High => "High",
    }
}

/// Describes a proposed change for risk scoring.
#[derive(Clone, Copy, Debug, PartialEq, Eq, Structural)]
pub struct ChangeRisk {
    /// Number of files touched
    pub files_changed: u32,
    /// Whether destructive git operations are requested
    pub destructive_git: bool,
    /// Whether shell commands were used
    pub used_shell: bool,
    /// Whether network tools were invoked
    pub used_network: bool,
    /// Lines deleted (approximate)
    pub lines_deleted: u32,
}

impl Default for ChangeRisk {
    /// No files, no deletions, no risky operations.
    fn default() -> (r: Self)
        ensures
            r.files_changed == 0,
            !r.destructive_git,
            !r.used_shell,
            !r.used_network,
            r.lines_deleted == 0,
    {
        ChangeRisk {
            files_changed: 0,
            destructive_git: false,
            used_shell: false,
            used_network: false,
            lines_deleted: 0,
        }
    }
}

/// Merge blocker rule outcome.
#[derive(Clone, Debug, PartialEq)]
pub struct MergeBlocker {
    /// Whether merge is blocked
    pub blocked: bool,
    /// Reason shown to humans and agents
    pub reason: String,
}

/// Classifies change risk for human-in-the-loop routing.
#[derive(Clone, Copy, Debug, PartialEq, Eq, Structural)]
pub struct RiskClassifier {
    /// Deleting at least this many lines is high risk.
    pub high_risk_delete_threshold: u32,
}

impl Default for RiskClassifier {
    /// A classifier whose deletion threshold is zero.
    fn default() -> (r: Self)
        ensures
            r.high_risk_delete_threshold == 0,
    {
        RiskClassifier { high_risk_delete_threshold: 0 }
    }
}

/// The risk of a change under a deletion threshold.
pub open spec fn spec_classify(threshold: u32, c: ChangeRisk) -> RiskLevel {
    if c.destructive_git || c.lines_deleted >= threshold {
        RiskLevel::High
    } else if c.used_network || c.files_changed > 20 || c.used_shell || c.files_changed > 5 {
        RiskLevel::Medium
    } else {
        RiskLevel::Low
    }
}

/// Why merge is blocked: failed gates first, then high risk; empty when
/// merge is not blocked.
pub open spec fn merge_block_reason(gates_passed: bool, risk: RiskLevel) -> Seq<char> {
    if !gates_passed {
        "Required quality gates failed"@
    } else if risk == RiskLevel::High {
        "High-risk change requires explicit human approval"@
    } else {
        Seq::empty()
    }
}

/// The routing key after risk evaluation.
pub open spec fn spec_approval_route(risk: RiskLevel, gates_passed: bool) -> Seq<char> {
    if !gates_passed {
        "gate_failed"@
    } else {
        match risk {
            RiskLevel::High => "needs_approval"@,
            RiskLevel::Medium => "review"@,
            RiskLevel::Low => "passed"@,
        }
    }
}

impl RiskClassifier {
    /// A classifier with the default deletion threshold of 100 lines.
    pub fn new() -> (r: Self)
        ensures
            r.high_risk_delete_threshold == 100,
    {
        RiskClassifier { high_risk_delete_threshold: 100 }
    }

    /// Classify change risk: destructive git or large deletions are high;
    /// network use, shell use or more than five files are medium.
    pub fn classify(&self, change: &ChangeRisk) -> (r: RiskLevel)
        ensures
            r == spec_classify(self.high_risk_delete_threshold, *change),
            (change.destructive_git || change.lines_deleted >= self.high_risk_delete_threshold) <==> r
                == RiskLevel::High,
            r == RiskLevel::Low <==> (r != RiskLevel::High && !change.used_network && !change.used_shell
                && change.files_changed <= 5),
    {
        if change.destructive_git {
            return RiskLevel::High;
        }
        if change.lines_deleted >= self.high_risk_delete_threshold {
            return RiskLevel::High;
        }
        if change.used_network || change.files_changed > 20 {
            return RiskLevel::Medium;
        }
        if change.used_shell || change.files_changed > 5 {
            return RiskLevel::Medium;
        }
        RiskLevel::Low
    }

    /// Merge is blocked when gates failed or the change is high risk.
    pub fn merge_blocker(&self, gates_passed: bool, risk: RiskLevel) -> (r: MergeBlocker)
        ensures
            r.blocked == (!gates_passed || risk == RiskLevel::High),
            r.reason@ == merge_block_reason(gates_passed, risk),
    {
        if !gates_passed {
            return MergeBlocker { blocked: true, reason: owned("Required quality gates failed") };
        }
        if risk == RiskLevel::High {
            return MergeBlocker {
                blocked: true,
                reason: owned("High-risk change requires explicit human approval"),
            };
        }
        MergeBlocker { blocked: false, reason: String::new() }
    }

    /// Transition key for routing after risk evaluation: `gate_failed` when
    /// gates failed, else `needs_approval`, `review` or `passed` by risk.
    pub fn approval_route(risk: RiskLevel, gates_passed: bool) -> (r: &'static str)
        ensures
            r@ == spec_approval_route(risk, gates_passed),
    {
        if !gates_passed {
            return "gate_failed";
        }
        match risk {
            RiskLevel::High => "needs_approval",
            RiskLevel::Medium => "review",
            RiskLevel::Low => "passed",
        }
    }
}

/// Rank of a risk level: low 0, medium 1, high 2.
pub open spec fn risk_rank(r: RiskLevel) -> int {
    match r {
        RiskLevel::Low => 0,
        RiskLevel::Medium => 1,
        RiskLevel::High => 2,
    }
}

/// Raising any risk factor never lowers the classified risk.
pub proof fn lemma_classify_monotone(threshold: u32, a: ChangeRisk, b: ChangeRisk)
    requires
        a.files_changed <= b.files_changed,
        a.lines_deleted <= b.lines_deleted,
        a.destructive_git ==> b.destructive_git,
        a.used_shell ==> b.used_shell,
        a.used_network ==> b.used_network,
    ensures
        risk_rank(spec_classify(threshold, a)) <= risk_rank(spec_classify(threshold, b)),
{
}


/// What each risk level means. A change is high risk exactly when it
/// rewrites git history destructively or deletes at least `threshold`
/// lines. Short of that, it is medium risk exactly when it used network
/// tools, used a shell, or touched more than five files; otherwise it is low
/// risk.
pub proof fn lemma_risk_levels(threshold: u32, c: ChangeRisk)
    ensures
        spec_classify(threshold, c) == RiskLevel::High <==> (c.destructive_git || c.lines_deleted
            >= threshold),
        !c.destructive_git && c.lines_deleted < threshold && c.used_network ==> spec_classify(
            threshold,
            c,
        ) == RiskLevel::Medium,
        !c.destructive_git && c.lines_deleted < threshold && c.used_shell ==> spec_classify(
            threshold,
            c,
        ) == RiskLevel::Medium,
        !c.destructive_git && c.lines_deleted < threshold && c.files_changed > 5 ==> spec_classify(
            threshold,
            c,
        ) == RiskLevel::Medium,
        spec_classify(threshold, c) == RiskLevel::Low <==> (!c.destructive_git && c.lines_deleted
            < threshold && !c.used_network && !c.used_shell && c.files_changed <= 5),
{
}

} // verus!
