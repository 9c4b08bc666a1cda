//! Machine-readable review findings and gate results.

use crate::text::owned;
use vstd::prelude::*;

verus! {

/// Severity of a review or gate finding.
#[derive(Clone, Copy, Debug, PartialEq, Eq, PartialOrd, Ord, Hash, Structural)]
pub enum FindingSeverity {
    /// Informational only
    Info,
    /// Warning: should fix but not blocking by default
    Warning,
    /// Error: blocks merge when a required quality gate finds it
    Error,
}

/// The name `{:?}` shows for a severity.
pub open spec fn severity_name(s: FindingSeverity) -> Seq<char> {
    match s {
        FindingSeverity::Info => "Info"@,
        FindingSeverity::Warning => "Warning"@,
        FindingSeverity::Error => "Error"@,
    }
}

/// Name of a severity, as its debug form shows it.
pub fn severity_label(s: FindingSeverity) -> (r: &'static str)
    ensures
        r@ == severity_name(s),
{
    match s {
        FindingSeverity::Info => "Info",
        FindingSeverity::Warning => "Warning",
        FindingSeverity::Error => "Error",
    }
}

/// A single review finding with file/line reference when available.
#[derive(Clone, Debug, PartialEq)]
pub struct ReviewFinding {
    /// Stable rule or check identifier
    pub rule_id: String,
    /// Human-readable message
    pub message: String,
    /// Severity
    pub severity: FindingSeverity,
    /// File path relative to repo root
    pub file: Option<String>,
    /// 1-based line number
    pub line: Option<u32>,
    /// Column when known
    pub column: Option<u32>,
}

impl ReviewFinding {
    /// An error-level finding with no location.
    pub fn error(rule_id: &str, message: &str) -> (r: Self)
        ensures
            r.rule_id@ == rule_id@,
            r.message@ == message@,
            r.severity == FindingSeverity::Error,
            r.file is None,
            r.line is None,
            r.column is None,
    {
        ReviewFinding {
            rule_id: owned(rule_id),
            message: owned(message),
            severity: FindingSeverity::Error,
            file: None,
            line: None,
            column: None,
        }
    }

    /// Attach a file/line location.
    pub fn at(self, file: &str, line: u32) -> (r: Self)
        ensures
            r.rule_id == self.rule_id,
            r.message == self.message,
            r.severity == self.severity,
            r.file matches Some(f) && f@ == file@,
            r.line == Some(line),
            r.column == self.column,
    {
        ReviewFinding { file: Some(owned(file)), line: Some(line), ..self }
    }

    /// A copy of this finding.
    pub fn duplicate(&self) -> (r: Self)
        ensures
            r == *self,
    {
        ReviewFinding {
            rule_id: self.rule_id.clone(),
            message: self.message.clone(),
            severity: self.severity,
            file: match &self.file {
                Some(f) => Some(f.clone()),
                None => None,
            },
            line: self.line,
            column: self.column,
        }
    }
}

/// Result of a single quality check (e.g. clippy, test).
#[derive(Clone, Debug, PartialEq)]
pub struct GateCheck {
    /// Check name (e.g. "clippy", "test")
    pub name: String,
    /// Whether the check passed
    pub passed: bool,
    /// Exit code from the underlying command
    pub exit_code: Option<i32>,
    /// Duration in milliseconds
    pub duration_ms: u64,
    /// Stdout/stderr excerpt for diagnostics
    pub log_excerpt: String,
    /// Findings produced by this check
    pub findings: Vec<ReviewFinding>,
}

/// Aggregate gate result stored on agent state.
#[derive(Clone, Debug, PartialEq)]
pub struct GateResult {
    /// Whether all required checks passed
    pub passed: bool,
    /// Individual check results
    pub checks: Vec<GateCheck>,
    /// All findings across checks
    pub findings: Vec<ReviewFinding>,
    /// Whether merge should be blocked
    pub merge_blocked: bool,
}

/// Whether some finding is an error.
pub open spec fn has_error(fs: Seq<ReviewFinding>) -> bool {
    exists|i: int| 0 <= i < fs.len() && (#[trigger] fs[i]).severity == FindingSeverity::Error
}

/// The number of error findings.
pub open spec fn error_count(fs: Seq<ReviewFinding>) -> nat
    decreases fs.len(),
{
    if fs.len() == 0 {
        0
    } else {
        error_count(fs.drop_last()) + if fs.last().severity == FindingSeverity::Error {
            1nat
        } else {
            0nat
        }
    }
}

proof fn lemma_error_count_bound(fs: Seq<ReviewFinding>)
    ensures
        error_count(fs) <= fs.len(),
    decreases fs.len(),
{
    if fs.len() > 0 {
        lemma_error_count_bound(fs.drop_last());
    }
}

/// Whether some finding in the list is an error.
pub fn any_error(fs: &Vec<ReviewFinding>) -> (r: bool)
    ensures
        r == has_error(fs@),
{
    let mut i: usize = 0;
    while i < fs.len()
        invariant
            i <= fs@.len(),
            forall|k: int| 0 <= k < i ==> fs@[k].severity != FindingSeverity::Error,
        decreases fs@.len() - i,
    {
        if fs[i].severity == FindingSeverity::Error {
            return true;
        }
        i += 1;
    }
    false
}

impl GateResult {
    /// A passing gate result with no findings.
    pub fn pass(checks: Vec<GateCheck>) -> (r: Self)
        ensures
            r.passed,
            r.checks == checks,
            r.findings@.len() == 0,
            !r.merge_blocked,
    {
        GateResult { passed: true, checks, findings: Vec::new(), merge_blocked: false }
    }

    /// A failing gate result; merge is blocked when a finding is an error.
    pub fn fail(checks: Vec<GateCheck>, findings: Vec<ReviewFinding>) -> (r: Self)
        ensures
            !r.passed,
            r.checks == checks,
            r.findings == findings,
            r.merge_blocked == has_error(findings@),
    {
        let has_errors = any_error(&findings);
        GateResult { passed: false, checks, findings, merge_blocked: has_errors }
    }

    /// The number of error findings.
    pub fn count_errors(&self) -> (r: usize)
        ensures
            r == error_count(self.findings@),
    {
        let mut n: usize = 0;
        let mut i: usize = 0;
        while i < self.findings.len()
            invariant
                i <= self.findings@.len(),
                n == error_count(self.findings@.take(i as int)),
            decreases self.findings@.len() - i,
        {
            proof {
                assert(self.findings@.take(i + 1).drop_last() == self.findings@.take(i as int));
                lemma_error_count_bound(self.findings@.take(i as int));
            }
            if self.findings[i].severity == FindingSeverity::Error {
                n += 1;
            }
            i += 1;
        }
        assert(self.findings@.take(self.findings@.len() as int) == self.findings@);
        n
    }
}

} // verus!
