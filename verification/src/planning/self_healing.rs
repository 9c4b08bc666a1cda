//! Failure classification and retry limits for self-healing execution.

use crate::clock::now_millis;
use crate::text::{contains_seq, owned, str_contains};
use vstd::prelude::*;

verus! {

broadcast use vstd::string::group_string_axioms;

/// Taxonomy of task execution failures.
#[derive(Clone, Copy, Debug, PartialEq, Eq, Hash, Structural)]
pub enum FailureClass {
    /// Code syntax or compiler type-checking errors.
    Compile,
    /// Test assertions or test suite run failures.
    Test,
    /// Uncaught exceptions, panics, memory faults at runtime.
    Runtime,
    /// Downstream API, network, database connection errors.
    Integration,
    /// Catch-all for uncategorized errors.
    Unknown,
}

/// The lowercase name of a failure class.
pub open spec fn class_name(c: FailureClass) -> Seq<char> {
    match c {
        FailureClass::Compile => "compile"@,
        FailureClass::Test => "test"@,
        FailureClass::Runtime => "runtime"@,
        FailureClass::Integration => "integration"@,
        FailureClass::Unknown => "unknown"@,
    }
}

impl FailureClass {
    /// The lowercase name of the class.
    pub fn as_str(&self) -> (r: &'static str)
        ensures
            r@ == class_name(*self),
    {
        match self {
            FailureClass::Compile => "compile",
            FailureClass::Test => "test",
            FailureClass::Runtime => "runtime",
            FailureClass::Integration => "integration",
            FailureClass::Unknown => "unknown",
        }
    }
}

/// Retry limits for a failure class.
#[derive(Clone, Copy, Debug, PartialEq, Eq, Structural)]
pub struct RetryPolicy {
    /// Maximum number of recovery attempts before halting.
    pub max_attempts: usize,
    /// Backoff factor, carried as metadata.
    pub backoff_factor: u32,
}

impl Default for RetryPolicy {
    /// Three attempts, backoff factor one.
    fn default() -> (r: Self)
        ensures
            r.max_attempts == 3,
            r.backoff_factor == 1,
    {
        RetryPolicy { max_attempts: 3, backoff_factor: 1 }
    }
}

impl RetryPolicy {
    /// A policy with the given attempts and backoff factor one.
    pub fn new(max_attempts: usize) -> (r: Self)
        ensures
            r.max_attempts == max_attempts,
            r.backoff_factor == 1,
    {
        RetryPolicy { max_attempts, backoff_factor: 1 }
    }

    /// For compilation errors: three attempts, backoff one.
    pub fn compile_default() -> (r: Self)
        ensures
            r.max_attempts == 3,
            r.backoff_factor == 1,
    {
        RetryPolicy { max_attempts: 3, backoff_factor: 1 }
    }

    /// For test failures: two attempts, backoff two.
    pub fn test_default() -> (r: Self)
        ensures
            r.max_attempts == 2,
            r.backoff_factor == 2,
    {
        RetryPolicy { max_attempts: 2, backoff_factor: 2 }
    }

    /// For runtime exceptions: two attempts, backoff two.
    pub fn runtime_default() -> (r: Self)
        ensures
            r.max_attempts == 2,
            r.backoff_factor == 2,
    {
        RetryPolicy { max_attempts: 2, backoff_factor: 2 }
    }

    /// For integration, network and API issues: four attempts, backoff three.
    pub fn integration_default() -> (r: Self)
        ensures
            r.max_attempts == 4,
            r.backoff_factor == 3,
    {
        RetryPolicy { max_attempts: 4, backoff_factor: 3 }
    }
}

/// An audit record of a recovery action.
#[derive(Clone, Debug, PartialEq, Eq)]
pub struct RecoveryRecord {
    /// The failed task.
    pub task_id: String,
    /// The attempt number, from one.
    pub attempt: usize,
    /// Classified category of the failure.
    pub failure_class: FailureClass,
    /// The error that triggered the recovery.
    pub error: String,
    /// The action taken.
    pub decision: String,
    /// Why.
    pub rationale: String,
    /// When the decision was recorded, in milliseconds since the Unix epoch.
    pub timestamp: i64,
}

impl RecoveryRecord {
    /// A record stamped with the current time.
    pub fn new(
        task_id: &str,
        attempt: usize,
        failure_class: FailureClass,
        error: &str,
        decision: &str,
        rationale: &str,
    ) -> (r: Self)
        ensures
            r.task_id@ == task_id@,
            r.attempt == attempt,
            r.failure_class == failure_class,
            r.error@ == error@,
            r.decision@ == decision@,
            r.rationale@ == rationale@,
    {
        RecoveryRecord {
            task_id: owned(task_id),
            attempt,
            failure_class,
            error: owned(error),
            decision: owned(decision),
            rationale: owned(rationale),
            timestamp: now_millis(),
        }
    }
}

/// The Unicode lowercase form of a text, as `str::to_lowercase` gives it.
pub uninterp spec fn unicode_lowercase(s: Seq<char>) -> Seq<char>;

/// `str::to_lowercase`: the Unicode lowercase mapping of every character.
/// The mapping is named, not spelled out.
#[verifier::external_body]
fn to_lowercase(s: &str) -> (r: String)
    ensures
        r@ == unicode_lowercase(s@),
{
    s.to_lowercase()
}

/// The class of a lowercased error message: compile errors first, then test
/// failures, integration problems and runtime faults, by the phrases each
/// is known by.
pub open spec fn classify_lowered(m: Seq<char>) -> FailureClass {
    if contains_seq(m, "compile"@) || contains_seq(m, "compilation"@) || contains_seq(m, "cargo build"@)
        || contains_seq(m, "rustc"@) || contains_seq(m, "syntax error"@) {
        FailureClass::Compile
    } else if contains_seq(m, "test failed"@) || contains_seq(m, "cargo test"@) || contains_seq(
        m,
        "assertion failed"@,
    ) || contains_seq(m, "panic at"@) || contains_seq(m, "test failure"@) {
        FailureClass::Test
    } else if contains_seq(m, "connection refused"@) || contains_seq(m, "api gateway"@) || contains_seq(
        m,
        "integration"@,
    ) || contains_seq(m, "webhook"@) || contains_seq(m, "network error"@) || contains_seq(m, "timeout"@) {
        FailureClass::Integration
    } else if contains_seq(m, "runtime error"@) || contains_seq(m, "panicked"@) || contains_seq(
        m,
        "null pointer"@,
    ) || contains_seq(m, "segmentation fault"@) || contains_seq(m, "index out of bounds"@) {
        FailureClass::Runtime
    } else {
        FailureClass::Unknown
    }
}

/// The class of an already lowercased error message.
pub fn classify_lowercase(m: &str) -> (r: FailureClass)
    ensures
        r == classify_lowered(m@),
{
    if str_contains(m, "compile") || str_contains(m, "compilation") || str_contains(m, "cargo build")
        || str_contains(m, "rustc") || str_contains(m, "syntax error") {
        FailureClass::Compile
    } else if str_contains(m, "test failed") || str_contains(m, "cargo test") || str_contains(
        m,
        "assertion failed",
    ) || str_contains(m, "panic at") || str_contains(m, "test failure") {
        FailureClass::Test
    } else if str_contains(m, "connection refused") || str_contains(m, "api gateway") || str_contains(
        m,
        "integration",
    ) || str_contains(m, "webhook") || str_contains(m, "network error") || str_contains(m, "timeout") {
        FailureClass::Integration
    } else if str_contains(m, "runtime error") || str_contains(m, "panicked") || str_contains(
        m,
        "null pointer",
    ) || str_contains(m, "segmentation fault") || str_contains(m, "index out of bounds") {
        FailureClass::Runtime
    } else {
        FailureClass::Unknown
    }
}

/// The class of an error message, matched on its Unicode lowercase form.
pub fn classify_failure(error_msg: &str) -> (r: FailureClass)
    ensures
        r == classify_lowered(unicode_lowercase(error_msg@)),
{
    let lowered = to_lowercase(error_msg);
    classify_lowercase(lowered.as_str())
}

} // verus!
