//! Quality gate decisions for CI-style checks in agent graphs.
//!
//! Running the commands is the caller's part: it hands each check's outcome
//! here, and this module turns the outcomes into a gate result, folds in
//! externally supplied review findings, classifies the change and picks the
//! route.

use crate::guardrails::findings::{
    any_error, has_error, FindingSeverity, GateCheck, GateResult, ReviewFinding,
};
use crate::guardrails::risk::{merge_block_reason, 
    spec_approval_route, spec_classify, ChangeRisk, MergeBlocker, RiskClassifier, RiskLevel,
};
use crate::text::{
    concat_strings, decimal, i64_to_string, owned, str_eq, truncate_text, truncated,
};
use vstd::prelude::*;

verus! {

broadcast use vstd::string::group_string_axioms;

/// Context key for externally supplied review findings; any error-level
/// finding there fails a quality gate even when every command passes.
pub const REVIEW_FINDINGS_KEY: &'static str = "review_findings";

/// Longest command output, in bytes, kept in a check's log excerpt.
pub const LOG_EXCERPT_MAX: usize = 2000;

/// A command to run as a quality gate.
#[derive(Clone, Debug, PartialEq, Eq)]
pub struct CommandSpec {
    /// Check name for reporting
    pub name: String,
    /// Program to execute
    pub program: String,
    /// Arguments
    pub args: Vec<String>,
}

/// Configuration for quality gate checks.
#[derive(Clone, Debug)]
pub struct QualityGateConfig {
    /// Commands to run, in order
    pub checks: Vec<CommandSpec>,
    /// Whether failing checks block merge
    pub block_on_failure: bool,
}

/// A command spec from literal parts.
fn command(name: &str, program: &str, args: Vec<String>) -> (r: CommandSpec)
    ensures
        r.name@ == name@,
        r.program@ == program@,
        r.args == args,
{
    CommandSpec { name: owned(name), program: owned(program), args }
}

impl QualityGateConfig {
    /// Standard Rust project gates: `cargo fmt -- --check`, `cargo clippy
    /// --all-targets -- -D warnings` and `cargo test`, blocking on failure.
    pub fn rust_defaults() -> (r: Self)
        ensures
            r.block_on_failure,
            r.checks@.len() == 3,
            r.checks@[0].name@ == "fmt"@,
            r.checks@[1].name@ == "clippy"@,
            r.checks@[2].name@ == "test"@,
            r.checks@[0].program@ == "cargo"@,
            r.checks@[1].program@ == "cargo"@,
            r.checks@[2].program@ == "cargo"@,
            r.checks@[0].args@.map_values(|a: String| a@) == seq!["fmt"@, "--"@, "--check"@],
            r.checks@[1].args@.map_values(|a: String| a@) == seq![
                "clippy"@,
                "--all-targets"@,
                "--"@,
                "-D"@,
                "warnings"@,
            ],
            r.checks@[2].args@.map_values(|a: String| a@) == seq!["test"@],
    {
        let fmt_args = vec![owned("fmt"), owned("--"), owned("--check")];
        assert(fmt_args@.map_values(|a: String| a@) =~= seq!["fmt"@, "--"@, "--check"@]);
        let clippy_args = vec![
            owned("clippy"),
            owned("--all-targets"),
            owned("--"),
            owned("-D"),
            owned("warnings"),
        ];
        assert(clippy_args@.map_values(|a: String| a@) =~= seq![
            "clippy"@,
            "--all-targets"@,
            "--"@,
            "-D"@,
            "warnings"@,
        ]);
        let test_args = vec![owned("test")];
        assert(test_args@.map_values(|a: String| a@) =~= seq!["test"@]);
        let checks = vec![
            command("fmt", "cargo", fmt_args),
            command("clippy", "cargo", clippy_args),
            command("test", "cargo", test_args),
        ];
        QualityGateConfig { checks, block_on_failure: true }
    }
}

/// A command runner that answers from a table of canned results.
#[derive(Clone, Debug)]
pub struct MockCommandRunner {
    /// Check name and its (exit code, output); a later entry for a name
    /// replaces an earlier one.
    pub results: Vec<(String, (i32, String))>,
}

/// The result registered last for `name`, at or before index `n`.
pub open spec fn mock_lookup(v: Seq<(String, (i32, String))>, name: Seq<char>, n: int) -> Option<
    int,
>
    decreases n,
{
    if n <= 0 || n > v.len() {
        None
    } else if v[n - 1].0@ == name {
        Some(n - 1)
    } else {
        mock_lookup(v, name, n - 1)
    }
}

impl MockCommandRunner {
    /// A runner with no results.
    pub fn new() -> (r: Self)
        ensures
            r.results@.len() == 0,
    {
        MockCommandRunner { results: Vec::new() }
    }

    /// Register a result for a check name.
    pub fn with_result(self, name: &str, exit_code: i32, output: &str) -> (r: Self)
        ensures
            r.results@.len() == self.results@.len() + 1,
            r.results@.drop_last() == self.results@,
            r.results@.last().0@ == name@,
            r.results@.last().1.0 == exit_code,
            r.results@.last().1.1@ == output@,
    {
        let mut s = self;
        s.results.push((owned(name), (exit_code, owned(output))));
        s
    }

    /// What running `spec` gives: the registered result, or an error naming
    /// the check.
    pub fn run(&self, spec: &CommandSpec) -> (r: Result<(i32, String), String>)
        ensures
            match mock_lookup(self.results@, spec.name@, self.results@.len() as int) {
                Some(i) => r matches Ok(p) && p.0 == self.results@[i].1.0 && p.1@
                    == self.results@[i].1.1@,
                None => r matches Err(e) && e@ == "no mock result for "@ + spec.name@,
            },
    {
        let mut i: usize = self.results.len();
        while i > 0
            invariant
                i <= self.results@.len(),
                mock_lookup(self.results@, spec.name@, self.results@.len() as int) == mock_lookup(
                    self.results@,
                    spec.name@,
                    i as int,
                ),
            decreases i,
        {
            if str_eq(self.results[i - 1].0.as_str(), spec.name.as_str()) {
                let entry = &self.results[i - 1];
                return Ok((entry.1.0, entry.1.1.clone()));
            }
            i -= 1;
        }
        Err(concat_strings("no mock result for ", spec.name.as_str()))
    }
}

/// The outcome of running one check: exit code and combined output, or why
/// the command could not run; and how long it took.
#[derive(Debug)]
pub struct CheckRun {
    /// Exit code and output, or the runner's error.
    pub outcome: Result<(i32, String), String>,
    /// Duration in milliseconds.
    pub duration_ms: u64,
}

/// The error finding for a failed check.
pub open spec fn failure_finding(f: ReviewFinding, name: Seq<char>, code: i32) -> bool {
    &&& f.rule_id@ == "gate."@ + name
    &&& f.message@ == "Check '"@ + name + "' failed with exit code "@ + decimal(code as int)
    &&& f.severity == FindingSeverity::Error
    &&& f.file matches Some(file) && file@ == "Cargo.toml"@
    &&& f.line == Some(1u32)
    &&& f.column is None
}

/// The error finding for a check whose command could not run.
pub open spec fn runner_error_finding(f: ReviewFinding, name: Seq<char>, err: Seq<char>) -> bool {
    &&& f.rule_id@ == name
    &&& f.message@ == err
    &&& f.severity == FindingSeverity::Error
    &&& f.file is None
    &&& f.line is None
    &&& f.column is None
}

/// The check recorded for a command and its outcome.
pub open spec fn check_matches(c: GateCheck, spec: CommandSpec, run: CheckRun) -> bool {
    &&& c.name@ == spec.name@
    &&& c.duration_ms == run.duration_ms
    &&& match run.outcome {
        Err(e) => {
            &&& !c.passed
            &&& c.exit_code == Some(-1i32)
            &&& c.log_excerpt@ == e@
            &&& c.findings@.len() == 1
            &&& runner_error_finding(c.findings@[0], spec.name@, e@)
        },
        Ok((code, out)) => {
            &&& c.passed == (code == 0)
            &&& c.exit_code == Some(code)
            &&& c.log_excerpt@ == truncated(out@, LOG_EXCERPT_MAX as nat)
            &&& code == 0 ==> c.findings@.len() == 0
            &&& code != 0 ==> c.findings@.len() == 1 && failure_finding(
                c.findings@[0],
                spec.name@,
                code,
            )
        },
    }
}

/// The findings of all checks, in check order.
pub open spec fn all_findings(cs: Seq<GateCheck>) -> Seq<ReviewFinding>
    decreases cs.len(),
{
    if cs.len() == 0 {
        Seq::empty()
    } else {
        all_findings(cs.drop_last()) + cs.last().findings@
    }
}

/// Every check passed.
pub open spec fn all_passed(cs: Seq<GateCheck>) -> bool {
    forall|i: int| 0 <= i < cs.len() ==> (#[trigger] cs[i]).passed
}

/// The check for one command and its outcome.
fn check_for(spec: &CommandSpec, run: &CheckRun) -> (r: GateCheck)
    ensures
        check_matches(r, *spec, *run),
{
    match &run.outcome {
        Err(e) => {
            let finding = ReviewFinding::error(spec.name.as_str(), e.as_str());
            GateCheck {
                name: spec.name.clone(),
                passed: false,
                exit_code: Some(-1),
                duration_ms: run.duration_ms,
                log_excerpt: finding.message.clone(),
                findings: vec![finding],
            }
        },
        Ok((code, output)) => {
            let passed = *code == 0;
            let mut findings: Vec<ReviewFinding> = Vec::new();
            if !passed {
                let rule = concat_strings("gate.", spec.name.as_str());
                let m1 = concat_strings("Check '", spec.name.as_str());
                let m2 = concat_strings(m1.as_str(), "' failed with exit code ");
                let code_text = i64_to_string(*code as i64);
                let msg = concat_strings(m2.as_str(), code_text.as_str());
                findings.push(ReviewFinding::error(rule.as_str(), msg.as_str()).at("Cargo.toml", 1));
            }
            GateCheck {
                name: spec.name.clone(),
                passed,
                exit_code: Some(*code),
                duration_ms: run.duration_ms,
                log_excerpt: truncate_text(output.as_str(), LOG_EXCERPT_MAX),
                findings,
            }
        },
    }
}

proof fn lemma_failed_check_has_error(cs: Seq<GateCheck>, specs: Seq<CommandSpec>, runs: Seq<
    CheckRun,
>)
    requires
        cs.len() == specs.len() == runs.len(),
        forall|i: int| 0 <= i < cs.len() ==> check_matches(#[trigger] cs[i], specs[i], runs[i]),
    ensures
        has_error(all_findings(cs)) == !all_passed(cs),
        all_passed(cs) ==> all_findings(cs).len() == 0,
    decreases cs.len(),
{
    if cs.len() > 0 {
        let n = cs.len() - 1;
        assert(check_matches(cs[n], specs[n], runs[n]));
        lemma_failed_check_has_error(cs.drop_last(), specs.drop_last(), runs.drop_last());
        let prev = all_findings(cs.drop_last());
        let last = cs.last().findings@;
        assert(all_findings(cs) == prev + last);
        if has_error(prev) {
            let k = choose|k: int| 0 <= k < prev.len() && (#[trigger] prev[k]).severity
                == FindingSeverity::Error;
            assert((prev + last)[k] == prev[k]);
        }
        if !cs.last().passed {
            assert(last.len() == 1);
            assert((prev + last)[prev.len() as int] == last[0]);
        }
        if has_error(prev + last) {
            let k = choose|k: int| 0 <= k < (prev + last).len() && (#[trigger] (prev + last)[k]).severity
                == FindingSeverity::Error;
            if k >= prev.len() {
                assert(last[k - prev.len()] == (prev + last)[k]);
                assert(!cs.last().passed);
            } else {
                assert(prev[k] == (prev + last)[k]);
            }
        }
        if !all_passed(cs) {
            let j = choose|j: int| 0 <= j < cs.len() && !(#[trigger] cs[j]).passed;
            if j < n {
                assert(cs.drop_last()[j] == cs[j]);
            }
        }
        if all_passed(cs) {
            assert forall|j: int| 0 <= j < cs.drop_last().len() implies (
            #[trigger] cs.drop_last()[j]).passed by {
                assert(cs.drop_last()[j] == cs[j]);
            }
            assert(cs[n].passed);
        }
    }
}

/// The quality gate result for the configured checks and their outcomes: one check
/// record per command in order, all their findings, passing exactly when
/// every check passed; a failing gate blocks merge.
pub fn gate_result_from_runs(specs: &Vec<CommandSpec>, runs: &Vec<CheckRun>) -> (r: GateResult)
    requires
        specs@.len() == runs@.len(),
    ensures
        r.checks@.len() == specs@.len(),
        forall|i: int| 0 <= i < specs@.len() ==> check_matches(#[trigger] r.checks@[i], specs@[i], runs@[i]),
        r.findings@ == all_findings(r.checks@),
        r.passed == all_passed(r.checks@),
        r.merge_blocked == !r.passed,
{
    let mut checks: Vec<GateCheck> = Vec::new();
    let mut findings: Vec<ReviewFinding> = Vec::new();
    let mut i: usize = 0;
    while i < specs.len()
        invariant
            i <= specs@.len(),
            specs@.len() == runs@.len(),
            checks@.len() == i,
            forall|k: int| 0 <= k < i ==> check_matches(#[trigger] checks@[k], specs@[k], runs@[k]),
            findings@ == all_findings(checks@),
        decreases specs@.len() - i,
    {
        let c = check_for(&specs[i], &runs[i]);
        let ghost before = checks@;
        let mut j: usize = 0;
        let ghost f0 = findings@;
        while j < c.findings.len()
            invariant
                j <= c.findings@.len(),
                findings@ == f0 + c.findings@.take(j as int),
            decreases c.findings@.len() - j,
        {
            findings.push(c.findings[j].duplicate());
            j += 1;
            assert(c.findings@.take(j as int) == c.findings@.take(j - 1).push(c.findings@[j - 1]));
        }
        assert(c.findings@.take(c.findings@.len() as int) == c.findings@);
        checks.push(c);
        assert(checks@.drop_last() == before);
        i += 1;
    }
    let mut all_ok = true;
    let mut k: usize = 0;
    while k < checks.len()
        invariant
            k <= checks@.len(),
            all_ok == forall|m: int| 0 <= m < k ==> (#[trigger] checks@[m]).passed,
        decreases checks@.len() - k,
    {
        if !checks[k].passed {
            all_ok = false;
        }
        k += 1;
    }
    proof {
        lemma_failed_check_has_error(checks@, specs@, runs@);
    }
    if all_ok {
        GateResult::pass(checks)
    } else {
        GateResult::fail(checks, findings)
    }
}

/// What a gate decides once its checks have run.
#[derive(Clone, Debug)]
pub struct GateOutcome {
    /// The quality gate result with external findings folded in.
    pub gate_result: GateResult,
    /// The classified change risk.
    pub risk: RiskLevel,
    /// The merge blocker for the effective pass status and risk.
    pub merge_blocker: MergeBlocker,
    /// The transition key to follow.
    pub route: String,
}

/// Folds external review findings into a gate result, classifies the change
/// (the default change when none is recorded) and picks the route. An
/// error-level external finding fails a quality gate and blocks merge; routing
/// follows the actual gate status, while `block_on_failure` only decides
/// whether a failure blocks merge.
pub fn decide_gate(
    gate: GateResult,
    external: Option<Vec<ReviewFinding>>,
    change: Option<ChangeRisk>,
    block_on_failure: bool,
    classifier: &RiskClassifier,
) -> (r: GateOutcome)
    ensures
        r.gate_result.checks == gate.checks,
        r.gate_result.findings@ == match external {
            Some(ext) => gate.findings@ + ext@,
            None => gate.findings@,
        },
        r.gate_result.passed == (gate.passed && match external {
            Some(ext) => !has_error(ext@),
            None => true,
        }),
        r.gate_result.merge_blocked == (gate.merge_blocked || match external {
            Some(ext) => has_error(ext@),
            None => false,
        }),
        r.risk == spec_classify(
            classifier.high_risk_delete_threshold,
            match change {
                Some(c) => c,
                None => ChangeRisk {
                    files_changed: 0,
                    destructive_git: false,
                    used_shell: false,
                    used_network: false,
                    lines_deleted: 0,
                },
            },
        ),
        r.route@ == spec_approval_route(r.risk, r.gate_result.passed),
        r.merge_blocker.blocked == (!(r.gate_result.passed || !block_on_failure) || r.risk
            == RiskLevel::High),
        r.merge_blocker.reason@ == merge_block_reason(r.gate_result.passed || !block_on_failure, r.risk),
{
    let mut g = gate;
    match external {
        Some(ext) => {
            let has = any_error(&ext);
            let ghost f0 = g.findings@;
            let mut i: usize = 0;
            while i < ext.len()
                invariant
                    i <= ext@.len(),
                    g.findings@ == f0 + ext@.take(i as int),
                    g.passed == gate.passed,
                    g.merge_blocked == gate.merge_blocked,
                    g.checks == gate.checks,
                decreases ext@.len() - i,
            {
                g.findings.push(ext[i].duplicate());
                i += 1;
                assert(ext@.take(i as int) == ext@.take(i - 1).push(ext@[i - 1]));
            }
            assert(ext@.take(ext@.len() as int) == ext@);
            if has {
                g.passed = false;
                g.merge_blocked = true;
            }
        },
        None => {},
    }
    let c = match change {
        Some(c) => c,
        None => ChangeRisk::default(),
    };
    let risk = classifier.classify(&c);
    let route = owned(RiskClassifier::approval_route(risk, g.passed));
    let effective = g.passed || !block_on_failure;
    let blocker = classifier.merge_blocker(effective, risk);
    GateOutcome { gate_result: g, risk, merge_blocker: blocker, route }
}

} // verus!
