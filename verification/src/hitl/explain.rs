//! Explanations and change summaries for operator review.

use crate::guardrails::findings::{severity_label, severity_name, ReviewFinding};
use crate::hitl::types::{ExplanationPayload, ExplanationView, HitlContext};
use crate::text::{concat_strings, copy_opt_string, copy_string, copy_strings, join, join_strings, opt_view, owned, strings_view};
use vstd::prelude::*;

verus! {

broadcast use vstd::string::group_string_axioms;

/// Context key for a proposed change diff (unified diff or summary text).
pub const CTX_PROPOSED_DIFF: &'static str = "proposed_diff";

/// Context key for recent tool actions leading to a checkpoint.
pub const CTX_RECENT_TOOL_ACTIONS: &'static str = "recent_tool_actions";

/// Context key for machine-readable review findings at a checkpoint.
pub const CTX_REVIEW_FINDINGS: &'static str = "review_findings";

/// Summary used when the context records none.
pub const DEFAULT_CHANGE_SUMMARY: &'static str = "Autonomous change pending review";

/// Operator-facing review bundle combining summary, diff and findings.
#[derive(Debug)]
pub struct ReviewSummary {
    /// One-line change summary.
    pub summary: String,
    /// Why the checkpoint fired.
    pub rationale: String,
    /// Diff or file-change hint for the approver.
    pub diff_hint: Option<String>,
    /// Recent tool invocations.
    pub tool_actions: Vec<String>,
    /// Structured findings from quality gates or auditors.
    pub findings: Vec<ReviewFinding>,
}

/// The markdown line for a finding: severity, rule and message.
pub open spec fn finding_line(f: ReviewFinding) -> Seq<char> {
    "- ["@ + severity_name(f.severity) + "] "@ + f.rule_id@ + ": "@ + f.message@
}

/// The markdown lines of a review summary: summary and rationale, the diff
/// in a code block when there is one, the recent tools and the findings
/// each under a heading when there are any.
pub open spec fn markdown_lines(r: ReviewSummary) -> Seq<Seq<char>> {
    let head = seq!["**Summary:** "@ + r.summary@, "**Rationale:** "@ + r.rationale@];
    let diff = match r.diff_hint {
        Some(d) => seq!["**Diff:**\n```\n"@ + d@ + "\n```"@],
        None => Seq::empty(),
    };
    let tools = if r.tool_actions@.len() == 0 {
        Seq::empty()
    } else {
        seq!["**Recent tools:**"@] + strings_view(r.tool_actions@).map_values(|a: Seq<char>| "- "@ + a)
    };
    let findings = if r.findings@.len() == 0 {
        Seq::empty()
    } else {
        seq!["**Findings:**"@] + r.findings@.map_values(|f: ReviewFinding| finding_line(f))
    };
    head + diff + tools + findings
}

impl ReviewSummary {
    /// The summary as a compact markdown block, one line per entry.
    pub fn to_markdown(&self) -> (r: String)
        ensures
            r@ == join(markdown_lines(*self), "\n"@),
    {
        let mut lines: Vec<String> = Vec::new();
        lines.push(concat_strings("**Summary:** ", self.summary.as_str()));
        lines.push(concat_strings("**Rationale:** ", self.rationale.as_str()));
        let ghost head = seq!["**Summary:** "@ + self.summary@, "**Rationale:** "@ + self.rationale@];
        assert(strings_view(lines@) =~= head);
        let ghost diff = match opt_view(self.diff_hint) {
            Some(d) => seq!["**Diff:**\n```\n"@ + d + "\n```"@],
            None => Seq::<Seq<char>>::empty(),
        };
        match &self.diff_hint {
            Some(d) => {
                let a = concat_strings("**Diff:**\n```\n", d.as_str());
                lines.push(concat_strings(a.as_str(), "\n```"));
            },
            None => {},
        }
        assert(strings_view(lines@) =~= head + diff);
        let ghost before_tools = strings_view(lines@);
        if self.tool_actions.len() > 0 {
            lines.push(owned("**Recent tools:**"));
            let mut i: usize = 0;
            while i < self.tool_actions.len()
                invariant
                    i <= self.tool_actions@.len(),
                    strings_view(lines@) == before_tools + seq!["**Recent tools:**"@] + strings_view(
                        self.tool_actions@,
                    ).take(i as int).map_values(|a: Seq<char>| "- "@ + a),
                decreases self.tool_actions@.len() - i,
            {
                let line = concat_strings("- ", self.tool_actions[i].as_str());
                let ghost prev = strings_view(lines@);
                lines.push(line);
                proof {
                    let tv = strings_view(self.tool_actions@);
                    assert(strings_view(lines@) =~= prev.push(line@));
                    assert(tv.take(i + 1).map_values(|a: Seq<char>| "- "@ + a) =~= tv.take(
                        i as int,
                    ).map_values(|a: Seq<char>| "- "@ + a).push("- "@ + tv[i as int]));
                }
                i += 1;
            }
            assert(strings_view(self.tool_actions@).take(self.tool_actions@.len() as int)
                == strings_view(self.tool_actions@));
        }
        let ghost before_findings = strings_view(lines@);
        if self.findings.len() > 0 {
            lines.push(owned("**Findings:**"));
            let mut j: usize = 0;
            while j < self.findings.len()
                invariant
                    j <= self.findings@.len(),
                    strings_view(lines@) == before_findings + seq!["**Findings:**"@]
                        + self.findings@.take(j as int).map_values(|f: ReviewFinding| finding_line(f)),
                decreases self.findings@.len() - j,
            {
                let f = &self.findings[j];
                let a = concat_strings("- [", severity_label(f.severity));
                let b = concat_strings(a.as_str(), "] ");
                let c = concat_strings(b.as_str(), f.rule_id.as_str());
                let d = concat_strings(c.as_str(), ": ");
                let line = concat_strings(d.as_str(), f.message.as_str());
                let ghost prev = strings_view(lines@);
                lines.push(line);
                proof {
                    assert(strings_view(lines@) =~= prev.push(line@));
                    assert(self.findings@.take(j + 1).map_values(|f: ReviewFinding| finding_line(f))
                        =~= self.findings@.take(j as int).map_values(
                        |f: ReviewFinding| finding_line(f),
                    ).push(finding_line(self.findings@[j as int])));
                }
                j += 1;
            }
            assert(self.findings@.take(self.findings@.len() as int) == self.findings@);
        }
        assert(strings_view(lines@) =~= markdown_lines(*self));
        join_strings(&lines, "\n")
    }
}

/// Builds explanation payloads from checkpoint context.
#[derive(Clone, Copy, Debug)]
pub struct ReviewSummaryBuilder;

impl ReviewSummaryBuilder {
    /// A builder.
    pub fn new() -> (r: Self) {
        ReviewSummaryBuilder
    }

    /// The review summary for a checkpoint: the recorded change summary (or
    /// a default one), the rationale, and the recorded diff hint, recent tool
    /// actions and findings (none when absent).
    pub fn from_state(&self, state: &HitlContext, rationale: &str) -> (r: ReviewSummary)
        ensures
            r.summary@ == match state.change_summary {
                Some(s) => s@,
                None => DEFAULT_CHANGE_SUMMARY@,
            },
            r.rationale@ == rationale@,
            opt_view(r.diff_hint) == opt_view(state.proposed_diff),
            strings_view(r.tool_actions@) == match state.recent_tool_actions {
                Some(t) => strings_view(t@),
                None => Seq::empty(),
            },
            r.findings@ == match state.review_findings {
                Some(f) => f@,
                None => Seq::empty(),
            },
    {
        let summary = match &state.change_summary {
            Some(s) => copy_string(s),
            None => owned(DEFAULT_CHANGE_SUMMARY),
        };
        let tool_actions = match &state.recent_tool_actions {
            Some(t) => copy_strings(t),
            None => {
                let e: Vec<String> = Vec::new();
                assert(strings_view(e@) =~= Seq::<Seq<char>>::empty());
                e
            },
        };
        let findings = match &state.review_findings {
            Some(f) => copy_findings(f),
            None => Vec::new(),
        };
        ReviewSummary {
            summary,
            rationale: owned(rationale),
            diff_hint: copy_opt_string(&state.proposed_diff),
            tool_actions,
            findings,
        }
    }

    /// The explanation payload of a review summary: its summary, rationale,
    /// diff hint and tool actions.
    pub fn to_explanation(&self, review: &ReviewSummary) -> (r: ExplanationPayload)
        ensures
            r@ == (ExplanationView {
                summary: review.summary@,
                rationale: review.rationale@,
                diff_hint: opt_view(review.diff_hint),
                tool_actions: strings_view(review.tool_actions@),
            }),
    {
        ExplanationPayload {
            summary: copy_string(&review.summary),
            rationale: copy_string(&review.rationale),
            diff_hint: copy_opt_string(&review.diff_hint),
            tool_actions: copy_strings(&review.tool_actions),
        }
    }
}

/// A copy of a list of findings.
pub fn copy_findings(v: &Vec<ReviewFinding>) -> (r: Vec<ReviewFinding>)
    ensures
        r@ == v@,
{
    let mut r: Vec<ReviewFinding> = Vec::new();
    let mut i: usize = 0;
    while i < v.len()
        invariant
            i <= v@.len(),
            r@ == v@.take(i as int),
        decreases v@.len() - i,
    {
        r.push(v[i].duplicate());
        i += 1;
        assert(v@.take(i as int) == v@.take(i - 1).push(v@[i - 1]));
    }
    assert(v@.take(v@.len() as int) == v@);
    r
}

} // verus!
