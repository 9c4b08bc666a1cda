//! Operator-facing run timeline from transitions and approval events.

use crate::hitl::types::{ApprovalEvent, EventDetail};
use crate::text::{concat_strings, copy_string, opt_view, owned, str_eq};
use vstd::prelude::*;

verus! {

broadcast use vstd::string::group_string_axioms;

/// One recorded step of a run: the node that ran and where it went.
#[derive(Clone, Debug)]
pub struct TransitionRecord {
    /// Run the step belongs to.
    pub run_id: String,
    /// Iteration of the run loop.
    pub iteration: usize,
    /// Node that ran.
    pub node_id: String,
    /// Kind of output the node produced.
    pub output_kind: String,
    /// Node chosen next, if any.
    pub next_node: Option<String>,
    /// Target the output named, if any.
    pub output_target: Option<String>,
    /// State iteration counter after the step.
    pub state_iteration: usize,
    /// When the step was recorded, in milliseconds since the Unix epoch.
    pub recorded_at: i64,
}

/// The payload an entry carries.
#[derive(Clone, Debug)]
pub enum TimelineDetail {
    /// Iteration, output kind and run of a transition.
    Transition { iteration: usize, output_kind: String, run_id: String },
    /// The payload of an approval event.
    Approval(EventDetail),
}

/// One entry in an operator timeline.
#[derive(Clone, Debug)]
pub struct TimelineEntry {
    /// Position in the timeline, from zero.
    pub seq: usize,
    /// Entry kind: `transition` or `approval`.
    pub kind: String,
    /// Short label for display.
    pub label: String,
    /// When the entry happened, in milliseconds since the Unix epoch.
    pub timestamp: Option<i64>,
    /// Detail payload.
    pub detail: Option<TimelineDetail>,
}

/// Aggregated operator view of a run.
#[derive(Clone, Debug)]
pub struct RunTimeline {
    /// Ordered entries.
    pub entries: Vec<TimelineEntry>,
}

/// The text `format!("{:?}", v)` gives for an optional string.
pub uninterp spec fn option_debug_text(v: Option<Seq<char>>) -> Seq<char>;

/// `format!("{:?}", value)`: `None`, or `Some` with the text quoted and
/// escaped as `str`'s `Debug` does it. The text is named, not spelled out.
#[verifier::external_body]
fn option_debug(value: &Option<String>) -> (r: String)
    ensures
        r@ == option_debug_text(opt_view(*value)),
{
    format!("{:?}", value)
}

/// The entry for the `k`-th transition.
pub open spec fn transition_entry(e: TimelineEntry, k: int, t: TransitionRecord) -> bool {
    &&& e.seq == k
    &&& e.kind@ == "transition"@
    &&& e.label@ == t.node_id@ + " -> "@ + option_debug_text(opt_view(t.next_node))
    &&& e.timestamp == Some(t.recorded_at)
    &&& e.detail matches Some(TimelineDetail::Transition { iteration, output_kind, run_id }) && {
        &&& iteration == t.iteration
        &&& output_kind@ == t.output_kind@
        &&& run_id@ == t.run_id@
    }
}

/// The entry for an approval event at position `k`.
pub open spec fn approval_entry(e: TimelineEntry, k: int, a: ApprovalEvent) -> bool {
    &&& e.seq == k
    &&& e.kind@ == "approval"@
    &&& e.label@ == a.kind@
    &&& e.timestamp == Some(a.timestamp)
    &&& e.detail == Some(TimelineDetail::Approval(a.detail))
}

/// `es` is the timeline of the transitions followed by the approval events.
pub open spec fn is_timeline_of(es: Seq<TimelineEntry>, ts: Seq<TransitionRecord>, as_: Seq<ApprovalEvent>) -> bool {
    &&& es.len() == ts.len() + as_.len()
    &&& forall|k: int| 0 <= k < ts.len() ==> transition_entry(#[trigger] es[k], k, ts[k])
    &&& forall|k: int|
        ts.len() <= k < es.len() ==> approval_entry(#[trigger] es[k], k, as_[k - ts.len()])
}

/// The number of approval entries.
pub open spec fn approval_entries(es: Seq<TimelineEntry>) -> nat {
    es.filter(|e: TimelineEntry| e.kind@ == "approval"@).len()
}

fn copy_detail(d: &EventDetail) -> (r: EventDetail)
    ensures
        r == *d,
{
    match d {
        EventDetail::Request(q) => EventDetail::Request(q.duplicate()),
        EventDetail::Decision(x) => EventDetail::Decision(x.duplicate()),
        EventDetail::Json(j) => EventDetail::Json(j.clone()),
    }
}

impl RunTimeline {
    /// A timeline of the transitions, in order, followed by the approval
    /// events, numbered from zero.
    pub fn from_artifacts(transitions: &[TransitionRecord], approvals: &[ApprovalEvent]) -> (r: Self)
        requires
            transitions@.len() + approvals@.len() <= usize::MAX,
        ensures
            is_timeline_of(r.entries@, transitions@, approvals@),
    {
        let mut entries: Vec<TimelineEntry> = Vec::new();
        let mut seq: usize = 0;
        let mut i: usize = 0;
        while i < transitions.len()
            invariant
                i <= transitions@.len(),
                seq == i,
                entries@.len() == i,
                forall|k: int| 0 <= k < i ==> transition_entry(#[trigger] entries@[k], k, transitions@[k]),
            decreases transitions@.len() - i,
        {
            let record = &transitions[i];
            let a = concat_strings(record.node_id.as_str(), " -> ");
            let next = option_debug(&record.next_node);
            let label = concat_strings(a.as_str(), next.as_str());
            entries.push(
                TimelineEntry {
                    seq,
                    kind: owned("transition"),
                    label,
                    timestamp: Some(record.recorded_at),
                    detail: Some(
                        TimelineDetail::Transition {
                            iteration: record.iteration,
                            output_kind: copy_string(&record.output_kind),
                            run_id: copy_string(&record.run_id),
                        },
                    ),
                },
            );
            seq += 1;
            i += 1;
        }
        let mut j: usize = 0;
        while j < approvals.len()
            invariant
                j <= approvals@.len(),
                transitions@.len() + approvals@.len() <= usize::MAX,
                seq == transitions@.len() + j,
                entries@.len() == seq,
                forall|k: int|
                    0 <= k < transitions@.len() ==> transition_entry(#[trigger] entries@[k], k, transitions@[k]),
                forall|k: int|
                    transitions@.len() <= k < seq ==> approval_entry(
                        #[trigger] entries@[k],
                        k,
                        approvals@[k - transitions@.len()],
                    ),
            decreases approvals@.len() - j,
        {
            let event = &approvals[j];
            entries.push(
                TimelineEntry {
                    seq,
                    kind: owned("approval"),
                    label: copy_string(&event.kind),
                    timestamp: Some(event.timestamp),
                    detail: Some(TimelineDetail::Approval(copy_detail(&event.detail))),
                },
            );
            seq += 1;
            j += 1;
        }
        RunTimeline { entries }
    }

    /// The number of approval entries.
    pub fn approval_count(&self) -> (r: usize)
        ensures
            r == approval_entries(self.entries@),
    {
        let ghost es = self.entries@;
        let ghost pred = |e: TimelineEntry| e.kind@ == "approval"@;
        let mut n: usize = 0;
        let mut i: usize = 0;
        while i < self.entries.len()
            invariant
                i <= es.len(),
                es == self.entries@,
                pred == (|e: TimelineEntry| e.kind@ == "approval"@),
                n == es.take(i as int).filter(pred).len(),
                n <= i,
            decreases es.len() - i,
        {
            proof {
                assert(es.take(i + 1) == es.take(i as int).push(es[i as int]));
                es.take(i as int).lemma_filter_push(es[i as int], pred);
            }
            if str_eq(self.entries[i].kind.as_str(), "approval") {
                n += 1;
            }
            i += 1;
        }
        assert(es.take(es.len() as int) == es);
        n
    }
}

/// A timeline built from transitions and approval events counts exactly
/// the approval events.
pub proof fn lemma_timeline_counts_approvals(
    es: Seq<TimelineEntry>,
    ts: Seq<TransitionRecord>,
    as_: Seq<ApprovalEvent>,
)
    requires
        is_timeline_of(es, ts, as_),
    ensures
        approval_entries(es) == as_.len(),
    decreases es.len(),
{
    reveal_strlit("transition");
    reveal_strlit("approval");
    let pred = |e: TimelineEntry| e.kind@ == "approval"@;
    if as_.len() > 0 {
        let es1 = es.drop_last();
        let as1 = as_.drop_last();
        assert(es == es1.push(es.last()));
        es1.lemma_filter_push(es.last(), pred);
        assert(approval_entry(es[es.len() - 1], es.len() - 1, as_[as_.len() - 1]));
        assert forall|k: int| 0 <= k < ts.len() implies transition_entry(#[trigger] es1[k], k, ts[k]) by {
            assert(es1[k] == es[k]);
        }
        assert forall|k: int| ts.len() <= k < es1.len() implies approval_entry(
            #[trigger] es1[k],
            k,
            as1[k - ts.len()],
        ) by {
            assert(es1[k] == es[k]);
            assert(as1[k - ts.len()] == as_[k - ts.len()]);
        }
        lemma_timeline_counts_approvals(es1, ts, as1);
    } else if ts.len() > 0 {
        let es1 = es.drop_last();
        let ts1 = ts.drop_last();
        assert(es == es1.push(es.last()));
        es1.lemma_filter_push(es.last(), pred);
        assert(transition_entry(es[es.len() - 1], es.len() - 1, ts[ts.len() - 1]));
        assert("transition"@ != "approval"@) by {
            assert("transition"@[0] != "approval"@[0]);
        }
        assert forall|k: int| 0 <= k < ts1.len() implies transition_entry(#[trigger] es1[k], k, ts1[k]) by {
            assert(es1[k] == es[k]);
        }
        lemma_timeline_counts_approvals(es1, ts1, as_);
    } else {
        assert(es =~= Seq::<TimelineEntry>::empty());
    }
}

} // verus!
