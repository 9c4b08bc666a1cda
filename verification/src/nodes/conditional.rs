//! Routing decisions of condition-driven nodes: where a true or false
//! condition leads, which branch wins, and the flags read from context.

use crate::graph::{NodeOutput, OutputView, END};
use crate::kv::kv_map;
use crate::state::AgentState;
use crate::text::str_eq;
use vstd::prelude::*;

verus! {

broadcast use vstd::string::group_string_axioms;

/// Routing to a target: finishing for the END node, else continuing there.
pub open spec fn route_view(target: Seq<char>) -> OutputView {
    if target == END@ {
        OutputView::Finish
    } else {
        OutputView::Continue(Some(target))
    }
}

/// The output that routes to a target.
pub fn route_output(target: &str) -> (r: NodeOutput)
    ensures
        r@ == route_view(target@),
{
    if str_eq(target, END) {
        NodeOutput::finish()
    } else {
        NodeOutput::continue_to(target)
    }
}

/// Where a conditional node goes: the true target when its condition held,
/// else the false target.
pub fn conditional_output(condition: bool, true_target: &str, false_target: &str) -> (r: NodeOutput)
    ensures
        r@ == route_view(if condition { true_target@ } else { false_target@ }),
{
    if condition {
        route_output(true_target)
    } else {
        route_output(false_target)
    }
}

/// The first branch whose condition held, if any.
pub open spec fn first_holding(holds: Seq<bool>) -> Option<int>
    decreases holds.len(),
{
    if holds.len() == 0 {
        None
    } else if holds[0] {
        Some(0)
    } else {
        match first_holding(holds.drop_first()) {
            Some(k) => Some(k + 1),
            None => None,
        }
    }
}

/// Where a branching node goes: the target of the first branch whose
/// condition held (conditions given in branch order), else the default.
pub fn branch_output(holds: &Vec<bool>, targets: &Vec<String>, default: &str) -> (r: NodeOutput)
    requires
        holds@.len() == targets@.len(),
    ensures
        r@ == route_view(
            match first_holding(holds@) {
                Some(k) => targets@[k]@,
                None => default@,
            },
        ),
{
    let mut i: usize = 0;
    while i < holds.len()
        invariant
            i <= holds@.len(),
            holds@.len() == targets@.len(),
            forall|k: int| 0 <= k < i ==> !holds@[k],
        decreases holds@.len() - i,
    {
        if holds[i] {
            proof {
                lemma_first_holding_at(holds@, i as int);
            }
            return route_output(targets[i].as_str());
        }
        i += 1;
    }
    proof {
        lemma_first_holding_none(holds@);
    }
    route_output(default)
}

proof fn lemma_first_holding_at(holds: Seq<bool>, i: int)
    requires
        0 <= i < holds.len(),
        holds[i],
        forall|k: int| 0 <= k < i ==> !holds[k],
    ensures
        first_holding(holds) == Some(i),
    decreases i,
{
    if i > 0 {
        assert forall|k: int| 0 <= k < i - 1 implies !holds.drop_first()[k] by {
            assert(holds.drop_first()[k] == holds[k + 1]);
        }
        lemma_first_holding_at(holds.drop_first(), i - 1);
    }
}

proof fn lemma_first_holding_none(holds: Seq<bool>)
    requires
        forall|k: int| 0 <= k < holds.len() ==> !holds[k],
    ensures
        first_holding(holds) is None,
    decreases holds.len(),
{
    if holds.len() > 0 {
        assert forall|k: int| 0 <= k < holds.len() - 1 implies !holds.drop_first()[k] by {
            assert(holds.drop_first()[k] == holds[k + 1]);
        }
        lemma_first_holding_none(holds.drop_first());
    }
}

/// Whether the context holds the JSON value `true` under a key.
pub fn context_flag(state: &AgentState, key: &str) -> (r: bool)
    ensures
        r == (kv_map(state.context@).contains_key(key@) && kv_map(state.context@)[key@] == "true"@),
{
    match state.get_context(key) {
        Some(v) => str_eq(v, "true"),
        None => false,
    }
}

} // verus!
