//! The result of a tool execution.

use crate::state::{AgentState, MessageRole};
use crate::text::{concat_strings, opt_view, owned};
use vstd::prelude::*;

verus! {

broadcast use vstd::string::group_string_axioms;

/// Result of a tool execution: content on success, an error message on
/// failure.
#[derive(Clone, Debug)]
pub struct ToolResult {
    /// The tool call this result answers.
    pub tool_call_id: String,
    /// The result content (success).
    pub content: Option<String>,
    /// The error message (failure).
    pub error: Option<String>,
}

impl ToolResult {
    /// A successful result.
    pub fn success(tool_call_id: &str, content: &str) -> (r: Self)
        ensures
            r.tool_call_id@ == tool_call_id@,
            opt_view(r.content) == Some(content@),
            r.error is None,
    {
        ToolResult { tool_call_id: owned(tool_call_id), content: Some(owned(content)), error: None }
    }

    /// A failed result.
    pub fn error(tool_call_id: &str, error: &str) -> (r: Self)
        ensures
            r.tool_call_id@ == tool_call_id@,
            r.content is None,
            opt_view(r.error) == Some(error@),
    {
        ToolResult { tool_call_id: owned(tool_call_id), content: None, error: Some(owned(error)) }
    }

    /// Whether it carries content and no error.
    pub fn is_success(&self) -> (r: bool)
        ensures
            r == (self.content is Some && self.error is None),
    {
        self.content.is_some() && self.error.is_none()
    }

    /// The content, else the error, else the empty text.
    pub fn as_str(&self) -> (r: &str)
        ensures
            r@ == match (opt_view(self.content), opt_view(self.error)) {
                (Some(c), _) => c,
                (None, Some(e)) => e,
                (None, None) => Seq::<char>::empty(),
            },
    {
        match &self.content {
            Some(c) => c.as_str(),
            None => match &self.error {
                Some(e) => e.as_str(),
                None => {
                    proof {
                        reveal_strlit("");
                    }
                    ""
                },
            },
        }
    }
}

/// The text a result carries: the content, else the error, else nothing.
pub open spec fn result_text(r: ToolResult) -> Seq<char> {
    match (opt_view(r.content), opt_view(r.error)) {
        (Some(c), _) => c,
        (None, Some(e)) => e,
        (None, None) => Seq::<char>::empty(),
    }
}

/// The result for a call of a tool the registry does not hold.
pub fn missing_tool_result(tool_call_id: &str, tool_name: &str) -> (r: ToolResult)
    ensures
        r.tool_call_id@ == tool_call_id@,
        r.content is None,
        opt_view(r.error) == Some("Tool '"@ + tool_name@ + "' not found"@),
{
    let a = concat_strings("Tool '", tool_name);
    let m = concat_strings(a.as_str(), "' not found");
    ToolResult { tool_call_id: owned(tool_call_id), content: None, error: Some(m) }
}

/// Records executed tool calls in the state: one tool message per result,
/// in order, carrying its call id and text; then no call is pending.
pub fn record_tool_results(state: &mut AgentState, results: &Vec<ToolResult>)
    ensures
        final(state).messages@.len() == old(state).messages@.len() + results@.len(),
        final(state).messages@.take(old(state).messages@.len() as int) == old(state).messages@,
        forall|k: int|
            0 <= k < results@.len() ==> {
                let m = #[trigger] final(state).messages@[old(state).messages@.len() + k];
                &&& m.role == MessageRole::Tool
                &&& m.content@ == result_text(results@[k])
                &&& m.tool_call_id matches Some(t) && t@ == results@[k].tool_call_id@
            },
        final(state).tool_calls@.len() == 0,
        final(state).context == old(state).context,
        final(state).iteration == old(state).iteration,
        final(state).is_complete == old(state).is_complete,
{
    let ghost start = state.messages@;
    let mut i: usize = 0;
    while i < results.len()
        invariant
            i <= results@.len(),
            state.messages@.len() == start.len() + i,
            state.messages@.take(start.len() as int) == start,
            forall|k: int|
                0 <= k < i ==> {
                    let m = #[trigger] state.messages@[start.len() + k];
                    &&& m.role == MessageRole::Tool
                    &&& m.content@ == result_text(results@[k])
                    &&& m.tool_call_id matches Some(t) && t@ == results@[k].tool_call_id@
                },
            state.context == old(state).context,
            state.iteration == old(state).iteration,
            state.is_complete == old(state).is_complete,
        decreases results@.len() - i,
    {
        let r = &results[i];
        let ghost before = state.messages@;
        state.add_tool_result(r.tool_call_id.as_str(), r.as_str());
        proof {
            assert(state.messages@.drop_last() == before);
            assert forall|k: int| 0 <= k < i + 1 implies {
                let m = #[trigger] state.messages@[start.len() + k];
                &&& m.role == MessageRole::Tool
                &&& m.content@ == result_text(results@[k])
                &&& m.tool_call_id matches Some(t) && t@ == results@[k].tool_call_id@
            } by {
                if k < i {
                    assert(state.messages@[start.len() + k] == before[start.len() + k]);
                }
            }
            assert(state.messages@.take(start.len() as int) =~= start) by {
                assert forall|j: int| 0 <= j < start.len() implies state.messages@[j] == start[j] by {
                    assert(state.messages@[j] == before[j]);
                    assert(before.take(start.len() as int)[j] == before[j]);
                }
            }
        }
        i += 1;
    }
    state.clear_tool_calls();
}

} // verus!
