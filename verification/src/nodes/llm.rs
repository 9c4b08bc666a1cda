//! What a language model reports besides its text: why it stopped and how
//! many tokens it used.

use crate::state::{AgentState, MessageRole, ToolCall};
use crate::text::owned;
use vstd::prelude::*;

verus! {

broadcast use vstd::string::group_string_axioms;

/// Why the model stopped generating.
#[derive(Clone, Debug, PartialEq, Eq)]
pub enum StopReason {
    /// Natural end of response.
    EndTurn,
    /// Hit the token limit.
    MaxTokens,
    /// Hit a stop sequence.
    StopSequence,
    /// The model wants to use tools.
    ToolUse,
    /// Another reason.
    Other(String),
}

/// Token usage of one call.
#[derive(Clone, Copy, Debug)]
pub struct TokenUsage {
    /// Input tokens.
    pub input_tokens: u32,
    /// Output tokens.
    pub output_tokens: u32,
}

impl Default for TokenUsage {
    /// No tokens.
    fn default() -> (r: Self)
        ensures
            r.input_tokens == 0,
            r.output_tokens == 0,
    {
        TokenUsage { input_tokens: 0, output_tokens: 0 }
    }
}

/// A response from a language model.
#[derive(Clone, Debug)]
pub struct LLMResponse {
    /// The generated text.
    pub content: String,
    /// Tool calls the model requests.
    pub tool_calls: Vec<ToolCall>,
    /// Why the model stopped.
    pub stop_reason: StopReason,
    /// Token usage, when reported.
    pub usage: Option<TokenUsage>,
}

impl LLMResponse {
    /// A plain text response that ended its turn.
    pub fn text(content: &str) -> (r: Self)
        ensures
            r.content@ == content@,
            r.tool_calls@.len() == 0,
            r.stop_reason is EndTurn,
            r.usage is None,
    {
        LLMResponse { content: owned(content), tool_calls: Vec::new(), stop_reason: StopReason::EndTurn, usage: None }
    }

    /// A response requesting tool calls.
    pub fn with_tool_calls(content: &str, tool_calls: Vec<ToolCall>) -> (r: Self)
        ensures
            r.content@ == content@,
            r.tool_calls == tool_calls,
            r.stop_reason is ToolUse,
            r.usage is None,
    {
        LLMResponse { content: owned(content), tool_calls, stop_reason: StopReason::ToolUse, usage: None }
    }
}

/// Records a model response in the state: its text becomes an assistant
/// message; its tool calls, when there are any, become the pending ones;
/// with no call pending afterwards the task is complete.
pub fn apply_response(state: &mut AgentState, response: LLMResponse)
    ensures
        final(state).messages@.len() == old(state).messages@.len() + 1,
        final(state).messages@.drop_last() == old(state).messages@,
        final(state).messages@.last().role == MessageRole::Assistant,
        final(state).messages@.last().content@ == response.content@,
        final(state).tool_calls@ == if response.tool_calls@.len() > 0 {
            response.tool_calls@
        } else {
            old(state).tool_calls@
        },
        final(state).is_complete == (old(state).is_complete || final(state).tool_calls@.len() == 0),
        final(state).context == old(state).context,
        final(state).iteration == old(state).iteration,
{
    state.add_assistant_message(response.content.as_str());
    if response.tool_calls.len() > 0 {
        state.tool_calls = response.tool_calls;
    }
    if state.tool_calls.len() == 0 {
        state.mark_complete();
    }
}

} // verus!
