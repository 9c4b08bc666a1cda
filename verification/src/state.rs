//! Agent state: the conversation, pending tool calls, a context of keyed
//! JSON values, the iteration count and the completion flag.

use crate::kv::{kv_get, kv_map, kv_remove, kv_set};
use crate::text::owned;
use vstd::prelude::*;

verus! {

broadcast use vstd::string::group_string_axioms;

/// Who sent a message.
#[derive(Clone, Copy, Debug, PartialEq, Eq, Hash, Structural)]
pub enum MessageRole {
    /// System prompt.
    System,
    /// User input.
    User,
    /// Assistant (model) response.
    Assistant,
    /// Tool execution result.
    Tool,
}

/// A message in the conversation history.
#[derive(Clone, Debug)]
pub struct Message {
    /// Who sent it.
    pub role: MessageRole,
    /// Its text.
    pub content: String,
    /// Optional name for tool messages.
    pub name: Option<String>,
    /// The tool call a tool result answers.
    pub tool_call_id: Option<String>,
}

impl Message {
    fn of(role: MessageRole, content: &str) -> (r: Self)
        ensures
            r.role == role,
            r.content@ == content@,
            r.name is None,
            r.tool_call_id is None,
    {
        Message { role, content: owned(content), name: None, tool_call_id: None }
    }

    /// A system message.
    pub fn system(content: &str) -> (r: Self)
        ensures
            r.role == MessageRole::System,
            r.content@ == content@,
            r.name is None,
            r.tool_call_id is None,
    {
        Message::of(MessageRole::System, content)
    }

    /// A user message.
    pub fn user(content: &str) -> (r: Self)
        ensures
            r.role == MessageRole::User,
            r.content@ == content@,
            r.name is None,
            r.tool_call_id is None,
    {
        Message::of(MessageRole::User, content)
    }

    /// An assistant message.
    pub fn assistant(content: &str) -> (r: Self)
        ensures
            r.role == MessageRole::Assistant,
            r.content@ == content@,
            r.name is None,
            r.tool_call_id is None,
    {
        Message::of(MessageRole::Assistant, content)
    }

    /// A tool result message answering a call.
    pub fn tool_result(tool_call_id: &str, content: &str) -> (r: Self)
        ensures
            r.role == MessageRole::Tool,
            r.content@ == content@,
            r.name is None,
            r.tool_call_id matches Some(t) && t@ == tool_call_id@,
    {
        Message { role: MessageRole::Tool, content: owned(content), name: None, tool_call_id: Some(owned(tool_call_id)) }
    }
}

/// A tool call request from the model; its arguments are JSON text.
#[derive(Clone, Debug)]
pub struct ToolCall {
    /// Unique identifier of the call.
    pub id: String,
    /// Name of the tool to call.
    pub name: String,
    /// Arguments, as JSON text.
    pub arguments: String,
}

impl ToolCall {
    /// A tool call.
    pub fn new(id: &str, name: &str, arguments: &str) -> (r: Self)
        ensures
            r.id@ == id@,
            r.name@ == name@,
            r.arguments@ == arguments@,
    {
        ToolCall { id: owned(id), name: owned(name), arguments: owned(arguments) }
    }
}

/// The index of the last message with this role, if any.
pub open spec fn last_of_role(ms: Seq<Message>, role: MessageRole) -> Option<int>
    decreases ms.len(),
{
    if ms.len() == 0 {
        None
    } else if ms.last().role == role {
        Some(ms.len() - 1)
    } else {
        last_of_role(ms.drop_last(), role)
    }
}

/// The state of an agent run.
#[derive(Clone, Debug)]
pub struct AgentState {
    /// Conversation history, oldest first.
    pub messages: Vec<Message>,
    /// Pending tool calls from the last model response.
    pub tool_calls: Vec<ToolCall>,
    /// Context for passing information between nodes: keys with JSON text
    /// values; a later pair for a key replaces an earlier one.
    pub context: Vec<(String, String)>,
    /// Current iteration count.
    pub iteration: usize,
    /// Whether the agent has completed its task.
    pub is_complete: bool,
}

impl Default for AgentState {
    /// An empty state.
    fn default() -> (r: Self)
        ensures
            r.messages@.len() == 0,
            r.tool_calls@.len() == 0,
            kv_map(r.context@) == Map::<Seq<char>, Seq<char>>::empty(),
            r.iteration == 0,
            !r.is_complete,
    {
        AgentState::new()
    }
}

impl AgentState {
    /// An empty state.
    pub fn new() -> (r: Self)
        ensures
            r.messages@.len() == 0,
            r.tool_calls@.len() == 0,
            kv_map(r.context@) == Map::<Seq<char>, Seq<char>>::empty(),
            r.iteration == 0,
            !r.is_complete,
    {
        let r = AgentState { messages: Vec::new(), tool_calls: Vec::new(), context: Vec::new(), iteration: 0, is_complete: false };
        assert(kv_map(r.context@) =~= Map::<Seq<char>, Seq<char>>::empty());
        r
    }

    /// A state whose conversation starts with a user message.
    pub fn with_user_message(message: &str) -> (r: Self)
        ensures
            r.messages@.len() == 1,
            r.messages@[0].role == MessageRole::User,
            r.messages@[0].content@ == message@,
            r.tool_calls@.len() == 0,
            kv_map(r.context@) == Map::<Seq<char>, Seq<char>>::empty(),
            r.iteration == 0,
            !r.is_complete,
    {
        let mut r = AgentState::new();
        r.messages.push(Message::user(message));
        r
    }

    /// A state whose conversation starts with a system prompt and a user
    /// message.
    pub fn with_system_and_user(system: &str, user: &str) -> (r: Self)
        ensures
            r.messages@.len() == 2,
            r.messages@[0].role == MessageRole::System,
            r.messages@[0].content@ == system@,
            r.messages@[1].role == MessageRole::User,
            r.messages@[1].content@ == user@,
            r.tool_calls@.len() == 0,
            kv_map(r.context@) == Map::<Seq<char>, Seq<char>>::empty(),
            r.iteration == 0,
            !r.is_complete,
    {
        let mut r = AgentState::new();
        r.messages.push(Message::system(system));
        r.messages.push(Message::user(user));
        r
    }

    /// Puts a system message first in the conversation, before every
    /// earlier message.
    pub fn prepend_system_message(&mut self, content: &str)
        ensures
            final(self).messages@.len() == old(self).messages@.len() + 1,
            final(self).messages@.drop_first() == old(self).messages@,
            final(self).messages@[0].role == MessageRole::System,
            final(self).messages@[0].content@ == content@,
            final(self).tool_calls == old(self).tool_calls,
            final(self).context == old(self).context,
            final(self).iteration == old(self).iteration,
            final(self).is_complete == old(self).is_complete,
    {
        self.messages.insert(0, Message::system(content));
        assert(self.messages@.drop_first() =~= old(self).messages@);
    }

    /// Appends an assistant message.
    pub fn add_assistant_message(&mut self, content: &str)
        ensures
            final(self).messages@.len() == old(self).messages@.len() + 1,
            final(self).messages@.drop_last() == old(self).messages@,
            final(self).messages@.last().role == MessageRole::Assistant,
            final(self).messages@.last().content@ == content@,
            final(self).tool_calls == old(self).tool_calls,
            final(self).context == old(self).context,
            final(self).iteration == old(self).iteration,
            final(self).is_complete == old(self).is_complete,
    {
        self.messages.push(Message::assistant(content));
    }

    /// Appends a user message.
    pub fn add_user_message(&mut self, content: &str)
        ensures
            final(self).messages@.len() == old(self).messages@.len() + 1,
            final(self).messages@.drop_last() == old(self).messages@,
            final(self).messages@.last().role == MessageRole::User,
            final(self).messages@.last().content@ == content@,
            final(self).tool_calls == old(self).tool_calls,
            final(self).context == old(self).context,
            final(self).iteration == old(self).iteration,
            final(self).is_complete == old(self).is_complete,
    {
        self.messages.push(Message::user(content));
    }

    /// Appends a tool result message.
    pub fn add_tool_result(&mut self, tool_call_id: &str, content: &str)
        ensures
            final(self).messages@.len() == old(self).messages@.len() + 1,
            final(self).messages@.drop_last() == old(self).messages@,
            final(self).messages@.last().role == MessageRole::Tool,
            final(self).messages@.last().content@ == content@,
            final(self).messages@.last().tool_call_id matches Some(t) && t@ == tool_call_id@,
            final(self).tool_calls == old(self).tool_calls,
            final(self).context == old(self).context,
            final(self).iteration == old(self).iteration,
            final(self).is_complete == old(self).is_complete,
    {
        self.messages.push(Message::tool_result(tool_call_id, content));
    }

    /// The context value under a key, as JSON text.
    pub fn get_context(&self, key: &str) -> (r: Option<&str>)
        ensures
            match r {
                Some(s) => kv_map(self.context@).contains_key(key@) && kv_map(self.context@)[key@] == s@,
                None => !kv_map(self.context@).contains_key(key@),
            },
    {
        match kv_get(&self.context, key) {
            Some(s) => Some(s.as_str()),
            None => None,
        }
    }

    /// Sets the context value under a key (JSON text), replacing any
    /// earlier one.
    pub fn set_context(&mut self, key: &str, value: String)
        ensures
            kv_map(final(self).context@) == kv_map(old(self).context@).insert(key@, value@),
            final(self).messages == old(self).messages,
            final(self).tool_calls == old(self).tool_calls,
            final(self).iteration == old(self).iteration,
            final(self).is_complete == old(self).is_complete,
    {
        kv_set(&mut self.context, key, value);
    }

    /// Removes the context value under a key, giving it back.
    pub fn remove_context(&mut self, key: &str) -> (r: Option<String>)
        ensures
            kv_map(final(self).context@) == kv_map(old(self).context@).remove(key@),
            match r {
                Some(s) => kv_map(old(self).context@).contains_key(key@) && kv_map(old(self).context@)[key@] == s@,
                None => !kv_map(old(self).context@).contains_key(key@),
            },
            final(self).messages == old(self).messages,
            final(self).tool_calls == old(self).tool_calls,
            final(self).iteration == old(self).iteration,
            final(self).is_complete == old(self).is_complete,
    {
        kv_remove(&mut self.context, key)
    }

    /// Whether the context holds a value under a key.
    pub fn has_context(&self, key: &str) -> (r: bool)
        ensures
            r == kv_map(self.context@).contains_key(key@),
    {
        kv_get(&self.context, key).is_some()
    }

    /// The last message.
    pub fn last_message(&self) -> (r: Option<&Message>)
        ensures
            self.messages@.len() == 0 ==> r is None,
            self.messages@.len() > 0 ==> r == Some(&self.messages@.last()),
    {
        if self.messages.len() == 0 {
            None
        } else {
            Some(&self.messages[self.messages.len() - 1])
        }
    }

    fn last_by_role(&self, role: MessageRole) -> (r: Option<&Message>)
        ensures
            match last_of_role(self.messages@, role) {
                Some(k) => r == Some(&self.messages@[k]),
                None => r is None,
            },
    {
        let mut i: usize = self.messages.len();
        assert(self.messages@.take(self.messages@.len() as int) == self.messages@);
        while i > 0
            invariant
                i <= self.messages@.len(),
                last_of_role(self.messages@, role) == last_of_role(self.messages@.take(i as int), role),
            decreases i,
        {
            proof {
                assert(self.messages@.take(i as int).drop_last() == self.messages@.take(i - 1));
                assert(self.messages@.take(i as int).last() == self.messages@[i - 1]);
            }
            if self.messages[i - 1].role == role {
                return Some(&self.messages[i - 1]);
            }
            i -= 1;
        }
        None
    }

    /// The last assistant message.
    pub fn last_assistant_message(&self) -> (r: Option<&Message>)
        ensures
            match last_of_role(self.messages@, MessageRole::Assistant) {
                Some(k) => r == Some(&self.messages@[k]),
                None => r is None,
            },
    {
        self.last_by_role(MessageRole::Assistant)
    }

    /// The last user message.
    pub fn last_user_message(&self) -> (r: Option<&Message>)
        ensures
            match last_of_role(self.messages@, MessageRole::User) {
                Some(k) => r == Some(&self.messages@[k]),
                None => r is None,
            },
    {
        self.last_by_role(MessageRole::User)
    }

    /// Drops all pending tool calls.
    pub fn clear_tool_calls(&mut self)
        ensures
            final(self).tool_calls@.len() == 0,
            final(self).messages == old(self).messages,
            final(self).context == old(self).context,
            final(self).iteration == old(self).iteration,
            final(self).is_complete == old(self).is_complete,
    {
        self.tool_calls.clear();
    }

    /// Whether tool calls are pending.
    pub fn has_pending_tool_calls(&self) -> (r: bool)
        ensures
            r == (self.tool_calls@.len() > 0),
    {
        self.tool_calls.len() > 0
    }

    /// Marks the task complete.
    pub fn mark_complete(&mut self)
        ensures
            final(self).is_complete,
            final(self).messages == old(self).messages,
            final(self).tool_calls == old(self).tool_calls,
            final(self).context == old(self).context,
            final(self).iteration == old(self).iteration,
    {
        self.is_complete = true;
    }

    /// Counts one more iteration.
    pub fn increment_iteration(&mut self)
        requires
            old(self).iteration < usize::MAX,
        ensures
            final(self).iteration == old(self).iteration + 1,
            final(self).messages == old(self).messages,
            final(self).tool_calls == old(self).tool_calls,
            final(self).context == old(self).context,
            final(self).is_complete == old(self).is_complete,
    {
        self.iteration = self.iteration + 1;
    }
}

} // verus!
