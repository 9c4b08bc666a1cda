//! Conversation messages: roles, content blocks, tool calls and results,
//! and message histories.

use crate::text::{append_str, copy_string, owned, string_of, strings_view};
use vstd::prelude::*;

verus! {

broadcast use vstd::string::group_string_axioms;

/// Who sent a message.
#[derive(Clone, Copy, Debug, PartialEq, Eq, Hash, Structural)]
pub enum Role {
    /// System prompt.
    System,
    /// User input.
    User,
    /// Assistant (model) response.
    Assistant,
    /// Tool execution result.
    Tool,
}

/// A content block within a message. Tool inputs are JSON text.
#[derive(Clone, Debug)]
pub enum ContentBlock {
    /// Plain text.
    Text { text: String },
    /// A tool use request.
    ToolUse { id: String, name: String, input: String },
    /// A tool result.
    ToolResult { tool_use_id: String, content: String, is_error: bool },
}

/// What a content block holds.
pub enum BlockView {
    Text(Seq<char>),
    ToolUse(Seq<char>, Seq<char>, Seq<char>),
    ToolResult(Seq<char>, Seq<char>, bool),
}

impl View for ContentBlock {
    type V = BlockView;

    open spec fn view(&self) -> BlockView {
        match self {
            ContentBlock::Text { text } => BlockView::Text(text@),
            ContentBlock::ToolUse { id, name, input } => BlockView::ToolUse(id@, name@, input@),
            ContentBlock::ToolResult { tool_use_id, content, is_error } => BlockView::ToolResult(
                tool_use_id@,
                content@,
                *is_error,
            ),
        }
    }
}

/// The views of content blocks.
pub open spec fn blocks_view(v: Seq<ContentBlock>) -> Seq<BlockView> {
    v.map_values(|b: ContentBlock| b@)
}

impl ContentBlock {
    /// A text block.
    pub fn text(text: &str) -> (r: Self)
        ensures
            r@ == BlockView::Text(text@),
    {
        ContentBlock::Text { text: owned(text) }
    }

    /// A tool use block; `input` is JSON text.
    pub fn tool_use(id: &str, name: &str, input: &str) -> (r: Self)
        ensures
            r@ == BlockView::ToolUse(id@, name@, input@),
    {
        ContentBlock::ToolUse { id: owned(id), name: owned(name), input: owned(input) }
    }

    /// A successful tool result block.
    pub fn tool_result(tool_use_id: &str, content: &str) -> (r: Self)
        ensures
            r@ == BlockView::ToolResult(tool_use_id@, content@, false),
    {
        ContentBlock::ToolResult { tool_use_id: owned(tool_use_id), content: owned(content), is_error: false }
    }

    /// A failed tool result block.
    pub fn tool_error(tool_use_id: &str, error: &str) -> (r: Self)
        ensures
            r@ == BlockView::ToolResult(tool_use_id@, error@, true),
    {
        ContentBlock::ToolResult { tool_use_id: owned(tool_use_id), content: owned(error), is_error: true }
    }

    /// The text, when this is a text block.
    pub fn as_text(&self) -> (r: Option<&str>)
        ensures
            match self@ {
                BlockView::Text(t) => r matches Some(s) && s@ == t,
                _ => r is None,
            },
    {
        match self {
            ContentBlock::Text { text } => Some(text.as_str()),
            _ => None,
        }
    }
}

/// A tool call request from the model; its arguments are JSON text.
#[derive(Clone, Debug)]
pub struct ToolCall {
    /// Unique identifier of the call.
    pub id: String,
    /// Name of the tool to call.
    pub name: String,
    /// Arguments, as JSON text.
    pub arguments: String,
}

impl ToolCall {
    /// A tool call.
    pub fn new(id: &str, name: &str, arguments: &str) -> (r: Self)
        ensures
            r.id@ == id@,
            r.name@ == name@,
            r.arguments@ == arguments@,
    {
        ToolCall { id: owned(id), name: owned(name), arguments: owned(arguments) }
    }
}

/// The result of a tool call, as a message carries it.
#[derive(Clone, Debug)]
pub struct ToolResult {
    /// The tool call this result answers.
    pub tool_call_id: String,
    /// Result content.
    pub content: String,
    /// Whether this is an error result.
    pub is_error: bool,
}

impl ToolResult {
    /// A successful tool result.
    pub fn success(tool_call_id: &str, content: &str) -> (r: Self)
        ensures
            r.tool_call_id@ == tool_call_id@,
            r.content@ == content@,
            !r.is_error,
    {
        ToolResult { tool_call_id: owned(tool_call_id), content: owned(content), is_error: false }
    }

    /// An error tool result.
    pub fn error(tool_call_id: &str, error: &str) -> (r: Self)
        ensures
            r.tool_call_id@ == tool_call_id@,
            r.content@ == error@,
            r.is_error,
    {
        ToolResult { tool_call_id: owned(tool_call_id), content: owned(error), is_error: true }
    }
}

/// A message in a conversation. Metadata values are JSON text.
#[derive(Clone, Debug)]
pub struct Message {
    /// Who sent it.
    pub role: Role,
    /// Content blocks, in order.
    pub content: Vec<ContentBlock>,
    /// Optional name.
    pub name: Option<String>,
    /// Metadata: keys with JSON text values.
    pub metadata: Vec<(String, String)>,
}

/// The text of the first text block, if any.
pub open spec fn first_text(bs: Seq<BlockView>) -> Option<Seq<char>>
    decreases bs.len(),
{
    if bs.len() == 0 {
        None
    } else {
        match bs[0] {
            BlockView::Text(t) => Some(t),
            _ => first_text(bs.drop_first()),
        }
    }
}

/// The texts of all text blocks, concatenated.
pub open spec fn all_texts(bs: Seq<BlockView>) -> Seq<char>
    decreases bs.len(),
{
    if bs.len() == 0 {
        Seq::empty()
    } else {
        all_texts(bs.drop_last()) + match bs.last() {
            BlockView::Text(t) => t,
            _ => Seq::<char>::empty(),
        }
    }
}

/// The tool uses among the blocks, as (id, name, input), in order.
pub open spec fn tool_use_parts(bs: Seq<BlockView>) -> Seq<(Seq<char>, Seq<char>, Seq<char>)>
    decreases bs.len(),
{
    if bs.len() == 0 {
        Seq::empty()
    } else {
        tool_use_parts(bs.drop_last()) + match bs.last() {
            BlockView::ToolUse(i, n, a) => seq![(i, n, a)],
            _ => Seq::empty(),
        }
    }
}

/// The parts of tool calls.
pub open spec fn calls_view(v: Seq<ToolCall>) -> Seq<(Seq<char>, Seq<char>, Seq<char>)> {
    v.map_values(|c: ToolCall| (c.id@, c.name@, c.arguments@))
}

impl Message {
    /// A message of one text block, without name or metadata.
    fn with_text(role: Role, text: &str) -> (r: Self)
        ensures
            r.role == role,
            blocks_view(r.content@) == seq![BlockView::Text(text@)],
            r.name is None,
            r.metadata@.len() == 0,
    {
        let r = Message { role, content: vec![ContentBlock::text(text)], name: None, metadata: Vec::new() };
        assert(blocks_view(r.content@) =~= seq![BlockView::Text(text@)]);
        r
    }

    /// A system message.
    pub fn system(text: &str) -> (r: Self)
        ensures
            r.role == Role::System,
            blocks_view(r.content@) == seq![BlockView::Text(text@)],
            r.name is None,
            r.metadata@.len() == 0,
    {
        Message::with_text(Role::System, text)
    }

    /// A user message.
    pub fn user(text: &str) -> (r: Self)
        ensures
            r.role == Role::User,
            blocks_view(r.content@) == seq![BlockView::Text(text@)],
            r.name is None,
            r.metadata@.len() == 0,
    {
        Message::with_text(Role::User, text)
    }

    /// An assistant message.
    pub fn assistant(text: &str) -> (r: Self)
        ensures
            r.role == Role::Assistant,
            blocks_view(r.content@) == seq![BlockView::Text(text@)],
            r.name is None,
            r.metadata@.len() == 0,
    {
        Message::with_text(Role::Assistant, text)
    }

    /// An assistant message: the text block, if any, then one tool use
    /// block per call, in order.
    pub fn assistant_with_tools(text: Option<String>, tool_calls: Vec<ToolCall>) -> (r: Self)
        ensures
            r.role == Role::Assistant,
            blocks_view(r.content@) == match text {
                Some(t) => seq![BlockView::Text(t@)],
                None => Seq::<BlockView>::empty(),
            } + calls_view(tool_calls@).map_values(
                |c: (Seq<char>, Seq<char>, Seq<char>)| BlockView::ToolUse(c.0, c.1, c.2),
            ),
            r.name is None,
            r.metadata@.len() == 0,
    {
        let mut content: Vec<ContentBlock> = Vec::new();
        match &text {
            Some(t) => {
                content.push(ContentBlock::text(t.as_str()));
            },
            None => {},
        }
        let ghost head = blocks_view(content@);
        let ghost cv = calls_view(tool_calls@).map_values(
            |c: (Seq<char>, Seq<char>, Seq<char>)| BlockView::ToolUse(c.0, c.1, c.2),
        );
        assert(head =~= match text {
            Some(t) => seq![BlockView::Text(t@)],
            None => Seq::<BlockView>::empty(),
        });
        let mut i: usize = 0;
        while i < tool_calls.len()
            invariant
                i <= tool_calls@.len(),
                cv == calls_view(tool_calls@).map_values(
                    |c: (Seq<char>, Seq<char>, Seq<char>)| BlockView::ToolUse(c.0, c.1, c.2),
                ),
                blocks_view(content@) == head + cv.take(i as int),
            decreases tool_calls@.len() - i,
        {
            let c = &tool_calls[i];
            let ghost before = content@;
            content.push(ContentBlock::tool_use(c.id.as_str(), c.name.as_str(), c.arguments.as_str()));
            proof {
                assert(blocks_view(content@) =~= blocks_view(before).push(
                    BlockView::ToolUse(c.id@, c.name@, c.arguments@),
                ));
                assert(cv.take(i + 1) =~= cv.take(i as int).push(cv[i as int]));
            }
            i += 1;
        }
        assert(cv.take(cv.len() as int) == cv);
        Message { role: Role::Assistant, content, name: None, metadata: Vec::new() }
    }

    /// A tool message carrying a successful result.
    pub fn tool_result(tool_call_id: &str, content: &str) -> (r: Self)
        ensures
            r.role == Role::Tool,
            blocks_view(r.content@) == seq![BlockView::ToolResult(tool_call_id@, content@, false)],
            r.name is None,
            r.metadata@.len() == 0,
    {
        let r = Message {
            role: Role::Tool,
            content: vec![ContentBlock::tool_result(tool_call_id, content)],
            name: None,
            metadata: Vec::new(),
        };
        assert(blocks_view(r.content@) =~= seq![BlockView::ToolResult(tool_call_id@, content@, false)]);
        r
    }

    /// The text of the first text block.
    pub fn text(&self) -> (r: Option<&str>)
        ensures
            match first_text(blocks_view(self.content@)) {
                Some(t) => r matches Some(s) && s@ == t,
                None => r is None,
            },
    {
        let ghost bs = blocks_view(self.content@);
        let mut i: usize = 0;
        assert(bs.skip(0) == bs);
        while i < self.content.len()
            invariant
                i <= self.content@.len(),
                bs == blocks_view(self.content@),
                first_text(bs) == first_text(bs.skip(i as int)),
            decreases self.content@.len() - i,
        {
            proof {
                assert(bs.skip(i as int)[0] == self.content@[i as int]@);
                assert(bs.skip(i as int).drop_first() == bs.skip(i + 1));
            }
            match self.content[i].as_text() {
                Some(t) => {
                    return Some(t);
                },
                None => {},
            }
            i += 1;
        }
        assert(bs.skip(i as int) =~= Seq::<BlockView>::empty());
        None
    }

    /// The texts of all text blocks, concatenated.
    pub fn all_text(&self) -> (r: String)
        ensures
            r@ == all_texts(blocks_view(self.content@)),
    {
        let ghost bs = blocks_view(self.content@);
        let mut acc: Vec<char> = Vec::new();
        let mut i: usize = 0;
        while i < self.content.len()
            invariant
                i <= self.content@.len(),
                bs == blocks_view(self.content@),
                acc@ == all_texts(bs.take(i as int)),
            decreases self.content@.len() - i,
        {
            proof {
                assert(bs.take(i + 1).drop_last() == bs.take(i as int));
                assert(bs.take(i + 1).last() == self.content@[i as int]@);
            }
            match self.content[i].as_text() {
                Some(t) => append_str(&mut acc, t),
                None => {
                    assert(acc@ + Seq::<char>::empty() == acc@);
                },
            }
            i += 1;
        }
        assert(bs.take(bs.len() as int) == bs);
        string_of(acc.as_slice())
    }

    /// The tool calls this message requests, in order.
    pub fn tool_uses(&self) -> (r: Vec<ToolCall>)
        ensures
            calls_view(r@) == tool_use_parts(blocks_view(self.content@)),
    {
        let ghost bs = blocks_view(self.content@);
        let mut out: Vec<ToolCall> = Vec::new();
        let mut i: usize = 0;
        while i < self.content.len()
            invariant
                i <= self.content@.len(),
                bs == blocks_view(self.content@),
                calls_view(out@) == tool_use_parts(bs.take(i as int)),
            decreases self.content@.len() - i,
        {
            proof {
                assert(bs.take(i + 1).drop_last() == bs.take(i as int));
                assert(bs.take(i + 1).last() == self.content@[i as int]@);
            }
            let ghost before = out@;
            match &self.content[i] {
                ContentBlock::ToolUse { id, name, input } => {
                    out.push(ToolCall { id: copy_string(id), name: copy_string(name), arguments: copy_string(input) });
                    assert(calls_view(out@) =~= calls_view(before).push((id@, name@, input@)));
                },
                _ => {
                    assert(calls_view(before) + Seq::<(Seq<char>, Seq<char>, Seq<char>)>::empty() =~= calls_view(before));
                },
            }
            i += 1;
        }
        assert(bs.take(bs.len() as int) == bs);
        out
    }

    /// Whether the message requests a tool call.
    pub fn has_tool_uses(&self) -> (r: bool)
        ensures
            r == exists|k: int| 0 <= k < self.content@.len() && #[trigger] self.content@[k] is ToolUse,
    {
        let mut i: usize = 0;
        while i < self.content.len()
            invariant
                i <= self.content@.len(),
                forall|k: int| 0 <= k < i ==> !(#[trigger] self.content@[k] is ToolUse),
            decreases self.content@.len() - i,
        {
            match &self.content[i] {
                ContentBlock::ToolUse { .. } => {
                    return true;
                },
                _ => {},
            }
            i += 1;
        }
        false
    }
}

/// The index of the last message with this role, if any.
pub open spec fn last_with_role(ms: Seq<Message>, role: Role) -> Option<int>
    decreases ms.len(),
{
    if ms.len() == 0 {
        None
    } else if ms.last().role == role {
        Some(ms.len() - 1)
    } else {
        last_with_role(ms.drop_last(), role)
    }
}

/// A conversation history.
#[derive(Clone, Debug)]
pub struct Messages(pub Vec<Message>);

impl Default for Messages {
    /// No messages.
    fn default() -> (r: Self)
        ensures
            r.0@.len() == 0,
    {
        Messages(Vec::new())
    }
}

impl Messages {
    /// An empty history.
    pub fn new() -> (r: Self)
        ensures
            r.0@.len() == 0,
    {
        Messages(Vec::new())
    }

    /// A history of these messages.
    pub fn with_messages(messages: Vec<Message>) -> (r: Self)
        ensures
            r.0 == messages,
    {
        Messages(messages)
    }

    /// An iterator over the messages, oldest first.
    pub fn iter(&self) -> (r: std::slice::Iter<'_, Message>)
        ensures
            vstd::std_specs::slice::into_iter_elts(r) == self.0@,
    {
        broadcast use vstd::std_specs::slice::group_slice_axioms;
        let r = self.0.as_slice().iter();
        assert(self.0@.as_ref().unref() =~= self.0@);
        r
    }

    /// Appends a message.
    pub fn push(&mut self, msg: Message)
        ensures
            final(self).0@ == old(self).0@.push(msg),
    {
        self.0.push(msg);
    }

    /// The last message.
    pub fn last(&self) -> (r: Option<&Message>)
        ensures
            self.0@.len() == 0 ==> r is None,
            self.0@.len() > 0 ==> r == Some(&self.0@.last()),
    {
        if self.0.len() == 0 {
            None
        } else {
            Some(&self.0[self.0.len() - 1])
        }
    }

    fn last_of(&self, role: Role) -> (r: Option<&Message>)
        ensures
            match last_with_role(self.0@, role) {
                Some(k) => r == Some(&self.0@[k]),
                None => r is None,
            },
    {
        let mut i: usize = self.0.len();
        assert(self.0@.take(self.0@.len() as int) == self.0@);
        while i > 0
            invariant
                i <= self.0@.len(),
                last_with_role(self.0@, role) == last_with_role(self.0@.take(i as int), role),
            decreases i,
        {
            proof {
                assert(self.0@.take(i as int).drop_last() == self.0@.take(i - 1));
                assert(self.0@.take(i as int).last() == self.0@[i - 1]);
            }
            if self.0[i - 1].role == role {
                return Some(&self.0[i - 1]);
            }
            i -= 1;
        }
        None
    }

    /// The last assistant message.
    pub fn last_assistant(&self) -> (r: Option<&Message>)
        ensures
            match last_with_role(self.0@, Role::Assistant) {
                Some(k) => r == Some(&self.0@[k]),
                None => r is None,
            },
    {
        proof {
            assert(self.0@.take(self.0@.len() as int) == self.0@);
        }
        self.last_of(Role::Assistant)
    }

    /// The last user message.
    pub fn last_user(&self) -> (r: Option<&Message>)
        ensures
            match last_with_role(self.0@, Role::User) {
                Some(k) => r == Some(&self.0@[k]),
                None => r is None,
            },
    {
        proof {
            assert(self.0@.take(self.0@.len() as int) == self.0@);
        }
        self.last_of(Role::User)
    }

    /// The number of messages.
    pub fn len(&self) -> (r: usize)
        ensures
            r == self.0@.len(),
    {
        self.0.len()
    }

    /// Whether there are no messages.
    pub fn is_empty(&self) -> (r: bool)
        ensures
            r == (self.0@.len() == 0),
    {
        self.0.len() == 0
    }
}

} // verus!
