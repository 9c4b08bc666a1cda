use oxidizedgraph::message::{ContentBlock, Message as ChatMessage, Messages, Role, ToolCall as ChatToolCall};
use oxidizedgraph::nodes::conditional::{branch_output, conditional_output, context_flag, route_output};
use oxidizedgraph::state::{AgentState, Message, MessageRole, ToolCall};

#[test]
fn state_test_message_constructors() {
    let msg = Message::system("You are helpful");
    assert_eq!(msg.role, MessageRole::System);
    assert_eq!(msg.content, "You are helpful");
    let msg = Message::user("Hello");
    assert_eq!(msg.role, MessageRole::User);
    let msg = Message::assistant("Hi there");
    assert_eq!(msg.role, MessageRole::Assistant);
    let msg = Message::tool_result("call_1", "result");
    assert_eq!(msg.role, MessageRole::Tool);
    assert_eq!(msg.tool_call_id, Some("call_1".to_string()));
}

#[test]
fn test_agent_state_messages() {
    let mut state = AgentState::new();
    state.add_user_message("Hello");
    state.add_assistant_message("Hi!");
    assert_eq!(state.messages.len(), 2);
    assert_eq!(state.last_message().unwrap().role, MessageRole::Assistant);
    assert_eq!(state.last_user_message().unwrap().content, "Hello".to_string());
    assert_eq!(state.last_assistant_message().unwrap().content, "Hi!".to_string());
}

#[test]
fn test_agent_state_context() {
    let mut state = AgentState::new();
    state.set_context("count", "42".to_string());
    state.set_context("name", "\"test\"".to_string());
    assert_eq!(state.get_context("count"), Some("42"));
    assert_eq!(state.get_context("name"), Some("\"test\""));
    assert!(state.has_context("count"));
    assert!(!state.has_context("missing"));
    assert_eq!(state.remove_context("count"), Some("42".to_string()));
    assert!(!state.has_context("count"));
    assert_eq!(state.remove_context("count"), None);
}

#[test]
fn context_set_replaces() {
    let mut state = AgentState::new();
    state.set_context("k", "1".to_string());
    state.set_context("k", "2".to_string());
    assert_eq!(state.get_context("k"), Some("2"));
    assert_eq!(state.context.len(), 1);
}

#[test]
fn state_test_tool_call() {
    let call = ToolCall::new("id1", "get_weather", "{\"city\":\"NYC\"}");
    assert_eq!(call.id, "id1");
    assert_eq!(call.name, "get_weather");
}

#[test]
fn agent_state_flags_and_counters() {
    let mut state = AgentState::with_system_and_user("sys", "hi");
    assert_eq!(state.messages.len(), 2);
    assert!(!state.has_pending_tool_calls());
    state.tool_calls.push(ToolCall::new("c", "t", "{}"));
    assert!(state.has_pending_tool_calls());
    state.clear_tool_calls();
    assert!(!state.has_pending_tool_calls());
    state.mark_complete();
    assert!(state.is_complete);
    state.increment_iteration();
    assert_eq!(state.iteration, 1);
    assert_eq!(AgentState::with_user_message("x").messages[0].content, "x");
}

#[test]
fn message_test_message_constructors() {
    let msg = ChatMessage::system("You are helpful");
    assert_eq!(msg.role, Role::System);
    assert_eq!(msg.text(), Some("You are helpful"));
    let msg = ChatMessage::user("Hello");
    assert_eq!(msg.role, Role::User);
    let msg = ChatMessage::assistant("Hi there");
    assert_eq!(msg.role, Role::Assistant);
}

#[test]
fn test_assistant_with_tools() {
    let tool_calls = vec![ChatToolCall::new("call_1", "get_weather", "{\"city\":\"NYC\"}")];
    let msg = ChatMessage::assistant_with_tools(Some("Let me check".into()), tool_calls);
    assert_eq!(msg.role, Role::Assistant);
    assert!(msg.has_tool_uses());
    assert_eq!(msg.tool_uses().len(), 1);
    assert_eq!(msg.tool_uses()[0].arguments, "{\"city\":\"NYC\"}");
    assert_eq!(msg.all_text(), "Let me check");
}

#[test]
fn test_messages_collection() {
    let mut messages = Messages::new();
    messages.push(ChatMessage::user("Hello"));
    messages.push(ChatMessage::assistant("Hi!"));
    assert_eq!(messages.len(), 2);
    assert_eq!(messages.last_user().unwrap().text(), Some("Hello"));
    assert_eq!(messages.last_assistant().unwrap().text(), Some("Hi!"));
    assert!(!messages.is_empty());
}

#[test]
fn message_test_tool_call() {
    let call = ChatToolCall::new("id1", "search", "{\"query\":\"rust\"}");
    assert_eq!(call.id, "id1");
    assert_eq!(call.name, "search");
}

#[test]
fn content_blocks_and_text() {
    assert_eq!(ContentBlock::text("a").as_text(), Some("a"));
    assert_eq!(ContentBlock::tool_error("id", "bad").as_text(), None);
    let msg = ChatMessage {
        role: Role::Assistant,
        content: vec![ContentBlock::tool_result("x", "y"), ContentBlock::text("one"), ContentBlock::text("two")],
        name: None,
        metadata: vec![],
    };
    assert_eq!(msg.text(), Some("one"));
    assert_eq!(msg.all_text(), "onetwo");
    assert!(!msg.has_tool_uses());
    assert!(ChatMessage::tool_result("c", "r").text().is_none());
}

#[test]
fn conditional_routing_decisions() {
    assert!(route_output("__end__").is_terminal());
    assert_eq!(route_output("x").target(), Some("x"));
    assert_eq!(conditional_output(true, "a", "b").target(), Some("a"));
    assert_eq!(conditional_output(false, "a", "b").target(), Some("b"));
    let targets = vec!["t1".to_string(), "t2".to_string()];
    assert_eq!(branch_output(&vec![false, true], &targets, "d").target(), Some("t2"));
    assert_eq!(branch_output(&vec![false, false], &targets, "d").target(), Some("d"));
    let mut state = AgentState::new();
    assert!(!context_flag(&state, "ready"));
    state.set_context("ready", "true".to_string());
    assert!(context_flag(&state, "ready"));
}

#[test]
fn messages_iter_yields_in_order() {
    let mut history = Messages::new();
    history.push(ChatMessage::user("first"));
    history.push(ChatMessage::assistant("second"));
    let texts: Vec<Option<&str>> = history.iter().map(|m| m.text()).collect();
    assert_eq!(texts, vec![Some("first"), Some("second")]);
}

#[test]
fn prepend_system_message_goes_first() {
    let mut state = AgentState::with_user_message("hi");
    state.prepend_system_message("rules");
    assert_eq!(state.messages.len(), 2);
    assert_eq!(state.messages[0].content, "rules");
    assert_eq!(state.messages[1].content, "hi");
}
