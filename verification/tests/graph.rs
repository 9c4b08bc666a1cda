use oxidizedgraph::graph::{EdgeTarget, GraphEdge, GraphError, GraphTopology, NodeOutput, CONTINUE, END};

fn topology(ids: &[&str], entry: Option<&str>, edges: Vec<GraphEdge>) -> GraphTopology {
    let mut g = GraphTopology::new();
    for id in ids {
        g.add_node(id);
    }
    g.entry_point = entry.map(|e| e.to_string());
    for e in edges {
        g.add_edge(e);
    }
    g
}

#[test]
fn test_node_output() {
    let output = NodeOutput::cont();
    assert!(!output.is_terminal());
    assert!(output.target().is_none());

    let output = NodeOutput::continue_to("next");
    assert_eq!(output.target(), Some("next"));

    let output = NodeOutput::finish();
    assert!(output.is_terminal());

    let output = NodeOutput::end();
    assert!(output.is_terminal());

    let output = NodeOutput::route("target");
    assert_eq!(output.target(), Some("target"));

    let output = NodeOutput::transition("success");
    assert_eq!(output.target(), Some("success"));
}

#[test]
fn test_graph_builder() {
    let mut g = topology(&["node1", "node2"], Some("node1"), vec![GraphEdge::direct("node1", "node2"), GraphEdge::direct("node2", END)]);
    g.name = Some("test_graph".to_string());
    let graph = g.compile().unwrap();
    assert_eq!(graph.entry_point(), "node1");
    assert!(graph.has_node("node1"));
    assert!(graph.has_node("node2"));
    assert!(graph.has_node(END));
    assert_eq!(graph.name(), Some("test_graph"));
}

#[test]
fn test_graph_builder_no_entry_point() {
    let result = topology(&["node1"], None, vec![]).compile();
    assert!(matches!(result, Err(GraphError::NoEntryPoint)));
}

#[test]
fn test_graph_builder_missing_node() {
    let result = topology(&[], Some("nonexistent"), vec![]).compile();
    assert!(matches!(result, Err(GraphError::NodeNotFound(_))));
}

#[test]
fn edge_to_missing_node_is_refused() {
    let result = topology(&["a"], Some("a"), vec![GraphEdge::direct("a", "b")]).compile();
    assert_eq!(result.unwrap_err(), GraphError::NodeNotFound("b".to_string()));
}

#[test]
fn test_conditional_edge() {
    let graph = topology(&["start", "branch_a", "branch_b"], Some("start"), vec![GraphEdge::conditional("start")])
        .compile()
        .unwrap();
    assert_eq!(graph.get_next("start"), Some(EdgeTarget::Router(0)));
}

#[test]
fn test_transition_key_edge_routing() {
    let graph = topology(
        &["start", "tool", "finish"],
        Some("start"),
        vec![GraphEdge::direct_with_key("start", "tool", "tool_call"), GraphEdge::direct_with_key("start", "finish", "finish")],
    )
    .compile()
    .unwrap();
    assert_eq!(graph.get_next_for_transition("start", "tool_call"), Some(EdgeTarget::Node("tool".to_string())));
    assert_eq!(graph.get_next_for_transition("start", "finish"), Some(EdgeTarget::Node("finish".to_string())));
    assert_eq!(graph.get_next_for_transition("start", "missing"), None);
}

#[test]
fn test_transition_key_conditional_routing() {
    let graph = topology(&["start", "branch_a", "branch_b"], Some("start"), vec![GraphEdge::conditional_with_key("start", "route")])
        .compile()
        .unwrap();
    assert_eq!(graph.get_next_for_transition("start", "route"), Some(EdgeTarget::Router(0)));
    assert_eq!(graph.get_next_for_transition("start", CONTINUE), None);
}

#[test]
fn test_unkeyed_edges_are_default_continue_path() {
    let graph = topology(&["start", "next"], Some("start"), vec![GraphEdge::direct("start", "next")]).compile().unwrap();
    assert_eq!(graph.get_next_for_transition("start", CONTINUE), Some(EdgeTarget::Node("next".to_string())));
    assert_eq!(graph.get_next_for_transition("start", "other"), None);
}

#[test]
fn first_edge_for_a_key_wins() {
    let graph = topology(
        &["a", "b", "c"],
        Some("a"),
        vec![GraphEdge::direct("a", "b"), GraphEdge::direct("a", "c")],
    )
    .compile()
    .unwrap();
    assert_eq!(graph.get_next("a"), Some(EdgeTarget::Node("b".to_string())));
}

#[test]
fn resolve_next_node_follows_outputs() {
    let graph = topology(&["a", "b"], Some("a"), vec![GraphEdge::direct("a", "b")]).compile().unwrap();
    assert_eq!(graph.resolve_next_node("a", &NodeOutput::cont()), EdgeTarget::Node("b".to_string()));
    assert_eq!(graph.resolve_next_node("a", &NodeOutput::finish()), EdgeTarget::Node(END.to_string()));
    assert_eq!(graph.resolve_next_node("a", &NodeOutput::route("x")), EdgeTarget::Node("x".to_string()));
    assert_eq!(graph.resolve_next_node("b", &NodeOutput::cont()), EdgeTarget::Node(END.to_string()));
    assert_eq!(graph.resolve_next_node("a", &NodeOutput::transition("k")), EdgeTarget::Node(END.to_string()));
}

#[test]
fn test_mermaid_output() {
    let graph = topology(&["node1", "node2"], Some("node1"), vec![GraphEdge::direct("node1", "node2"), GraphEdge::direct("node2", END)])
        .compile()
        .unwrap();
    let mermaid = graph.to_mermaid();
    assert!(mermaid.contains("graph TD"));
    assert!(mermaid.contains("node1"));
    assert!(mermaid.contains("node2"));
}

#[test]
fn mermaid_exact_text() {
    let graph = topology(&["a-b"], Some("a-b"), vec![GraphEdge::direct("a-b", END), GraphEdge::conditional("a-b")])
        .compile()
        .unwrap();
    assert_eq!(
        graph.to_mermaid(),
        "graph TD\n    a_b[a-b]\n    __end__((END))\n    __start__([Start]) --> a_b\n    a_b --> __end__\n    a_b -.->|conditional| ...\n"
    );
}
