use hatcher::memory::MemoryGraph;

#[test]
fn memory_graph_tracks_nodes_and_edges() {
    let mut graph = MemoryGraph::default();
    graph.add_edge("signal", "policy");
    assert!(graph.nodes.contains(&"signal".to_string()));
    assert!(graph.nodes.contains(&"policy".to_string()));
    assert!(graph.edges.contains(&("signal".to_string(), "policy".to_string())));
}

#[test]
fn default_graph_is_empty() {
    let graph = MemoryGraph::default();
    assert!(graph.nodes.is_empty());
    assert!(graph.edges.is_empty());
}

#[test]
fn add_node_keeps_insertion_order_and_skips_duplicates() {
    let mut graph = MemoryGraph::default();
    graph.add_node("intent");
    graph.add_node("policy");
    graph.add_node("intent");
    assert_eq!(graph.nodes, vec!["intent".to_string(), "policy".to_string()]);
    assert!(graph.edges.is_empty());
}

#[test]
fn add_edge_twice_adds_it_once() {
    let mut graph = MemoryGraph::default();
    graph.add_edge("intent", "policy");
    graph.add_edge("intent", "policy");
    assert_eq!(graph.nodes, vec!["intent".to_string(), "policy".to_string()]);
    assert_eq!(graph.edges, vec![("intent".to_string(), "policy".to_string())]);
}

#[test]
fn console_memory_demo_graph() {
    let mut graph = MemoryGraph::default();
    graph.add_edge("intent", "policy");
    graph.add_edge("signal", "intent");
    assert_eq!(
        graph.nodes,
        vec!["intent".to_string(), "policy".to_string(), "signal".to_string()]
    );
    assert_eq!(
        graph.edges,
        vec![
            ("intent".to_string(), "policy".to_string()),
            ("signal".to_string(), "intent".to_string()),
        ]
    );
    assert_eq!(graph.nodes.len(), 3);
    assert_eq!(graph.edges.len(), 2);
}

#[test]
fn reversed_edge_is_a_different_edge() {
    let mut graph = MemoryGraph::default();
    graph.add_edge("a", "b");
    graph.add_edge("b", "a");
    assert_eq!(graph.edges.len(), 2);
    assert_eq!(graph.nodes.len(), 2);
}

#[test]
fn self_loop_adds_one_node() {
    let mut graph = MemoryGraph::default();
    graph.add_edge("loop", "loop");
    assert_eq!(graph.nodes, vec!["loop".to_string()]);
    assert_eq!(graph.edges, vec![("loop".to_string(), "loop".to_string())]);
}

#[test]
fn add_node_keeps_existing_edges() {
    let mut graph = MemoryGraph::default();
    graph.add_edge("x", "y");
    graph.add_node("z");
    assert_eq!(graph.edges, vec![("x".to_string(), "y".to_string())]);
    assert_eq!(graph.nodes.len(), 3);
}
