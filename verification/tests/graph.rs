use marksmen::cycle_removal::remove_cycles;
use marksmen::directed_graph::{ast_to_graph, flowchart_graph, DirectedGraph};
use marksmen::rank_assignment::assign_ranks;
use marksmen::mermaid_lexer::{EdgeStyle, NodeShape};
use marksmen::mermaid_parser::parse;

#[test]
#[allow(non_snake_case)]
fn DFS_reverses_mathematical_cycle() {
    let mut graph = DirectedGraph::new("TD".to_string());
    graph.add_node("A".to_string(), None, None, None);
    graph.add_node("B".to_string(), None, None, None);
    graph.add_node("C".to_string(), None, None, None);

    // A -> B -> C -> A (Cycle)
    graph.add_edge("A".to_string(), "B".to_string(), EdgeStyle::SolidArrow, None);
    graph.add_edge("B".to_string(), "C".to_string(), EdgeStyle::SolidArrow, None);
    graph.add_edge("C".to_string(), "A".to_string(), EdgeStyle::SolidArrow, None); // Back-edge

    remove_cycles(&mut graph);

    // A -> B and B -> C should remain
    assert!(graph.edges().iter().any(|e| e.from == "A" && e.to == "B"));
    assert!(graph.edges().iter().any(|e| e.from == "B" && e.to == "C"));

    // C -> A should be mathematically reversed to A -> C
    assert!(!graph.edges().iter().any(|e| e.from == "C" && e.to == "A"));
    assert!(graph.edges().iter().any(|e| e.from == "A" && e.to == "C"));
}

#[test]
fn remove_cycles_leaves_acyclic_graph_unchanged() {
    let mut graph = DirectedGraph::new("LR".to_string());
    for id in ["A", "B", "C", "D"] {
        graph.add_node(id.to_string(), None, None, None);
    }
    graph.add_edge("A".to_string(), "B".to_string(), EdgeStyle::SolidArrow, None);
    graph.add_edge("A".to_string(), "C".to_string(), EdgeStyle::DottedArrow, Some("x".to_string()));
    graph.add_edge("C".to_string(), "D".to_string(), EdgeStyle::SolidLine, None);
    graph.add_edge("B".to_string(), "D".to_string(), EdgeStyle::ThickArrow, None);
    let before: Vec<(String, String)> = graph.edges().iter().map(|e| (e.from.clone(), e.to.clone())).collect();
    remove_cycles(&mut graph);
    let after: Vec<(String, String)> = graph.edges().iter().map(|e| (e.from.clone(), e.to.clone())).collect();
    assert_eq!(before, after);
}

#[test]
fn remove_cycles_keeps_self_loop_and_edge_attributes() {
    let mut graph = DirectedGraph::new("TD".to_string());
    graph.add_node("A".to_string(), None, None, None);
    graph.add_node("B".to_string(), None, None, None);
    graph.add_edge("A".to_string(), "A".to_string(), EdgeStyle::SolidArrow, None);
    graph.add_edge("A".to_string(), "B".to_string(), EdgeStyle::SolidArrow, None);
    graph.add_edge("B".to_string(), "A".to_string(), EdgeStyle::DottedArrow, Some("back".to_string()));
    remove_cycles(&mut graph);
    let e = graph.edges();
    assert_eq!((e[0].from.as_str(), e[0].to.as_str()), ("A", "A"));
    assert_eq!((e[1].from.as_str(), e[1].to.as_str()), ("A", "B"));
    assert_eq!((e[2].from.as_str(), e[2].to.as_str()), ("A", "B"));
    assert_eq!(e[2].style, EdgeStyle::DottedArrow);
    assert_eq!(e[2].label.as_deref(), Some("back"));
}

#[test]
fn add_node_keeps_first_label_and_merges_styles() {
    let mut graph = DirectedGraph::new("TD".to_string());
    graph.add_node("A".to_string(), None, None, None);
    graph.add_node("A".to_string(), Some("First<br/>line".to_string()), Some(NodeShape::Round), None);
    graph.add_node("A".to_string(), Some("Second".to_string()), Some(NodeShape::Circle), None);
    assert_eq!(graph.nodes().len(), 1);
    assert_eq!(graph.nodes()[0].label, "First line");
    assert_eq!(graph.nodes()[0].shape, Some(NodeShape::Round));
}

#[test]
fn ast_to_graph_builds_chains_in_order() {
    let ast = parse("graph TD\n  A[Start] -->|go| B -->|on| C\n  C -.-> A").unwrap();
    let graph = ast_to_graph(ast);
    let ids: Vec<&str> = graph.nodes().iter().map(|n| n.id.as_str()).collect();
    assert_eq!(ids, vec!["A", "B", "C"]);
    let edges: Vec<(&str, &str)> = graph.edges().iter().map(|e| (e.from.as_str(), e.to.as_str())).collect();
    assert_eq!(edges, vec![("A", "B"), ("B", "C"), ("C", "A")]);
    assert_eq!(graph.nodes()[0].label, "Start");
    assert_eq!(graph.out_edges("C").len(), 1);
    assert_eq!(graph.edges()[1].label.as_deref(), Some("on"));
    assert_eq!(graph.edges()[2].style, EdgeStyle::DottedArrow);
}

fn rank_of(ranks: &[Vec<String>], id: &str) -> Option<usize> {
    ranks.iter().position(|r| r.iter().any(|s| s == id))
}

#[test]
fn assign_ranks_uses_longest_paths() {
    let mut graph = DirectedGraph::new("TD".to_string());
    for id in ["A", "B", "C", "D"] {
        graph.add_node(id.to_string(), None, None, None);
    }
    graph.add_edge("A".to_string(), "B".to_string(), EdgeStyle::SolidArrow, None);
    graph.add_edge("B".to_string(), "C".to_string(), EdgeStyle::SolidArrow, None);
    graph.add_edge("A".to_string(), "C".to_string(), EdgeStyle::SolidArrow, None);
    let ranked = assign_ranks(&graph);
    assert_eq!(ranked.ranks.len(), 3);
    assert_eq!(rank_of(&ranked.ranks, "A"), Some(0));
    assert_eq!(rank_of(&ranked.ranks, "D"), Some(0));
    assert_eq!(rank_of(&ranked.ranks, "B"), Some(1));
    assert_eq!(rank_of(&ranked.ranks, "C"), Some(2));
    assert_eq!(ranked.ranks[0], vec!["A".to_string(), "D".to_string()]);
    assert_eq!(ranked.edges.len(), 3);
    assert_eq!(ranked.direction, "TD");
}

#[test]
fn assign_ranks_leaves_nodes_behind_a_loop_unranked() {
    let mut graph = DirectedGraph::new("TD".to_string());
    for id in ["A", "B", "C"] {
        graph.add_node(id.to_string(), None, None, None);
    }
    graph.add_edge("A".to_string(), "B".to_string(), EdgeStyle::SolidArrow, None);
    graph.add_edge("B".to_string(), "B".to_string(), EdgeStyle::SolidArrow, None);
    graph.add_edge("B".to_string(), "C".to_string(), EdgeStyle::SolidArrow, None);
    let ranked = assign_ranks(&graph);
    assert_eq!(rank_of(&ranked.ranks, "A"), Some(0));
    assert_eq!(rank_of(&ranked.ranks, "B"), Some(1));
    assert_eq!(rank_of(&ranked.ranks, "C"), None);
}

#[test]
fn empty_graph_has_one_empty_rank() {
    let graph = DirectedGraph::new("LR".to_string());
    let ranked = assign_ranks(&graph);
    assert_eq!(ranked.ranks.len(), 1);
    assert!(ranked.ranks[0].is_empty());
}

#[test]
fn flowchart_pipeline_ranks_every_node_after_cycle_removal() {
    let mut graph = flowchart_graph("graph TD\n  A --> B\n  B --> C\n  C --> A\n  C --> D").unwrap();
    remove_cycles(&mut graph);
    let ranked = assign_ranks(&graph);
    for id in ["A", "B", "C", "D"] {
        assert!(rank_of(&ranked.ranks, id).is_some(), "{id} unranked");
    }
    for e in graph.edges() {
        assert!(rank_of(&ranked.ranks, &e.from).unwrap() < rank_of(&ranked.ranks, &e.to).unwrap());
    }
}

#[test]
fn remove_cycles_follows_edges_through_undeclared_nodes() {
    let mut graph = DirectedGraph::new("TD".to_string());
    graph.add_node("A".to_string(), None, None, None);
    graph.add_edge("A".to_string(), "X".to_string(), EdgeStyle::SolidArrow, None);
    graph.add_edge("X".to_string(), "A".to_string(), EdgeStyle::SolidArrow, None);
    remove_cycles(&mut graph);
    let e = graph.edges();
    assert_eq!((e[0].from.as_str(), e[0].to.as_str()), ("A", "X"));
    assert_eq!((e[1].from.as_str(), e[1].to.as_str()), ("A", "X"));
}
