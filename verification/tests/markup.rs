use marksmen::mailmerge::replace_tags;
use marksmen::markup::{emit_table_row, escape_latex, node_subgraph_path, OmmlAstGenerator};
use marksmen::mermaid_graph::Subgraph;

fn record(pairs: &[(&str, &str)]) -> Vec<(String, String)> {
    pairs.iter().map(|(k, v)| (k.to_string(), v.to_string())).collect()
}

#[test]
fn replace_tags_fills_trimmed_keys() {
    let rec = record(&[("First_Name", "Alice"), ("Balance", "$100")]);
    assert_eq!(
        replace_tags("Hello {{ First_Name }}! Your balance is {{Balance}}.", &rec).as_deref(),
        Some("Hello Alice! Your balance is $100.")
    );
}

#[test]
fn replace_tags_drops_missing_fields() {
    let rec = record(&[]);
    assert_eq!(replace_tags("Hello {{Name}}", &rec).as_deref(), Some("Hello "));
}

#[test]
fn replace_tags_without_complete_tags() {
    let rec = record(&[("a", "1")]);
    assert_eq!(replace_tags("no tags here", &rec), None);
    assert_eq!(replace_tags("open {{a but never closed", &rec), None);
    assert_eq!(replace_tags("{{a}} and {{ b", &rec).as_deref(), Some("1 and {{ b"));
}

#[test]
fn latex_special_characters_are_escaped() {
    assert_eq!(escape_latex("50% & $5 #1_a {x} ~^\\ <>"), "50\\% \\& \\$5 \\#1\\_a \\{x\\} \\textasciitilde{}\\textasciicircum{}\\textbackslash{} \\textless{}\\textgreater{}");
    assert_eq!(escape_latex("plain"), "plain");
}

#[test]
fn markdown_table_rows() {
    let mut out = String::from("x");
    emit_table_row(&["A".to_string(), "B".to_string()], &mut out);
    assert_eq!(out, "x| A | B |\n");
    let mut empty = String::new();
    emit_table_row(&[], &mut empty);
    assert_eq!(empty, "|\n");
}

#[test]
fn brace_groups_of_latex() {
    let chars: Vec<char> = "  {a{b}c} 2".chars().collect();
    let (g, next) = OmmlAstGenerator::extract_group(&chars, 0);
    assert_eq!(g, "a{b}c");
    assert_eq!(next, 9);
    let (g2, next2) = OmmlAstGenerator::extract_group(&chars, next);
    assert_eq!(g2, "2");
    assert_eq!(next2, 11);
    let (g3, next3) = OmmlAstGenerator::extract_group(&chars, next2);
    assert_eq!((g3.as_str(), next3), ("", 11));
    let open: Vec<char> = "{unclosed".chars().collect();
    assert_eq!(OmmlAstGenerator::extract_group(&open, 0), ("unclosed".to_string(), 9));
}

fn sub(title: &str, nodes: &[&str], depth: usize) -> Subgraph {
    Subgraph {
        title: title.to_string(),
        nodes: nodes.iter().map(|s| s.to_string()).collect(),
        parent_title: None,
        depth,
    }
}

#[test]
fn subgraph_path_outermost_first() {
    let subs = vec![sub("Inner", &["A"], 1), sub("Other", &["B"], 0), sub("Outer", &["A", "B"], 0), sub("Deep", &["A"], 2)];
    assert_eq!(node_subgraph_path("A", &subs), vec![2, 0, 3]);
    assert_eq!(node_subgraph_path("B", &subs), vec![1, 2]);
    assert!(node_subgraph_path("Z", &subs).is_empty());
}
