use marksmen::mermaid_lexer::{lex, EdgeStyle, LexerError, NodeShape, Token};
use marksmen::mermaid_parser::{parse, ParseError, Statement};

#[test]
fn lex_basic_graph() {
    let input = "graph TD\n  A[Start] --> B(End)";
    let tokens = lex(input).unwrap();

    assert_eq!(tokens[0], Token::KeywordGraph);
    assert_eq!(tokens[1], Token::Direction("TD".to_string()));
    assert_eq!(tokens[2], Token::StatementTerminator);
    assert_eq!(tokens[3], Token::Identifier("A".to_string()));
    assert_eq!(tokens[4], Token::NodeLabel { text: "Start".to_string(), shape: NodeShape::Square });
    assert_eq!(tokens[5], Token::Edge(EdgeStyle::SolidArrow));
    assert_eq!(tokens[6], Token::Identifier("B".to_string()));
    assert_eq!(tokens[7], Token::NodeLabel { text: "End".to_string(), shape: NodeShape::Round });
    assert_eq!(tokens[8], Token::Eof);
}

#[test]
fn lex_circle_and_labeled_edge() {
    let input = "flowchart LR\nA((Start)) -->|Label| B[End]";
    let tokens = lex(input).unwrap();

    assert_eq!(tokens[0], Token::KeywordGraph);
    assert_eq!(tokens[1], Token::Direction("LR".to_string()));
    assert_eq!(tokens[3], Token::Identifier("A".to_string()));
    assert_eq!(tokens[4], Token::NodeLabel { text: "Start".to_string(), shape: NodeShape::Circle });
    assert_eq!(tokens[5], Token::LabeledEdge { style: EdgeStyle::SolidArrow, label: "Label".to_string() });
    assert_eq!(tokens[6], Token::Identifier("B".to_string()));
}

#[test]
fn lex_spaced_thick_labeled_edge() {
    let input = "flowchart LR\nA == OpenIGTLink TLS 256-Bit ==> B";
    let tokens = lex(input).unwrap();
    assert_eq!(tokens[3], Token::Identifier("A".to_string()));
    assert_eq!(
        tokens[4],
        Token::LabeledEdge { style: EdgeStyle::ThickArrow, label: "OpenIGTLink TLS 256-Bit".to_string() }
    );
    assert_eq!(tokens[5], Token::Identifier("B".to_string()));
}

#[test]
fn lex_unterminated_label_and_dotted_edge() {
    assert!(matches!(lex("graph TD\nA[oops"), Err(LexerError::UnterminatedLabel)));
    // A complete arrow takes no text after it as a label.
    let tokens = lex("graph LR; A -.-> B;; C --- D").unwrap();
    assert_eq!(tokens[4], Token::Edge(EdgeStyle::DottedArrow));
    assert_eq!(tokens[5], Token::Identifier("B".to_string()));
    // An opening `--` takes the text up to the next arrow as its label.
    let tokens = lex("graph LR\nA -- ok --> B").unwrap();
    assert_eq!(tokens[4], Token::LabeledEdge { style: EdgeStyle::SolidLine, label: "ok".to_string() });
    assert_eq!(tokens[5], Token::Identifier("B".to_string()));
    let tokens = lex("graph LR; A -.-> B;;\nC --- D").unwrap();
    assert_eq!(tokens[2], Token::StatementTerminator);
    assert_eq!(tokens[4], Token::Edge(EdgeStyle::DottedArrow));
    assert_eq!(tokens[6], Token::StatementTerminator);
    assert_eq!(tokens[8], Token::Edge(EdgeStyle::SolidLine));
    assert_eq!(tokens[10], Token::Eof);
    let tokens = lex("graph TD\nX{Decide}").unwrap();
    assert_eq!(tokens[4], Token::NodeLabel { text: "Decide".to_string(), shape: NodeShape::Rhombus });
}

#[test]
fn parse_basic_ast() {
    let input = "graph TD\n  A[Start] --> B(End)";
    let ast = parse(input).unwrap();

    assert_eq!(ast.direction, "TD");
    assert_eq!(ast.statements.len(), 1);

    match &ast.statements[0] {
        Statement::Edge(e) => {
            assert_eq!(e.from.id, "A");
            assert_eq!(e.from.label.as_deref(), Some("Start"));
            assert_eq!(e.to.id, "B");
            assert_eq!(e.to.label.as_deref(), Some("End"));
        }
        _ => panic!("Expected edge statement"),
    }
}

#[test]
fn parse_flowchart_with_mermaid_directives() {
    let input = "flowchart LR\n    classDef local fill:#eef4ff\n    subgraph Test\n        A[Left]:::local -->|Labeled Link| B((Right)):::local\n    end";
    let ast = parse(input).unwrap();

    assert_eq!(ast.direction, "LR");
    assert_eq!(ast.statements.len(), 1);
    assert_eq!(ast.subgraphs.len(), 1);
    assert_eq!(ast.subgraphs[0].title, "Test");
    assert_eq!(ast.subgraphs[0].depth, 0);

    match &ast.statements[0] {
        Statement::Edge(e) => {
            assert_eq!(e.from.id, "A");
            assert_eq!(e.to.id, "B");
            assert_eq!(e.to.shape, Some(NodeShape::Circle));
            assert_eq!(e.label.as_deref(), Some("Labeled Link"));
            assert_eq!(e.from.style.as_ref().and_then(|s| s.fill.as_deref()), Some("#eef4ff"));
        }
        _ => panic!("Expected edge statement"),
    }
}

#[test]
fn parse_nested_subgraphs() {
    let input = "flowchart LR\nsubgraph Outer\n    subgraph Inner\n        A[Alpha]\n    end\n    B[Beta]\nend\nA --> B";
    let ast = parse(input).unwrap();

    assert_eq!(ast.subgraphs.len(), 2);
    let outer = ast.subgraphs.iter().find(|s| s.title == "Outer").unwrap();
    let inner = ast.subgraphs.iter().find(|s| s.title == "Inner").unwrap();
    assert_eq!(outer.parent_title, None);
    assert_eq!(outer.depth, 0);
    assert!(outer.nodes.contains(&"A".to_string()));
    assert!(outer.nodes.contains(&"B".to_string()));
    assert_eq!(inner.parent_title.as_deref(), Some("Outer"));
    assert_eq!(inner.depth, 1);
    assert_eq!(inner.nodes, vec!["A".to_string()]);
}

#[test]
fn parse_errors_and_chains() {
    assert!(matches!(parse("A --> B"), Err(ParseError::MissingGraphKeyword)));
    assert!(matches!(parse("graph A --> B"), Err(ParseError::UnexpectedToken(_))));
    let ast = parse("graph TD\nA --> B --> C").unwrap();
    match &ast.statements[0] {
        Statement::Chain(nodes, links) => {
            let ids: Vec<&str> = nodes.iter().map(|n| n.id.as_str()).collect();
            assert_eq!(ids, vec!["A", "B", "C"]);
            assert!(nodes.iter().all(|n| n.label.is_none() && n.shape.is_none() && n.style.is_none()));
            assert_eq!(links.len(), 2);
            assert!(links.iter().all(|l| l.style == EdgeStyle::SolidArrow && l.label.is_none()));
        }
        _ => panic!("Expected chain"),
    }
    let ast = parse("graph TD\nA -->|x| B -->|y| C\nclass A,C hot\nclassDef hot stroke:#f00;").unwrap();
    match &ast.statements[0] {
        Statement::Chain(nodes, links) => {
            assert_eq!(nodes.len(), 3);
            assert_eq!(links.len(), 2);
            assert_eq!(nodes[0].style.as_ref().and_then(|s| s.stroke.as_deref()), Some("#f00"));
            assert!(nodes[1].style.is_none());
        }
        _ => panic!("Expected chain"),
    }
}

#[test]
fn lex_output_ends_with_single_eof_and_no_doubled_terminators() {
    let input = "graph LR\n\n  A --> B;\n;\n  B --> C\n";
    let tokens = lex(input).unwrap();
    assert_eq!(tokens.last(), Some(&Token::Eof));
    assert_eq!(tokens.iter().filter(|t| **t == Token::Eof).count(), 1);
    for w in tokens.windows(2) {
        assert!(!(w[0] == Token::StatementTerminator && w[1] == Token::StatementTerminator));
    }
}
