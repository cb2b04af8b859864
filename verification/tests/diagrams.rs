use marksmen::class_diagram::parse_class_diagram;
use marksmen::diagrams::{parse_gantt_diagram, parse_state_diagram, parse_timeline_diagram};
use marksmen::er_diagram::parse_er_diagram;
use marksmen::mermaid_lexer::EdgeStyle;
use marksmen::mindmap::parse_mindmap_diagram;
use marksmen::sequence_diagram::{compute_sequence_activations, parse_sequence_diagram, SequenceRow};
use marksmen::typst_text::{
    class_relation_stroke, diagram_kind, edge_stroke, escape_typst_text, has_arrowhead,
    relation_arrow_glyph, typst_color, typst_stroke, DiagramKind,
};

#[test]
fn sequence_participants_rows_and_controls() {
    let src = "sequenceDiagram\n    participant UI\n    participant API as Gateway\n    participant DSP\n\n    UI->>API: Start sonication\n    activate API\n    par Parallel safety checks\n        API->>DSP: Load waveform\n        DSP-->>API: Ready\n    and Telemetry\n        API-->>UI: Progress update\n    end\n    Note over UI,DSP: done\n    deactivate API";
    let d = parse_sequence_diagram(src).unwrap();
    assert_eq!(d.participants.len(), 3);
    assert_eq!(d.participants[1].id, "API");
    assert_eq!(d.participants[1].label, "Gateway");
    assert_eq!(d.participants[2].label, "DSP");
    assert_eq!(d.index_of("DSP"), Some(2));
    assert_eq!(d.index_of("Nobody"), None);
    assert_eq!(d.rows.len(), 10);
    match &d.rows[0] {
        SequenceRow::Message { from, to, label } => {
            assert_eq!((from.as_str(), to.as_str(), label.as_str()), ("UI", "API", "Start sonication"));
        }
        _ => panic!("expected a message"),
    }
    assert!(matches!(&d.rows[1], SequenceRow::Activate(p) if p == "API"));
    assert!(matches!(&d.rows[2], SequenceRow::Control(c) if c == "Par: Parallel safety checks"));
    match &d.rows[4] {
        SequenceRow::Message { from, to, .. } => assert_eq!((from.as_str(), to.as_str()), ("DSP", "API")),
        _ => panic!("expected a message"),
    }
    assert!(matches!(&d.rows[5], SequenceRow::Control(c) if c == "And: Telemetry"));
    assert!(matches!(&d.rows[7], SequenceRow::Control(c) if c == "End"));
    match &d.rows[8] {
        SequenceRow::Note { over, label } => {
            assert_eq!(over, &vec!["UI".to_string(), "DSP".to_string()]);
            assert_eq!(label, "done");
        }
        _ => panic!("expected a note"),
    }
    assert!(matches!(&d.rows[9], SequenceRow::Deactivate(p) if p == "API"));
    assert!(parse_sequence_diagram("sequenceDiagram\nA->>B: hi").is_err());
}

#[test]
fn state_diagram_states_and_transitions() {
    let src = "stateDiagram-v2\n    [*] --> Idle\n    Idle --> Armed: plan loaded\n    Armed --> Sonicating: start\n    Sonicating --> Fault: threshold exceeded\n    Fault --> [*]";
    let d = parse_state_diagram(src).unwrap();
    assert_eq!(d.states, vec!["Idle", "Armed", "Sonicating", "Fault"]);
    assert_eq!(d.transitions.len(), 3);
    assert_eq!(d.transitions[2].label.as_deref(), Some("threshold exceeded"));
    assert_eq!(d.index_of("Fault"), Some(3));
    assert_eq!(
        parse_state_diagram("stateDiagram\n[*] --> [*]").err().as_deref(),
        Some("State diagram has no states")
    );
}

#[test]
fn gantt_rows_sections_and_spans() {
    let src = "gantt\n    title Sonication Timing Definitions\n    dateFormat  X\n    axisFormat %L\n\n    section Pulse-Level View\n    Pulse 1 active        :p1, 0, 12\n    Pulse interval        :pi1, 12, 8\n\n    section Burst-Level View\n    Burst 1 duration      :b1, 60\n    Review                :done";
    let d = parse_gantt_diagram(src).unwrap();
    assert_eq!(d.title.as_deref(), Some("Sonication Timing Definitions"));
    assert_eq!(d.section_count, 2);
    assert_eq!(d.rows.len(), 4);
    assert_eq!((d.rows[0].start, d.rows[0].duration), (0, 12));
    assert!(d.rows[0].section_starts_here);
    assert!(!d.rows[1].section_starts_here);
    assert_eq!((d.rows[1].start, d.rows[1].duration), (12, 8));
    assert_eq!(d.rows[2].section.as_deref(), Some("Burst-Level View"));
    assert!(d.rows[2].section_starts_here);
    assert_eq!((d.rows[2].start, d.rows[2].duration), (0, 60));
    assert_eq!((d.rows[3].start, d.rows[3].duration), (0, 1));
    assert_eq!(d.rows[3].label, "Review");
    assert!(parse_gantt_diagram("gantt\ntitle Empty").is_err());
}

#[test]
fn timeline_events_on_one_or_two_lines() {
    let src = "timeline\n    title Treatment Path\n    Planning : Imaging and targeting complete\n    Delivery\n    Sonication begins";
    let d = parse_timeline_diagram(src).unwrap();
    assert_eq!(d.title.as_deref(), Some("Treatment Path"));
    assert_eq!(d.events.len(), 2);
    assert_eq!(d.events[0].point, "Planning");
    assert_eq!(d.events[1].point, "Delivery");
    assert_eq!(d.events[1].description, "Sonication begins");
}

#[test]
fn class_diagram_members_and_relations() {
    let src = "classDiagram\n    class TherapyController {\n      +start()\n      +abort()\n    }\n    class SafetyEngine {\n      +monitor()\n    }\n    TherapyController --> SafetyEngine : supervises\n    Base <|-- Derived";
    let d = parse_class_diagram(src).unwrap();
    let names: Vec<&str> = d.classes.iter().map(|c| c.name.as_str()).collect();
    assert_eq!(names, vec!["Base", "Derived", "SafetyEngine", "TherapyController"]);
    assert_eq!(d.classes[3].members, vec!["+start()", "+abort()"]);
    assert_eq!(d.classes[2].members, vec!["+monitor()"]);
    assert_eq!(d.relationships.len(), 2);
    assert_eq!(d.relationships[0].kind, "-->");
    assert_eq!(d.relationships[0].label.as_deref(), Some("supervises"));
    assert_eq!(d.relationships[1].kind, "<|--");
    assert_eq!(d.relationships[1].from, "Base");
    assert_eq!(d.relationships[1].label, None);
}

#[test]
fn er_diagram_entities_and_cardinalities() {
    let src = "erDiagram\n    PATIENT ||--o{ TREATMENT : receives\n    PATIENT {\n      string id\n      string name\n    }\n    TREATMENT {\n      string modality\n    }";
    let d = parse_er_diagram(src).unwrap();
    assert_eq!(d.entities.len(), 2);
    assert_eq!(d.entities[0].name, "PATIENT");
    assert_eq!(d.entities[0].attributes, vec!["string id", "string name"]);
    assert_eq!(d.entities[1].attributes, vec!["string modality"]);
    let r = &d.relationships[0];
    assert_eq!((r.left.as_str(), r.left_cardinality.as_str(), r.right_cardinality.as_str(), r.right.as_str(), r.label.as_str()), ("PATIENT", "||", "o{", "TREATMENT", "receives"));
}

#[test]
fn mindmap_tree_from_indentation() {
    let src = "mindmap\n  Treatment Platform\n    Planning\n      Imaging\n      Targeting\n    Delivery\n      Sonication\n    ::Review\n";
    let d = parse_mindmap_diagram(src).unwrap();
    assert_eq!(d.root.label, "Treatment Platform");
    let kids: Vec<&str> = d.root.children.iter().map(|c| c.label.as_str()).collect();
    assert_eq!(kids, vec!["Planning", "Delivery", "Review"]);
    assert_eq!(d.root.children[0].children.len(), 2);
    assert_eq!(d.root.children[1].children[0].label, "Sonication");
    assert!(d.root.children[2].children.is_empty());
    assert!(parse_mindmap_diagram("mindmap\n\n").is_err());
}

#[test]
fn typst_text_helpers() {
    assert_eq!(typst_color(Some(" #eef4ff ")).as_deref(), Some("rgb(\"#eef4ff\")"));
    assert_eq!(typst_color(Some("red")).as_deref(), Some("red"));
    assert_eq!(typst_color(None), None);
    assert_eq!(typst_stroke("#f00", "2pxpx"), "2pt + rgb(\"#f00\")");
    assert_eq!(edge_stroke(EdgeStyle::ThickArrow), "2.5pt + rgb(\"#555555\")");
    assert_eq!(edge_stroke(EdgeStyle::DottedArrow), "1.5pt + rgb(\"#555555\")");
    assert!(!has_arrowhead(EdgeStyle::SolidLine));
    assert!(has_arrowhead(EdgeStyle::SolidArrow));
    assert_eq!(escape_typst_text("a[b]\\c"), "a\\[b\\]\\\\c");
    assert_eq!(class_relation_stroke("..>"), "1.2pt + rgb(\"#777777\")");
    assert_eq!(class_relation_stroke("-->"), "1.4pt + rgb(\"#555555\")");
    assert_eq!(relation_arrow_glyph("--|>"), "△");
    assert_eq!(relation_arrow_glyph("o--"), "◇");
    assert_eq!(relation_arrow_glyph("-->"), "▼");
    assert_eq!(relation_arrow_glyph("--"), "•");
}

#[test]
fn diagram_kind_by_first_word() {
    assert_eq!(diagram_kind("  sequenceDiagram\nA->>B: x"), DiagramKind::Sequence);
    assert_eq!(diagram_kind("stateDiagram-v2"), DiagramKind::State);
    assert_eq!(diagram_kind("pie\n"), DiagramKind::Pie);
    assert_eq!(diagram_kind("graph TD\nA-->B"), DiagramKind::Flowchart);
}

#[test]
fn er_one_word_line_is_refused() {
    assert!(parse_er_diagram("erDiagram\n    CUSTOMER").is_err());
}

#[test]
fn sequence_activations_close_in_order_and_open_bars_run_to_the_end() {
    let src = "sequenceDiagram\nparticipant A\nparticipant B\nactivate A\nactivate A\ndeactivate A\nNote over A: hi\nactivate B\ndeactivate C";
    let seq = parse_sequence_diagram(src).unwrap();
    assert_eq!(seq.rows.len(), 6);
    let acts = compute_sequence_activations(&seq);
    let got: Vec<(String, usize, usize, usize)> =
        acts.iter().map(|a| (a.participant.clone(), a.start_row, a.end_row, a.depth)).collect();
    assert_eq!(
        got,
        vec![
            ("A".to_string(), 1, 2, 1),
            ("A".to_string(), 0, 6, 0),
            ("B".to_string(), 4, 6, 0),
        ]
    );
}
