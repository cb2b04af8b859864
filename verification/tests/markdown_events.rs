use marksmen::attribute_pass::{intercept, intercept_attributes, AnnotatedEvent};
use marksmen::combine::AstConcatenator;
use marksmen::html_writer::{diagram_pieces, html_pieces, math_pieces, HtmlPiece};
use marksmen::config::Config;
use marksmen::mailmerge::process_ast;
use marksmen::merge::{mail_merge, merge_records};
use marksmen::marp_writer::convert;
use marksmen::md_events::{Alignment, Event, HeadingLevel, Tag, TagEnd};
use pulldown_cmark as md;

fn level(l: md::HeadingLevel) -> HeadingLevel {
    match l {
        md::HeadingLevel::H1 => HeadingLevel::H1,
        md::HeadingLevel::H2 => HeadingLevel::H2,
        md::HeadingLevel::H3 => HeadingLevel::H3,
        md::HeadingLevel::H4 => HeadingLevel::H4,
        md::HeadingLevel::H5 => HeadingLevel::H5,
        md::HeadingLevel::H6 => HeadingLevel::H6,
    }
}

fn align(a: &md::Alignment) -> Alignment {
    match a {
        md::Alignment::None => Alignment::Unaligned,
        md::Alignment::Left => Alignment::Left,
        md::Alignment::Center => Alignment::Center,
        md::Alignment::Right => Alignment::Right,
    }
}

fn tag(t: md::Tag) -> Tag {
    match t {
        md::Tag::Heading { level: l, id, .. } => Tag::Heading { level: level(l), id: id.map(|i| i.to_string()) },
        md::Tag::Paragraph => Tag::Paragraph,
        md::Tag::BlockQuote(_) => Tag::BlockQuote,
        md::Tag::CodeBlock(md::CodeBlockKind::Fenced(lang)) => Tag::FencedCode(lang.to_string()),
        md::Tag::CodeBlock(md::CodeBlockKind::Indented) => Tag::IndentedCode,
        md::Tag::List(start) => Tag::List(start),
        md::Tag::Item => Tag::Item,
        md::Tag::Table(a) => Tag::Table(a.iter().map(align).collect()),
        md::Tag::TableHead => Tag::TableHead,
        md::Tag::TableRow => Tag::TableRow,
        md::Tag::TableCell => Tag::TableCell,
        md::Tag::Emphasis => Tag::Emphasis,
        md::Tag::Strong => Tag::Strong,
        md::Tag::Strikethrough => Tag::Strikethrough,
        md::Tag::Link { dest_url, title, .. } => Tag::Link { dest_url: dest_url.to_string(), title: title.to_string() },
        md::Tag::Image { dest_url, title, .. } => Tag::Image { dest_url: dest_url.to_string(), title: title.to_string() },
        md::Tag::FootnoteDefinition(l) => Tag::FootnoteDefinition(l.to_string()),
        _ => Tag::Other,
    }
}

fn tag_end(t: md::TagEnd) -> TagEnd {
    match t {
        md::TagEnd::Heading(l) => TagEnd::Heading(level(l)),
        md::TagEnd::Paragraph => TagEnd::Paragraph,
        md::TagEnd::BlockQuote(_) => TagEnd::BlockQuote,
        md::TagEnd::CodeBlock => TagEnd::CodeBlock,
        md::TagEnd::List(o) => TagEnd::List(o),
        md::TagEnd::Item => TagEnd::Item,
        md::TagEnd::Table => TagEnd::Table,
        md::TagEnd::TableHead => TagEnd::TableHead,
        md::TagEnd::TableRow => TagEnd::TableRow,
        md::TagEnd::TableCell => TagEnd::TableCell,
        md::TagEnd::Emphasis => TagEnd::Emphasis,
        md::TagEnd::Strong => TagEnd::Strong,
        md::TagEnd::Strikethrough => TagEnd::Strikethrough,
        md::TagEnd::Link => TagEnd::Link,
        md::TagEnd::Image => TagEnd::Image,
        md::TagEnd::FootnoteDefinition => TagEnd::FootnoteDefinition,
        _ => TagEnd::Other,
    }
}

fn parse(markdown: &str) -> Vec<Event> {
    let options = md::Options::ENABLE_MATH
        | md::Options::ENABLE_TABLES
        | md::Options::ENABLE_STRIKETHROUGH
        | md::Options::ENABLE_TASKLISTS
        | md::Options::ENABLE_HEADING_ATTRIBUTES
        | md::Options::ENABLE_FOOTNOTES;
    events_of(md::Parser::new_ext(markdown, options))
}

fn events_of<'a>(parser: md::Parser<'a>) -> Vec<Event> {
    parser
        .map(|e| match e {
            md::Event::Start(t) => Event::Start(tag(t)),
            md::Event::End(t) => Event::End(tag_end(t)),
            md::Event::Text(t) => Event::Text(t.to_string()),
            md::Event::Code(t) => Event::Code(t.to_string()),
            md::Event::InlineMath(t) => Event::InlineMath(t.to_string()),
            md::Event::DisplayMath(t) => Event::DisplayMath(t.to_string()),
            md::Event::FootnoteReference(t) => Event::FootnoteReference(t.to_string()),
            md::Event::SoftBreak => Event::SoftBreak,
            md::Event::HardBreak => Event::HardBreak,
            md::Event::Rule => Event::Rule,
            md::Event::Html(t) => Event::Html(t.to_string()),
            md::Event::InlineHtml(t) => Event::InlineHtml(t.to_string()),
            _ => Event::Other,
        })
        .collect()
}

#[test]
fn test_front_matter_present() {
    let md = "# Hello\nBody text.";
    let events = parse(md);
    let marp = convert(events, &Config::default()).unwrap();
    assert!(marp.starts_with("---\n"), "front matter missing");
    assert!(marp.contains("marp: true"), "marp directive missing");
    assert!(marp.contains("paginate: true"), "paginate directive missing");
}

#[test]
fn test_h1_slide_separator() {
    let md = "# First\nBody.\n\n# Second\nBody two.";
    let events = parse(md);
    let marp = convert(events, &Config::default()).unwrap();
    let after_fm = marp.splitn(4, "---").collect::<Vec<_>>();
    assert!(after_fm.len() >= 4, "expected at least 4 `---` splits, got: {}", after_fm.len());
}

#[test]
fn test_rule_slide_separator() {
    let md = "Content A\n\n---\n\nContent B";
    let events = parse(md);
    let marp = convert(events, &Config::default()).unwrap();
    let body_start = marp.find("---\n\n").expect("no front matter");
    let after_fm = &marp[body_start + 5..];
    assert!(after_fm.contains("---"), "rule separator not forwarded to marp output");
}

#[test]
fn test_inline_formatting() {
    let md = "**bold** and *italic* and `code`";
    let events = parse(md);
    let marp = convert(events, &Config::default()).unwrap();
    assert!(marp.contains("**bold**"), "bold not serialized");
    assert!(marp.contains("*italic*"), "italic not serialized");
    assert!(marp.contains("`code`"), "inline code not serialized");
}

#[test]
fn test_list_serialization() {
    let md = "- alpha\n- beta\n- gamma";
    let events = parse(md);
    let marp = convert(events, &Config::default()).unwrap();
    assert!(marp.contains("- alpha"), "bullet list item missing");
    assert!(marp.contains("- beta"), "bullet list item missing");
}

#[test]
fn test_table_generation() {
    let md = "| A | B |\n|---|---|\n| 1 | 2 |";
    let events = parse(md);
    let marp = convert(events, &Config::default()).unwrap();
    assert!(marp.contains("| A |"), "table header not serialized");
    assert!(marp.contains("| 1 |"), "table row not serialized");
}

#[test]
fn marp_deck_exact_output() {
    let mut config = Config::default();
    config.title = "Say \"hi\"".to_string();
    let events = parse("# One\n\nText with [a link](http://x \"t\").\n\n## Two\n\n3. x\n4. y\n\n> quoted\n\n```rust\nlet a = 1;\n```\n");
    let marp = convert(events, &config).unwrap();
    let expected = "---\nmarp: true\nheadingDivider: 2\npaginate: true\ntheme: default\ntitle: \"Say \\\"hi\\\"\"\nmath: katex\n---\n\n\
# One\n\nText with [a link](http://x \"t\").\n\n\n---\n\n## Two\n\n3. x\n4. y\n\n> quoted\n\n\n```rust\nlet a = 1;\n```\n\n";
    assert_eq!(marp, expected);
}

fn record(pairs: &[(&str, &str)]) -> Vec<(String, String)> {
    pairs.iter().map(|(k, v)| (k.to_string(), v.to_string())).collect()
}

#[test]
fn test_ast_replacement() {
    let md = "Hello {{ First_Name }}! Your balance is {{Balance}}.";
    let rec = record(&[("First_Name", "Alice"), ("Balance", "$100")]);

    let events = events_of(md::Parser::new(md));
    let processed = process_ast(&events, &rec);

    // AST should have the same structure but replaced text
    assert_eq!(processed.len(), events.len());
    if let Event::Text(ref text) = processed[1] {
        assert_eq!(text.as_str(), "Hello Alice! Your balance is $100.");
    } else {
        panic!("Expected text node");
    }
}

#[test]
fn test_missing_field_ast() {
    let md = "Hello {{Name}}";
    let rec = record(&[]);

    let events = events_of(md::Parser::new(md));
    let processed = process_ast(&events, &rec);

    if let Event::Text(ref text) = processed[1] {
        assert_eq!(text.as_str(), "Hello ");
    } else {
        panic!("Expected text node");
    }
}

#[test]
fn process_ast_fills_link_targets_and_keeps_other_events() {
    let rec = record(&[("site", "example.org")]);
    let events = events_of(md::Parser::new("# T\n\n[go](http://{{site}}/x \"{{site}}\")"));
    let processed = process_ast(&events, &rec);
    assert_eq!(processed.len(), events.len());
    let link = processed.iter().find_map(|e| match e {
        Event::Start(Tag::Link { dest_url, title }) => Some((dest_url.clone(), title.clone())),
        _ => None,
    });
    assert_eq!(link, Some(("http://example.org/x".to_string(), "example.org".to_string())));
    assert!(matches!(processed[0], Event::Start(Tag::Heading { level: HeadingLevel::H1, .. })));
}

#[test]
fn intercept_no_attribute_blocks_passes_through_as_standard() {
    let events: Vec<Event> = vec![
        Event::Start(Tag::Paragraph),
        Event::Text("Hello".into()),
        Event::End(TagEnd::Paragraph),
    ];
    let annotated = intercept(events);
    assert_eq!(annotated.len(), 3);
    assert!(matches!(annotated[0], AnnotatedEvent::Standard(_)));
    assert!(matches!(annotated[1], AnnotatedEvent::Standard(_)));
    assert!(matches!(annotated[2], AnnotatedEvent::Standard(_)));
}

#[test]
fn intercept_detects_attribute_block_following_paragraph() {
    // The attribute block MUST be separated by a blank line so the parser
    // emits it as a standalone paragraph rather than inline text.
    let md = "Normal paragraph.\n\nWarning content.\n\n{.WarningBox}\n\nContinued.";
    let events = parse(md);
    let annotated = intercept(events);

    let attributed = annotated.iter().find(|e| matches!(e, AnnotatedEvent::Attributed { .. }));
    assert!(attributed.is_some(), "expected at least one Attributed event");
    let classes = attributed.unwrap().classes();
    assert!(classes.contains(&"WarningBox".to_string()), "class WarningBox must be present");
}

/// Diagnostic: prints the event stream for attribute block markdown.
#[test]
fn dump_attr_block_events_for_diagnosis() {
    let md = "Content.\n\n{.WarningBox}\n\nMore.";
    let events = parse(md);
    for (i, e) in events.iter().enumerate() {
        println!("[{}] {:?}", i, e);
    }
}

#[test]
fn intercept_identity_no_attribute_markers() {
    let md = "# Hello\n\nJust a paragraph.\n\n- Item one\n- Item two";
    let events = parse(md);
    let n = events.len();
    let annotated = intercept(events);
    // No attribute blocks → all events remain Standard
    assert_eq!(annotated.len(), n);
    assert!(annotated.iter().all(|e| matches!(e, AnnotatedEvent::Standard(_))));
}

#[test]
fn annotated_event_accessors_work_on_standard() {
    let e = AnnotatedEvent::Standard(Event::Text("x".into()));
    assert!(e.classes().is_empty());
    assert!(e.id().is_none());
    assert!(e.primary_class().is_none());
}

#[test]
fn annotated_event_accessors_work_on_attributed() {
    let e = AnnotatedEvent::Attributed {
        inner: Event::End(TagEnd::Paragraph),
        classes: vec!["Box".to_string(), "Red".to_string()],
        id: Some("s1".to_string()),
    };
    assert_eq!(e.classes(), &["Box".to_string(), "Red".to_string()]);
    assert_eq!(e.primary_class(), Some("Box"));
    assert_eq!(e.id(), Some("s1"));
    assert!(matches!(e.event(), Event::End(TagEnd::Paragraph)));
}

#[test]
fn attribute_paragraph_is_consumed_and_attached() {
    let events = parse("Warning.\n\n{.Box #w1}\n\nNext.");
    let n = events.len();
    let annotated = intercept(events);
    assert_eq!(annotated.len(), n - 3);
    assert_eq!(annotated[2].classes(), &["Box".to_string()]);
    assert_eq!(annotated[2].id(), Some("w1"));
    assert!(matches!(annotated[2].event(), Event::End(TagEnd::Paragraph)));
}

#[test]
fn single_pass_reader_drops_what_it_reads_past() {
    // After the first paragraph's end, the reader looks at the heading start,
    // which is no attribute paragraph, and does not keep it.
    let events = vec![
        Event::Start(Tag::Paragraph),
        Event::Text("a".into()),
        Event::End(TagEnd::Paragraph),
        Event::Start(Tag::Heading { level: HeadingLevel::H1, id: None }),
        Event::Text("h".into()),
        Event::End(TagEnd::Heading(HeadingLevel::H1)),
    ];
    let once = intercept_attributes(events.clone());
    assert_eq!(once.len(), 5);
    assert!(matches!(once[3].event(), Event::Text(t) if t == "h"));
    assert_eq!(intercept(events).len(), 6);
}

#[test]
fn test_ast_concatenator() {
    let md1 = "# Chapter 1 {#ch1}\n[Go to figure](#fig1)\n<div id=\"fig1\">Figure</div>";
    let md2 = "# Chapter 2 {#ch2}\n[Go to figure](#fig1)\n<div id=\"fig1\">Figure 2</div>";

    let mut options = md::Options::empty();
    options.insert(md::Options::ENABLE_HEADING_ATTRIBUTES);
    options.insert(md::Options::ENABLE_FOOTNOTES);
    options.insert(md::Options::ENABLE_SUPERSCRIPT);
    options.insert(md::Options::ENABLE_SUBSCRIPT);
    let p1 = events_of(md::Parser::new_ext(md1, options));
    let p2 = events_of(md::Parser::new_ext(md2, options));

    let mut concat = AstConcatenator::new();
    concat.add_document("doc1", p1);
    concat.add_document("doc2", p2);

    let combined = concat.build();

    // Assert page break
    assert!(combined.iter().any(|e| matches!(e, Event::Html(h) if h.contains("page-break"))));

    // Assert namespaced headers
    assert!(combined.iter().any(|e| matches!(e, Event::Start(Tag::Heading { id: Some(i), .. }) if i == "doc1-ch1")));
    assert!(combined.iter().any(|e| matches!(e, Event::Start(Tag::Heading { id: Some(i), .. }) if i == "doc2-ch2")));

    // Assert namespaced links
    assert!(combined.iter().any(|e| matches!(e, Event::Start(Tag::Link { dest_url, .. }) if dest_url == "#doc1-fig1")));
    assert!(combined.iter().any(|e| matches!(e, Event::Start(Tag::Link { dest_url, .. }) if dest_url == "#doc2-fig1")));

    // Assert namespaced HTML ids
    assert!(combined.iter().any(|e| matches!(e, Event::Html(h) if h.contains("id=\"doc1-fig1\""))));
    assert!(combined.iter().any(|e| matches!(e, Event::Html(h) if h.contains("id=\"doc2-fig1\""))));
}

#[test]
fn concatenator_chains_and_separates_documents() {
    let mut concat = AstConcatenator::default();
    concat
        .add_document("a", vec![Event::Text("one".into())])
        .add_document("b", vec![Event::Html("<a href=\"#x\">".into()), Event::Start(Tag::Link { dest_url: "http://y".into(), title: String::new() })]);
    let combined = concat.build();
    assert_eq!(combined.len(), 4);
    assert!(matches!(&combined[1], Event::Html(h) if h == "<div style=\"page-break-after: always;\"></div>\n"));
    assert!(matches!(&combined[2], Event::Html(h) if h == "<a href=\"#b-x\">"));
    assert!(matches!(&combined[3], Event::Start(Tag::Link { dest_url, .. }) if dest_url == "http://y"));
}

#[test]
fn test_conversion_runtime() {
    let md = "# Hello\nTest paragraph with *italic* and **bold**.\n\n- item 1\n- item 2\n\n```python\nprint(1)\n```";
    let events = parse(md);
    let latex = marksmen::latex_writer::convert(&events, &Config::default()).unwrap();
    assert!(latex.contains("Hello"));
}

#[test]
fn latex_article_exact_body() {
    let mut config = Config::default();
    config.title = "A & B".to_string();
    let events = parse("## Sub\n\n| x | y |\n|:-:|--:|\n| 1 | 2 |\n\n1. a_b\n");
    let latex = marksmen::latex_writer::convert(&events, &config).unwrap();
    assert!(latex.contains("\\title{A \\& B}\n\\begin{document}\n\n\\maketitle\n\n"));
    assert!(latex.contains("\\subsection{Sub}\n\n"));
    assert!(latex.contains("\\begin{longtable}{cr}\n\\toprule\nx & y\\midrule\n1 & 2 \\\\\n\\bottomrule\n\\end{longtable}\n\n"));
    assert!(latex.contains("\\begin{enumerate}\n\\item a\\_b\n\\end{enumerate}\n\n"));
    assert!(latex.ends_with("\\end{document}\n"));
}

fn escape_text(s: &str) -> String {
    s.replace('&', "&amp;").replace('<', "&lt;").replace('>', "&gt;").replace('"', "&quot;")
}

fn render(pieces: &[HtmlPiece]) -> String {
    let mut out = String::new();
    for p in pieces {
        match p {
            HtmlPiece::Markup(m) => out.push_str(m),
            HtmlPiece::Escaped(t) => out.push_str(&escape_text(t)),
            HtmlPiece::Diagram(_) => out.push_str("<svg/>"),
        }
    }
    out
}

#[test]
fn html_page_wraps_the_document() {
    let mut config = Config::default();
    config.title = "T&C".to_string();
    config.author = "Ann".to_string();
    let page = render(&html_pieces(&parse("# Hello\n\nA & *B*\n\n---\n\n1. one\n"), &config));
    assert!(page.starts_with("<!DOCTYPE html>\n<html lang=\"en\">\n<head>\n"));
    assert!(page.contains("  <title>T&amp;C</title>\n"));
    assert!(page.contains("  <h1>T&amp;C</h1>\n  <p><strong>Ann</strong></p>\n"));
    assert!(page.contains("<h1>Hello</h1>\n<p>A &amp; <em>B</em></p>\n"));
    assert!(page.contains("<div style=\"page-break-after: always;\"></div>\n<ol>\n<li>one</li>\n</ol>\n"));
    assert!(page.ends_with("</body>\n</html>"));
}

#[test]
fn html_page_without_title_has_no_heading_line() {
    let page = render(&html_pieces(&[], &Config::default()));
    assert!(page.contains("<title></title>"));
    assert!(!page.contains("<h1>"));
    assert!(page.ends_with("</head>\n<body>\n</body>\n</html>"));
}

#[test]
fn html_math_falls_back_to_escaped_latex() {
    assert_eq!(
        math_pieces("a<b", false, None),
        vec![
            HtmlPiece::Markup("<span class=\"math-inline\">".to_string()),
            HtmlPiece::Escaped("a<b".to_string()),
            HtmlPiece::Markup("</span>".to_string()),
        ]
    );
    assert_eq!(
        math_pieces("x", true, Some("<math/>".to_string())),
        vec![HtmlPiece::Markup("<math/>".to_string())]
    );
}

#[test]
fn html_math_is_converted_to_mathml() {
    let pieces = html_pieces(&[Event::InlineMath("x^2".to_string()), Event::DisplayMath("y".to_string())], &Config::default());
    let page = render(&pieces);
    assert!(page.contains("<math xmlns=\"http://www.w3.org/1998/Math/MathML\" display=\"inline\">"));
    assert!(page.contains("<math xmlns=\"http://www.w3.org/1998/Math/MathML\" display=\"block\">"));
}

#[test]
fn html_mermaid_block_becomes_a_diagram() {
    let events = vec![
        Event::Start(Tag::FencedCode("mermaid".to_string())),
        Event::Text("graph TD\n".to_string()),
        Event::Text("A-->B\n".to_string()),
        Event::End(TagEnd::CodeBlock),
    ];
    let pieces = html_pieces(&events, &Config::default());
    assert!(pieces.contains(&HtmlPiece::Diagram("graph TD\nA-->B\n".to_string())));
    assert!(render(&pieces).contains("```mermaid\ngraph TD\nA--&gt;B\n\n```</pre>\n"));
}

#[test]
fn html_unparsable_mermaid_is_shown_as_a_fault() {
    let pieces = diagram_pieces("sequenceDiagram\n");
    assert_eq!(pieces[0], HtmlPiece::Markup("<pre style=\"color: red;\"><code>[Mermaid Parsing Fault]\n".to_string()));
    assert_eq!(pieces[1], HtmlPiece::Markup("sequenceDiagram\n".to_string()));
}

#[test]
fn html_footnotes_and_code() {
    let page = render(&html_pieces(&parse("See[^n] `a<b`.\n\n[^n]: Note.\n"), &Config::default()));
    assert!(page.contains("<sup class=\"footnote-ref\" data-label=\"n\">[n]</sup>"));
    assert!(page.contains("<code>a&lt;b</code>"));
    assert!(page.contains("<div class=\"footnote-def\" data-label=\"n\"><b>[n]</b>: <p>Note.</p>\n</div>\n"));
}

fn texts_of(events: &[Event]) -> Vec<String> {
    events
        .iter()
        .filter_map(|e| match e {
            Event::Text(t) => Some(t.clone()),
            _ => None,
        })
        .collect()
}

#[test]
fn mail_merge_fills_the_template_once_per_record() {
    let template = parse("Dear {{ name }},\n\nSee [site]({{url}}).\n");
    let merged = mail_merge(&template, "name, url\nAnn ,http://a\nBob,http://b\n").unwrap();
    let texts = texts_of(&merged).join("|");
    assert!(texts.contains("Dear Ann,"), "{}", texts);
    assert!(texts.contains("Dear Bob,"), "{}", texts);
    let breaks = merged
        .iter()
        .filter(|e| matches!(e, Event::Html(h) if h == "<div style=\"page-break-after: always;\"></div>\n"))
        .count();
    assert_eq!(breaks, 1);
    assert!(merged.iter().any(|e| matches!(e, Event::Start(Tag::Link { dest_url, .. }) if dest_url == "http://b")));
    assert_eq!(merged.len(), 2 * template.len() + 1);
}

#[test]
fn mail_merge_without_records_is_refused() {
    let template = parse("Hello {{name}}");
    assert_eq!(mail_merge(&template, "name\n").unwrap_err(), "No data records found in CSV.");
    assert_eq!(merge_records(&template, &["name".to_string()], &[]).unwrap_err(), "No data records found in CSV.");
}

#[test]
fn mail_merge_reports_a_malformed_table() {
    let template = parse("Hello {{a}}");
    assert!(mail_merge(&template, "a,b\n1,2,3\n").is_err());
}

#[test]
fn mail_merge_takes_the_last_column_of_a_repeated_header() {
    let template = vec![Event::Text("{{x}}".to_string())];
    let merged = merge_records(&template, &["x".to_string(), "x".to_string()], &[vec!["1".to_string(), "2".to_string()]]).unwrap();
    assert_eq!(texts_of(&merged), vec!["2".to_string()]);
}

#[test]
fn html_math_with_middle_is_written_as_latex() {
    let page = render(&html_pieces(&[Event::InlineMath("\\middle x".to_string())], &Config::default()));
    assert!(page.contains("<span class=\"math-inline\">\\middle x</span>"), "{}", page);
}

#[test]
fn html_math_with_middle_bar_is_converted() {
    let page = render(&html_pieces(
        &[Event::InlineMath("\\left(a \\middle| b\\right)".to_string())],
        &Config::default(),
    ));
    assert!(page.contains("<math xmlns=\"http://www.w3.org/1998/Math/MathML\" display=\"inline\">"), "{}", page);
    assert!(!page.contains("\\middle"), "{}", page);
}
