use marksmen::marp::parse_marp;

const FULL_DOC: &str = "\
---
marp: true
headingDivider: 1
paginate: true
theme: default
---

# Slide One

Body paragraph.

---

# Slide Two

More content.
";

#[test]
fn test_strips_front_matter() {
    let md = parse_marp(FULL_DOC).unwrap();
    assert!(!md.contains("marp: true"), "front matter not stripped: {md}");
    assert!(!md.contains("headingDivider"), "front matter not stripped");
    assert!(md.contains("# Slide One"), "heading missing after strip: {md}");
}

#[test]
fn test_preserves_slide_content() {
    let md = parse_marp(FULL_DOC).unwrap();
    assert!(md.contains("Body paragraph."), "body text missing: {md}");
    assert!(md.contains("# Slide Two"), "second slide heading missing: {md}");
    assert!(md.contains("More content."), "second slide body missing: {md}");
}

#[test]
fn test_marp_directives_stripped() {
    let doc = "---\nmarp: true\n---\n\n<!-- _class: lead -->\n# Hello\n";
    let md = parse_marp(doc).unwrap();
    assert!(!md.contains("_class"), "marp directive not stripped: {md}");
    assert!(md.contains("# Hello"), "heading removed: {md}");
}

#[test]
fn test_non_directive_comment_preserved() {
    let doc = "---\nmarp: true\n---\n\n<!-- This is a regular comment -->\n# Hello\n";
    let md = parse_marp(doc).unwrap();
    assert!(md.contains("This is a regular comment"), "non-directive comment was stripped: {md}");
}

#[test]
fn test_no_front_matter_passthrough() {
    let doc = "# Just a heading\nNo front matter here.";
    let md = parse_marp(doc).unwrap();
    assert!(md.contains("# Just a heading"));
    assert!(md.contains("No front matter here."));
}

#[test]
fn marp_exact_output_and_unclosed_comment() {
    let doc = "---\nmarp: true\n---\n<!-- paginate: false -->\nText <!-- note\n";
    assert_eq!(parse_marp(doc).unwrap(), "Text <!-- note");
    let open_only = "---\ntitle\n# body";
    assert_eq!(parse_marp(open_only).unwrap(), "---\ntitle\n# body");
}

#[test]
fn comment_without_key_value_is_kept() {
    let md = parse_marp("<!-- TODO -->\n# Hi").unwrap();
    assert_eq!(md, "<!-- TODO -->\n# Hi");
}

#[test]
fn slide_separators_follow_a_blank_line() {
    let md = parse_marp("---\nmarp: true\n---\nSlide A\n---\nSlide B").unwrap();
    assert_eq!(md, "Slide A\n\n---\nSlide B");
}

#[test]
fn front_matter_closing_on_the_last_line_leaves_nothing() {
    assert_eq!(parse_marp("---\nmarp: true\n---").unwrap(), "");
}
