use marksmen::frontmatter::{split_frontmatter, FrontMatter};

fn yaml_str(yaml: &str, key: &str) -> Option<String> {
    let v: serde_yaml::Value = serde_yaml::from_str(yaml).unwrap();
    v.get(key).and_then(|x| x.as_str()).map(|s| s.to_string())
}

#[test]
fn no_frontmatter() {
    let r = split_frontmatter("# Hello\n\nWorld");
    assert!(matches!(r, FrontMatter::Absent));
}

#[test]
fn basic_frontmatter() {
    let md = "---\ntitle: Test Doc\n---\n# Hello";
    match split_frontmatter(md) {
        FrontMatter::Block { yaml, body } => {
            assert_eq!(yaml_str(&yaml, "title").as_deref(), Some("Test Doc"));
            assert!(body.contains("# Hello"));
            assert_eq!(body, "# Hello");
        }
        FrontMatter::Absent => panic!("front matter not found"),
    }
}

#[test]
fn frontmatter_with_math_disabled() {
    let md = "---\nmath:\n  enabled: false\n---\n# No Math";
    match split_frontmatter(md) {
        FrontMatter::Block { yaml, body } => {
            let v: serde_yaml::Value = serde_yaml::from_str(&yaml).unwrap();
            let enabled = v.get("math").and_then(|m| m.get("enabled")).and_then(|e| e.as_bool());
            assert_eq!(enabled, Some(false));
            assert!(body.contains("# No Math"));
        }
        FrontMatter::Absent => panic!("front matter not found"),
    }
}

#[test]
fn unclosed_frontmatter_returns_full_body() {
    let md = "---\ntitle: Broken\n# Heading";
    assert!(matches!(split_frontmatter(md), FrontMatter::Absent));
}

#[test]
fn frontmatter_yaml_is_trimmed_and_crlf_closing_is_skipped() {
    let md = "  \n---\r\n  a: 1  \r\n---\r\nbody\r\n";
    match split_frontmatter(md) {
        FrontMatter::Block { yaml, body } => {
            assert_eq!(yaml, "a: 1");
            assert_eq!(body, "body\r\n");
        }
        FrontMatter::Absent => panic!("front matter not found"),
    }
}

#[test]
fn frontmatter_closing_line_at_end_gives_empty_body() {
    match split_frontmatter("---\nx: 2\n---") {
        FrontMatter::Block { yaml, body } => {
            assert_eq!(yaml, "x: 2");
            assert_eq!(body, "");
        }
        FrontMatter::Absent => panic!("front matter not found"),
    }
}
