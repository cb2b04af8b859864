use marksmen::config::{Config, FrontMatterConfig, StyleMap};

#[test]
fn default_heading_style_falls_back_to_conventional_name() {
    let sm = StyleMap::default();
    assert_eq!(sm.heading_style(1), "Heading1");
    assert_eq!(sm.heading_style(6), "Heading6");
}

#[test]
fn heading_style_override_is_returned() {
    let mut sm = StyleMap::default();
    sm.heading[0] = Some("Heading 1".to_string());
    assert_eq!(sm.heading_style(1), "Heading 1");
    assert_eq!(sm.heading_style(2), "Heading2");
}

#[test]
fn blockquote_falls_back_to_quote() {
    let sm = StyleMap::default();
    assert_eq!(sm.blockquote_style(), "Quote");
}

#[test]
fn blockquote_override_is_returned() {
    let sm = StyleMap { blockquote: Some("QuoteBox".to_string()), ..Default::default() };
    assert_eq!(sm.blockquote_style(), "QuoteBox");
}

#[test]
fn config_merge_frontmatter_propagates_style_map() {
    let mut fm = FrontMatterConfig::default();
    let mut sm = StyleMap::default();
    sm.heading[0] = Some("Corporate H1".to_string());
    fm.style_map = Some(sm);

    let base = Config::default();
    let merged = base.merge_frontmatter(&fm);
    assert_eq!(merged.style_map.heading_style(1), "Corporate H1");
    assert_eq!(merged.style_map.heading_style(2), "Heading2");
}

#[test]
fn heading_style_clamps_out_of_range_levels() {
    let mut sm = StyleMap::default();
    sm.heading[5] = Some("Deep".to_string());
    assert_eq!(sm.heading_style(0), "Heading1");
    assert_eq!(sm.heading_style(9), "Deep");
    assert_eq!(sm.code_block_style(), "CodeBlock");
}

#[test]
fn merge_keeps_unset_fields_and_signing_paths() {
    let mut base = Config::default();
    base.title = "Base".to_string();
    base.certificate_path = Some("cert.pem".to_string());
    let mut fm = FrontMatterConfig::default();
    fm.author = Some("Ada".to_string());
    fm.dest = Some("out.pdf".to_string());
    let merged = base.merge_frontmatter(&fm);
    assert_eq!(merged.title, "Base");
    assert_eq!(merged.author, "Ada");
    assert_eq!(merged.dest.as_deref(), Some("out.pdf"));
    assert_eq!(merged.certificate_path.as_deref(), Some("cert.pem"));
    assert_eq!(merged.highlight_theme, "github");
    assert_eq!(merged.page.width, "210mm");
    // merging nothing changes nothing
    let again = merged.merge_frontmatter(&FrontMatterConfig::default());
    assert_eq!(again.author, "Ada");
    assert_eq!(again.title, "Base");
}
