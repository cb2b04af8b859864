use marksmen::attributes::parse_attr_block;

#[test]
fn parse_attr_block_single_class() {
    let (classes, id) = parse_attr_block("{.WarningBox}").unwrap();
    assert_eq!(classes, ["WarningBox"]);
    assert!(id.is_none());
}

#[test]
fn parse_attr_block_multi_class_and_id() {
    let (classes, id) = parse_attr_block("{.A .B #myid}").unwrap();
    assert_eq!(classes, ["A", "B"]);
    assert_eq!(id.as_deref(), Some("myid"));
}

#[test]
fn parse_attr_block_id_only() {
    let (classes, id) = parse_attr_block("{#section-1}").unwrap();
    assert!(classes.is_empty());
    assert_eq!(id.as_deref(), Some("section-1"));
}

#[test]
fn parse_attr_block_rejects_plain_text() {
    assert!(parse_attr_block("Hello world").is_none());
}

#[test]
fn parse_attr_block_rejects_empty_braces() {
    assert!(parse_attr_block("{}").is_none());
}

#[test]
fn parse_attr_block_rejects_invalid_token() {
    assert!(parse_attr_block("{unknown}").is_none());
}

#[test]
fn parse_attr_block_later_id_wins_and_bad_ident_rejected() {
    let (classes, id) = parse_attr_block("  {#a .x #b}  ").unwrap();
    assert_eq!(classes, ["x"]);
    assert_eq!(id.as_deref(), Some("b"));
    assert!(parse_attr_block("{.bad!name}").is_none());
    assert!(parse_attr_block("{.}").is_none());
}
