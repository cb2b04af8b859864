use marksmen::docx_support::{assemble_docx_markdown, footnote_blocks_of};

#[test]
fn docx_parts_are_put_in_document_order() {
    let notes = vec![
        ("10".to_string(), "ten".to_string()),
        ("2".to_string(), " two ".to_string()),
        ("x".to_string(), "ex".to_string()),
        ("2".to_string(), "deux".to_string()),
        ("3".to_string(), "  ".to_string()),
    ];
    let md = assemble_docx_markdown("<!-- page: a4 -->\n\nBody text", "Head ", "Foot", &notes);
    assert_eq!(
        md,
        "<!-- page: a4 -->\n\n<header>\n\nHead\n\n</header>\n\nBody text\n\n<footer>\n\nFoot\n\n</footer>\n\n[^x]: ex\n\n[^2]: deux\n\n[^10]: ten"
    );
}

#[test]
fn docx_body_alone_is_trimmed() {
    let md = assemble_docx_markdown("\n  Just a body \n", "", "", &[]);
    assert_eq!(md, "Just a body");
}

#[test]
fn docx_unclosed_page_comment_stays_in_the_body() {
    let md = assemble_docx_markdown("<!-- page: a4\nText", "", "Foot", &[]);
    assert_eq!(md, "<!-- page: a4\nText\n\n<footer>\n\nFoot\n\n</footer>");
}

#[test]
fn footnote_blocks_skip_separator_notes() {
    let xml = "<w:footnotes><w:footnote w:type=\"separator\" w:id=\"-1\"><w:p/></w:footnote><w:footnote w:id=\"0\"><w:p/></w:footnote><w:footnote w:id=\"1\"><w:p><w:r><w:t>Note</w:t></w:r></w:p></w:footnote><w:footnote w:id=\"2\"><w:p/></w:footnotes>";
    let blocks = footnote_blocks_of(xml);
    assert_eq!(
        blocks,
        vec![(
            "1".to_string(),
            "<w:footnote>w:id=\"1\"><w:p><w:r><w:t>Note</w:t></w:r></w:p></w:footnote>".to_string()
        )]
    );
}
