use marksmen::epub::{generate_ncx, generate_opf};

#[test]
fn opf_lists_cover_and_every_chapter() {
    let chapters = [("ch1", "ch1.xhtml", "One"), ("ch2", "ch2.xhtml", "Two")];
    let opf = generate_opf("Book &amp; Co", "Ann", &chapters, Some("images/cover.jpeg"));
    assert!(opf.contains("<dc:title>Book &amp; Co</dc:title>"));
    assert!(opf.contains("<dc:creator>Ann</dc:creator>"));
    assert!(opf.contains(
        "    <item id=\"cover-image\" href=\"images/cover.jpeg\" media-type=\"image/jpeg\" properties=\"cover-image\"/>\n"
    ));
    assert!(opf.contains("    <item id=\"ch1\" href=\"ch1.xhtml\" media-type=\"application/xhtml+xml\"/>\n"));
    assert!(opf.contains("    <item id=\"ch2\" href=\"ch2.xhtml\" media-type=\"application/xhtml+xml\"/>\n"));
    assert!(opf.contains("  <spine toc=\"ncx\">\n    <itemref idref=\"ch1\"/>\n    <itemref idref=\"ch2\"/>\n  </spine>\n</package>"));
    assert!(opf.starts_with("<?xml version=\"1.0\" encoding=\"UTF-8\"?>\n<package"));
}

#[test]
fn opf_cover_types_follow_extension() {
    let svg = generate_opf("T", "A", &[], Some("c.svg"));
    assert!(svg.contains("media-type=\"image/svg+xml\" properties=\"cover-image\""));
    let none = generate_opf("T", "A", &[], Some("cover"));
    assert!(none.contains("media-type=\"image/png\" properties=\"cover-image\""));
    let plain = generate_opf("T", "A", &[], None);
    assert!(!plain.contains("cover-image"));
}

#[test]
fn ncx_numbers_one_point_per_chapter() {
    let chapters = [("a", "a.xhtml", "Alpha"), ("b", "b.xhtml", "Beta")];
    let ncx = generate_ncx("Title", &chapters);
    assert!(ncx.contains("<docTitle><text>Title</text></docTitle>"));
    assert_eq!(ncx.matches("<navPoint ").count(), 2);
    assert!(ncx.contains(
        "    <navPoint id=\"navPoint-2\" playOrder=\"2\">\n      <navLabel><text>Beta</text></navLabel>\n      <content src=\"b.xhtml\"/>\n    </navPoint>\n"
    ));
    assert!(ncx.ends_with("  </navMap>\n</ncx>"));
}

use marksmen::md_events::{Event, HeadingLevel, Tag, TagEnd};

fn h1(text: &str) -> Vec<Event> {
    vec![
        Event::Start(Tag::Heading { level: HeadingLevel::H1, id: None }),
        Event::Text(text.to_string()),
        Event::End(TagEnd::Heading(HeadingLevel::H1)),
    ]
}

#[test]
fn chapters_split_at_level_one_headings() {
    let mut events = vec![Event::Start(Tag::Paragraph), Event::Text("intro".into()), Event::End(TagEnd::Paragraph)];
    events.extend(h1("First"));
    events.push(Event::Text("body".into()));
    events.extend(vec![
        Event::Start(Tag::Heading { level: HeadingLevel::H1, id: None }),
        Event::End(TagEnd::Heading(HeadingLevel::H1)),
    ]);
    let chapters = marksmen::epub::split_into_chapters(events);
    let titles: Vec<&str> = chapters.iter().map(|c| c.0.as_str()).collect();
    assert_eq!(titles, vec!["Content", "First", "Chapter 3"]);
    assert_eq!(chapters[0].1.len(), 3);
    assert_eq!(chapters[1].1.len(), 4);
    assert_eq!(chapters[2].1.len(), 2);
}

#[test]
fn empty_document_is_one_empty_chapter() {
    let chapters = marksmen::epub::split_into_chapters(Vec::new());
    assert_eq!(chapters.len(), 1);
    assert_eq!(chapters[0].0, "Content");
    assert!(chapters[0].1.is_empty());
}

#[test]
fn cover_media_type_follows_the_file_extension() {
    let opf = generate_opf("T", "A", &[], Some("./images/cover.svg"));
    assert!(opf.contains("image/svg+xml"), "{}", opf);
    let opf = generate_opf("T", "A", &[], Some("dir/.jpg"));
    assert!(opf.contains("image/png"), "{}", opf);
    let opf = generate_opf("T", "A", &[], Some("photo.tar.gif"));
    assert!(opf.contains("image/gif"), "{}", opf);
}
