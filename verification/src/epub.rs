//! The package (OPF) and navigation (NCX) documents of an EPUB book. The
//! texts they receive are already escaped for XML.

use vstd::prelude::*;
use crate::attributes::opt_view;
use crate::md_events::{copy_event, event_views, Event, EventView, HeadingLevel, Tag, TagEnd, TagView};
use crate::text::{
    append, append_str, chars_of, contains_text, decimal_of_u64, lemma_contains_left, lemma_contains_middle,
    lemma_contains_right, lemma_contains_trans, nat_decimal, string_of,
};

verus! {

/// The components of a path that name something: the parts between `/`
/// separators, empty parts and `.` dropped.
pub open spec fn named_parts(path: Seq<char>) -> Seq<Seq<char>> {
    crate::text::split_char(path, '/').filter(|p: Seq<char>| p.len() > 0 && p != seq!['.'])
}

/// The file name of a path, as `Path::file_name` gives it: its last
/// component, and nothing when there is none or it is `..`.
pub open spec fn path_file_name(path: Seq<char>) -> Option<Seq<char>> {
    let parts = named_parts(path);
    if parts.len() == 0 || parts.last() == seq!['.', '.'] {
        None
    } else {
        Some(parts.last())
    }
}

/// The position of the last `.` in `s`.
pub open spec fn last_dot(s: Seq<char>) -> Option<int>
    decreases s.len(),
{
    if s.len() == 0 {
        None
    } else if s.last() == '.' {
        Some(s.len() - 1)
    } else {
        last_dot(s.drop_last())
    }
}

/// The extension of a path, as `Path::extension` documents it: what
/// follows the last `.` of the file name; nothing without a file name,
/// without a `.`, or when the only `.` starts the name.
pub open spec fn path_extension(path: Seq<char>) -> Option<Seq<char>> {
    match path_file_name(path) {
        None => None,
        Some(name) => match last_dot(name) {
            Some(k) => if k == 0 {
                None
            } else {
                Some(name.skip(k + 1))
            },
            None => None,
        },
    }
}

/// Whether a path reads the same on every platform: it holds no `\\`,
/// which Windows takes as a separator, and no `:`, which can start a
/// Windows drive prefix; `/` is then the only separator everywhere.
pub open spec fn portable_path(path: Seq<char>) -> bool {
    forall|i: int| 0 <= i < path.len() ==> path[i] != '\\' && path[i] != ':'
}

/// The extension of `path`, from `std::path::Path::extension` (the text
/// of a `&str` path is always valid). Claims what the documentation of
/// `Path::extension` and `Path::file_name` states for a path without
/// platform syntax, with `.` components dropped as `Path::components`
/// does. Of other paths nothing is claimed: their components depend on
/// the platform the library is built for.
#[verifier::external_body]
fn extension_of(path: &str) -> (r: Option<String>)
    ensures
        portable_path(path@) ==> opt_view(r) == path_extension(path@),
{
    std::path::Path::new(path).extension().and_then(|e| e.to_str()).map(|e| e.to_string())
}

pub open spec fn str_opt(o: Option<&str>) -> Option<Seq<char>> {
    match o {
        Some(s) => Some(s@),
        None => None,
    }
}

/// The media type of a cover image by its extension.
pub open spec fn cover_media_type(ext: Seq<char>) -> Seq<char> {
    if ext == "jpg"@ || ext == "jpeg"@ {
        "image/jpeg"@
    } else if ext == "gif"@ {
        "image/gif"@
    } else if ext == "svg"@ {
        "image/svg+xml"@
    } else {
        "image/png"@
    }
}

/// The manifest entry of the cover image whose file extension is `ext`.
pub open spec fn cover_item(cover: Seq<char>, ext: Option<Seq<char>>) -> Seq<char> {
    let ext = match ext {
        Some(e) => e,
        None => "png"@,
    };
    "    <item id=\"cover-image\" href=\""@ + cover + "\" media-type=\""@ + cover_media_type(ext)
        + "\" properties=\"cover-image\"/>\n"@
}

/// The manifest entries of the chapters, in order.
pub open spec fn chapter_items(chapters: Seq<(&str, &str, &str)>) -> Seq<char>
    decreases chapters.len(),
{
    if chapters.len() == 0 {
        seq![]
    } else {
        let c = chapters.last();
        chapter_items(chapters.drop_last()) + "    <item id=\""@ + c.0@ + "\" href=\""@ + c.1@
            + "\" media-type=\"application/xhtml+xml\"/>\n"@
    }
}

/// The spine references of the chapters, in order.
pub open spec fn spine_items(chapters: Seq<(&str, &str, &str)>) -> Seq<char>
    decreases chapters.len(),
{
    if chapters.len() == 0 {
        seq![]
    } else {
        spine_items(chapters.drop_last()) + "    <itemref idref=\""@ + chapters.last().0@ + "\"/>\n"@
    }
}

pub open spec fn opf_head() -> Seq<char> {
    "<?xml version=\"1.0\" encoding=\"UTF-8\"?>\n<package xmlns=\"http://www.idpf.org/2007/opf\" unique-identifier=\"BookId\" version=\"3.0\">\n  <metadata xmlns:dc=\"http://purl.org/dc/elements/1.1/\">\n    <dc:title>"@
}

/// The OPF 3.0 package document: metadata, a manifest with the NCX, the
/// cover image if any (its path and file extension) and every chapter, and
/// a spine with every chapter.
pub open spec fn opf_document(
    title: Seq<char>,
    author: Seq<char>,
    chapters: Seq<(&str, &str, &str)>,
    cover: Option<(Seq<char>, Option<Seq<char>>)>,
) -> Seq<char> {
    let manifest = "    <item id=\"ncx\" href=\"toc.ncx\" media-type=\"application/x-dtbncx+xml\"/>\n"@ + match cover {
        Some(c) => cover_item(c.0, c.1),
        None => seq![],
    } + chapter_items(chapters);
    opf_head() + title + "</dc:title>\n    <dc:creator>"@ + author
        + "</dc:creator>\n    <dc:language>en</dc:language>\n    <dc:identifier id=\"BookId\">urn:uuid:marksmen-epub</dc:identifier>\n  </metadata>\n  <manifest>\n"@
        + manifest + "  </manifest>\n  <spine toc=\"ncx\">\n"@ + spine_items(chapters)
        + "  </spine>\n</package>"@
}

/// Generates the OPF package document of a book whose title and author are
/// given escaped; each chapter is `(id, file name, title)`. The cover's
/// media type follows the extension of its path; for a path with platform
/// syntax (`\\` or `:`) the extension is the one the platform gives.
#[verifier::rlimit(40)]
#[verifier::spinoff_prover]
pub fn generate_opf(
    title: &str,
    author: &str,
    chapters: &[(&str, &str, &str)],
    cover_image_filename: Option<&str>,
) -> (r: String)
    ensures
        cover_image_filename is None ==> r@ == opf_document(title@, author@, chapters@, None),
        cover_image_filename matches Some(c) ==> (portable_path(c@) ==> r@ == opf_document(
            title@,
            author@,
            chapters@,
            Some((c@, path_extension(c@))),
        )),
        cover_image_filename matches Some(c) ==> exists|e: Option<Seq<char>>|
            r@ == opf_document(title@, author@, chapters@, Some((c@, e))),
{
    let ghost cover_ext: Option<Seq<char>> = None;
    let mut manifest: Vec<char> = Vec::new();
    append_str(&mut manifest, "    <item id=\"ncx\" href=\"toc.ncx\" media-type=\"application/x-dtbncx+xml\"/>\n");
    match cover_image_filename {
        Some(cover) => {
            let found = extension_of(cover);
            proof {
                cover_ext = opt_view(found);
            }
            let ext = match found {
                Some(e) => chars_of(e.as_str()),
                None => chars_of("png"),
            };
            proof {
                reveal_strlit("jpg");
                reveal_strlit("jpeg");
                reveal_strlit("gif");
                reveal_strlit("svg");
            }
            let media: &str = if crate::text::eq_str(ext.as_slice(), "jpg") || crate::text::eq_str(
                ext.as_slice(),
                "jpeg",
            ) {
                "image/jpeg"
            } else if crate::text::eq_str(ext.as_slice(), "gif") {
                "image/gif"
            } else if crate::text::eq_str(ext.as_slice(), "svg") {
                "image/svg+xml"
            } else {
                "image/png"
            };
            append_str(&mut manifest, "    <item id=\"cover-image\" href=\"");
            append_str(&mut manifest, cover);
            append_str(&mut manifest, "\" media-type=\"");
            append_str(&mut manifest, media);
            append_str(&mut manifest, "\" properties=\"cover-image\"/>\n");
        },
        None => {},
    }
    let ghost head_len = manifest@;
    let n = chapters.len();
    for i in 0..n
        invariant
            n == chapters@.len(),
            manifest@ == head_len + chapter_items(chapters@.take(i as int)),
    {
        let (id, filename, _t) = chapters[i];
        append_str(&mut manifest, "    <item id=\"");
        append_str(&mut manifest, id);
        append_str(&mut manifest, "\" href=\"");
        append_str(&mut manifest, filename);
        append_str(&mut manifest, "\" media-type=\"application/xhtml+xml\"/>\n");
        proof {
            assert(chapters@.take(i + 1).drop_last() =~= chapters@.take(i as int));
        }
    }
    let mut spine: Vec<char> = Vec::new();
    for i in 0..n
        invariant
            n == chapters@.len(),
            spine@ == spine_items(chapters@.take(i as int)),
    {
        let (id, _f, _t) = chapters[i];
        append_str(&mut spine, "    <itemref idref=\"");
        append_str(&mut spine, id);
        append_str(&mut spine, "\"/>\n");
        proof {
            assert(chapters@.take(i + 1).drop_last() =~= chapters@.take(i as int));
        }
    }
    proof {
        assert(chapters@.take(n as int) =~= chapters@);
    }
    let mut out: Vec<char> = Vec::new();
    append_str(
        &mut out,
        "<?xml version=\"1.0\" encoding=\"UTF-8\"?>\n<package xmlns=\"http://www.idpf.org/2007/opf\" unique-identifier=\"BookId\" version=\"3.0\">\n  <metadata xmlns:dc=\"http://purl.org/dc/elements/1.1/\">\n    <dc:title>",
    );
    append_str(&mut out, title);
    append_str(&mut out, "</dc:title>\n    <dc:creator>");
    append_str(&mut out, author);
    append_str(
        &mut out,
        "</dc:creator>\n    <dc:language>en</dc:language>\n    <dc:identifier id=\"BookId\">urn:uuid:marksmen-epub</dc:identifier>\n  </metadata>\n  <manifest>\n",
    );
    append(&mut out, manifest.as_slice());
    append_str(&mut out, "  </manifest>\n  <spine toc=\"ncx\">\n");
    append(&mut out, spine.as_slice());
    append_str(&mut out, "  </spine>\n</package>");
    proof {
        match cover_image_filename {
            Some(c) => {
                assert(out@ =~= opf_document(title@, author@, chapters@, Some((c@, cover_ext))));
            },
            None => {
                assert(out@ =~= opf_document(title@, author@, chapters@, None));
            },
        }
    }
    string_of(out.as_slice())
}

/// The navigation points of the chapters, numbered from `start + 1`.
pub open spec fn nav_points(chapters: Seq<(&str, &str, &str)>) -> Seq<char>
    decreases chapters.len(),
{
    if chapters.len() == 0 {
        seq![]
    } else {
        let c = chapters.last();
        let k = nat_decimal(chapters.len());
        nav_points(chapters.drop_last()) + "    <navPoint id=\"navPoint-"@ + k + "\" playOrder=\""@ + k
            + "\">\n      <navLabel><text>"@ + c.2@ + "</text></navLabel>\n      <content src=\""@ + c.1@
            + "\"/>\n    </navPoint>\n"@
    }
}

/// The NCX 2005-1 navigation document: one navigation point per chapter,
/// numbered from 1 in order.
pub open spec fn ncx_document(title: Seq<char>, chapters: Seq<(&str, &str, &str)>) -> Seq<char> {
    "<?xml version=\"1.0\" encoding=\"UTF-8\"?>\n<ncx xmlns=\"http://www.daisy.org/z3986/2005/ncx/\" version=\"2005-1\">\n  <head>\n    <meta name=\"dtb:uid\" content=\"urn:uuid:marksmen-epub\"/>\n    <meta name=\"dtb:depth\" content=\"1\"/>\n    <meta name=\"dtb:totalPageCount\" content=\"0\"/>\n    <meta name=\"dtb:maxPageNumber\" content=\"0\"/>\n  </head>\n  <docTitle><text>"@
        + title + "</text></docTitle>\n  <navMap>\n"@ + nav_points(chapters) + "  </navMap>\n</ncx>"@
}

/// Generates the NCX navigation document of a book whose title and chapter
/// titles are given escaped.
pub fn generate_ncx(title: &str, chapters: &[(&str, &str, &str)]) -> (r: String)
    ensures
        r@ == ncx_document(title@, chapters@),
{
    let mut points: Vec<char> = Vec::new();
    let n = chapters.len();
    for i in 0..n
        invariant
            n == chapters@.len(),
            points@ == nav_points(chapters@.take(i as int)),
    {
        let (_id, filename, ch_title) = chapters[i];
        let k = decimal_of_u64((i as u64) + 1);
        append_str(&mut points, "    <navPoint id=\"navPoint-");
        append(&mut points, k.as_slice());
        append_str(&mut points, "\" playOrder=\"");
        append(&mut points, k.as_slice());
        append_str(&mut points, "\">\n      <navLabel><text>");
        append_str(&mut points, ch_title);
        append_str(&mut points, "</text></navLabel>\n      <content src=\"");
        append_str(&mut points, filename);
        append_str(&mut points, "\"/>\n    </navPoint>\n");
        proof {
            assert(chapters@.take(i + 1).drop_last() =~= chapters@.take(i as int));
            assert(chapters@.take(i + 1).len() == i + 1);
        }
    }
    proof {
        assert(chapters@.take(n as int) =~= chapters@);
    }
    let mut out: Vec<char> = Vec::new();
    append_str(
        &mut out,
        "<?xml version=\"1.0\" encoding=\"UTF-8\"?>\n<ncx xmlns=\"http://www.daisy.org/z3986/2005/ncx/\" version=\"2005-1\">\n  <head>\n    <meta name=\"dtb:uid\" content=\"urn:uuid:marksmen-epub\"/>\n    <meta name=\"dtb:depth\" content=\"1\"/>\n    <meta name=\"dtb:totalPageCount\" content=\"0\"/>\n    <meta name=\"dtb:maxPageNumber\" content=\"0\"/>\n  </head>\n  <docTitle><text>",
    );
    append_str(&mut out, title);
    append_str(&mut out, "</text></docTitle>\n  <navMap>\n");
    append(&mut out, points.as_slice());
    append_str(&mut out, "  </navMap>\n</ncx>");
    proof {
        assert(out@ =~= ncx_document(title@, chapters@));
    }
    string_of(out.as_slice())
}

// ── Chapters ─────────────────────────────────────────────────────────────────

/// The state of splitting: the chapters so far, the title and events of the
/// current one, whether a level-one heading is open, and its text so far.
pub ghost struct Split {
    pub chapters: Seq<(Seq<char>, Seq<EventView>)>,
    pub title: Seq<char>,
    pub events: Seq<EventView>,
    pub in_h1: bool,
    pub heading_text: Seq<char>,
}

pub open spec fn split_start() -> Split {
    Split { chapters: seq![], title: "Content"@, events: seq![], in_h1: false, heading_text: seq![] }
}

/// One event: a level-one heading closes the current chapter, when it has
/// events, and its text becomes the next chapter's title.
pub open spec fn split_step(st: Split, e: EventView) -> Split {
    match e {
        EventView::Start(TagView::Heading { level: HeadingLevel::H1, .. }) => {
            let closed = if st.events.len() > 0 {
                Split {
                    chapters: st.chapters.push((st.title, st.events)),
                    title: seq![],
                    events: seq![],
                    ..st
                }
            } else {
                st
            };
            Split { in_h1: true, heading_text: seq![], events: closed.events.push(e), ..closed }
        },
        EventView::End(TagEnd::Heading(HeadingLevel::H1)) => Split {
            in_h1: false,
            title: if st.heading_text.len() == 0 {
                "Chapter "@ + nat_decimal((st.chapters.len() + 1) as nat)
            } else {
                st.heading_text
            },
            heading_text: if st.heading_text.len() == 0 {
                st.heading_text
            } else {
                seq![]
            },
            events: st.events.push(e),
            ..st
        },
        EventView::Text(t) => if st.in_h1 {
            Split { heading_text: st.heading_text + t, events: st.events.push(e), ..st }
        } else {
            Split { events: st.events.push(e), ..st }
        },
        _ => Split { events: st.events.push(e), ..st },
    }
}

pub open spec fn split_run(es: Seq<EventView>) -> Split
    decreases es.len(),
{
    if es.len() == 0 {
        split_start()
    } else {
        split_step(split_run(es.drop_last()), es.last())
    }
}

/// The chapters of a document: one per level-one heading, and the events
/// before the first heading as a chapter of their own; at least one.
pub open spec fn chapters_of(es: Seq<EventView>) -> Seq<(Seq<char>, Seq<EventView>)> {
    let st = split_run(es);
    let all = if st.events.len() > 0 {
        st.chapters.push((st.title, st.events))
    } else {
        st.chapters
    };
    if all.len() == 0 {
        seq![("Content"@, seq![])]
    } else {
        all
    }
}

pub open spec fn chapter_views(v: Seq<(String, Vec<Event>)>) -> Seq<(Seq<char>, Seq<EventView>)> {
    v.map_values(|c: (String, Vec<Event>)| (c.0@, event_views(c.1@)))
}

/// Splits a document's events into chapters at each level-one heading; the
/// text of the heading is the chapter's title.
pub fn split_into_chapters(events: Vec<Event>) -> (r: Vec<(String, Vec<Event>)>)
    ensures
        chapter_views(r@) == chapters_of(event_views(events@)),
        r@.len() >= 1,
{
    let ghost es = event_views(events@);
    let mut chapters: Vec<(String, Vec<Event>)> = Vec::new();
    let mut current_title: Vec<char> = chars_of("Content");
    let mut current_events: Vec<Event> = Vec::new();
    let mut in_h1 = false;
    let mut h1_text: Vec<char> = Vec::new();
    let n = events.len();
    proof {
        assert(chapter_views(chapters@) =~= split_start().chapters);
        assert(event_views(current_events@) =~= split_start().events);
    }
    for i in 0..n
        invariant
            n == events@.len() == es.len(),
            es == event_views(events@),
            chapter_views(chapters@) == split_run(es.take(i as int)).chapters,
            current_title@ == split_run(es.take(i as int)).title,
            event_views(current_events@) == split_run(es.take(i as int)).events,
            in_h1 == split_run(es.take(i as int)).in_h1,
            h1_text@ == split_run(es.take(i as int)).heading_text,
            chapters@.len() <= i,
    {
        let ghost st = split_run(es.take(i as int));
        proof {
            assert(es.take(i + 1).drop_last() =~= es.take(i as int));
            assert(es.take(i + 1).last() == es[i as int]);
        }
        let event = &events[i];
        let is_h1_start = match event {
            Event::Start(Tag::Heading { level: HeadingLevel::H1, .. }) => true,
            _ => false,
        };
        let is_h1_end = match event {
            Event::End(TagEnd::Heading(HeadingLevel::H1)) => true,
            _ => false,
        };
        if is_h1_start {
            if current_events.len() > 0 {
                let mut done: Vec<Event> = Vec::new();
                std::mem::swap(&mut done, &mut current_events);
                let title = string_of(current_title.as_slice());
                current_title = Vec::new();
                chapters.push((title, done));
                proof {
                    assert(chapter_views(chapters@) =~= st.chapters.push((st.title, st.events)));
                }
            }
            in_h1 = true;
            h1_text = Vec::new();
            current_events.push(copy_event(event));
        } else if is_h1_end {
            in_h1 = false;
            if h1_text.len() == 0 {
                let k = decimal_of_u64((chapters.len() as u64) + 1);
                let mut t = chars_of("Chapter ");
                append(&mut t, k.as_slice());
                current_title = t;
            } else {
                let mut t: Vec<char> = Vec::new();
                std::mem::swap(&mut t, &mut h1_text);
                current_title = t;
            }
            current_events.push(copy_event(event));
        } else {
            match event {
                Event::Text(t) => {
                    if in_h1 {
                        append_str(&mut h1_text, t.as_str());
                    }
                },
                _ => {},
            }
            current_events.push(copy_event(event));
        }
        proof {
            let st2 = split_run(es.take(i + 1));
            assert(st2 == split_step(st, es[i as int]));
            assert(event_views(current_events@) =~= st2.events);
            assert(chapter_views(chapters@) =~= st2.chapters);
        }
    }
    proof {
        assert(es.take(n as int) =~= es);
    }
    let ghost fin = split_run(es);
    if current_events.len() > 0 {
        let title = string_of(current_title.as_slice());
        chapters.push((title, current_events));
        proof {
            assert(chapter_views(chapters@) =~= fin.chapters.push((fin.title, fin.events)));
        }
    }
    if chapters.len() == 0 {
        chapters.push((String::from_str("Content"), Vec::new()));
        proof {
            reveal_strlit("Content");
            assert(chapter_views(chapters@) =~= seq![("Content"@, Seq::<EventView>::empty())]);
        }
    }
    chapters
}

// ── Laws ─────────────────────────────────────────────────────────────────────

pub open spec fn chapter_item(c: (&str, &str, &str)) -> Seq<char> {
    "    <item id=\""@ + c.0@ + "\" href=\""@ + c.1@ + "\" media-type=\"application/xhtml+xml\"/>\n"@
}

pub open spec fn spine_item(c: (&str, &str, &str)) -> Seq<char> {
    "    <itemref idref=\""@ + c.0@ + "\"/>\n"@
}

pub open spec fn nav_point(c: (&str, &str, &str), k: nat) -> Seq<char> {
    "    <navPoint id=\"navPoint-"@ + nat_decimal(k) + "\" playOrder=\""@ + nat_decimal(k)
        + "\">\n      <navLabel><text>"@ + c.2@ + "</text></navLabel>\n      <content src=\""@ + c.1@
        + "\"/>\n    </navPoint>\n"@
}

proof fn lemma_chapter_pieces(chapters: Seq<(&str, &str, &str)>, k: int)
    requires
        0 <= k < chapters.len(),
    ensures
        contains_text(chapter_items(chapters), chapter_item(chapters[k])),
        contains_text(spine_items(chapters), spine_item(chapters[k])),
        contains_text(nav_points(chapters), nav_point(chapters[k], (k + 1) as nat)),
    decreases chapters.len(),
{
    let rest = chapters.drop_last();
    let c = chapters.last();
    assert(chapter_items(chapters) =~= chapter_items(rest) + chapter_item(c));
    assert(spine_items(chapters) =~= spine_items(rest) + spine_item(c));
    assert(nav_points(chapters) =~= nav_points(rest) + nav_point(c, chapters.len()));
    if k == chapters.len() - 1 {
        lemma_contains_right(chapter_items(rest), chapter_item(c));
        lemma_contains_right(spine_items(rest), spine_item(c));
        lemma_contains_right(nav_points(rest), nav_point(c, chapters.len()));
    } else {
        lemma_chapter_pieces(rest, k);
        assert(rest[k] == chapters[k]);
        lemma_contains_left(chapter_items(rest), chapter_item(c));
        lemma_contains_trans(chapter_items(chapters), chapter_items(rest), chapter_item(chapters[k]));
        lemma_contains_left(spine_items(rest), spine_item(c));
        lemma_contains_trans(spine_items(chapters), spine_items(rest), spine_item(chapters[k]));
        lemma_contains_left(nav_points(rest), nav_point(c, chapters.len()));
        lemma_contains_trans(nav_points(chapters), nav_points(rest), nav_point(chapters[k], (k + 1) as nat));
    }
}

/// Every chapter is in the book: the package lists it in the manifest as
/// an XHTML item with its id and file, and in the spine by its id; the
/// navigation document gives it the navigation point numbered by its place
/// (from 1), with its title and file.
pub proof fn law_epub_lists_every_chapter(
    title: Seq<char>,
    author: Seq<char>,
    chapters: Seq<(&str, &str, &str)>,
    cover: Option<(Seq<char>, Option<Seq<char>>)>,
    k: int,
)
    requires
        0 <= k < chapters.len(),
    ensures
        contains_text(opf_document(title, author, chapters, cover), chapter_item(chapters[k])),
        contains_text(opf_document(title, author, chapters, cover), spine_item(chapters[k])),
        contains_text(ncx_document(title, chapters), nav_point(chapters[k], (k + 1) as nat)),
{
    lemma_chapter_pieces(chapters, k);
    let pre_manifest = "    <item id=\"ncx\" href=\"toc.ncx\" media-type=\"application/x-dtbncx+xml\"/>\n"@ + match cover {
        Some(c) => cover_item(c.0, c.1),
        None => seq![],
    };
    let head = opf_head() + title + "</dc:title>\n    <dc:creator>"@ + author
        + "</dc:creator>\n    <dc:language>en</dc:language>\n    <dc:identifier id=\"BookId\">urn:uuid:marksmen-epub</dc:identifier>\n  </metadata>\n  <manifest>\n"@;
    let mid = "  </manifest>\n  <spine toc=\"ncx\">\n"@;
    let tail = "  </spine>\n</package>"@;
    let doc = opf_document(title, author, chapters, cover);
    assert(doc =~= (head + pre_manifest) + chapter_items(chapters) + (mid + spine_items(chapters) + tail));
    lemma_contains_middle(head + pre_manifest, chapter_items(chapters), mid + spine_items(chapters) + tail);
    lemma_contains_trans(doc, chapter_items(chapters), chapter_item(chapters[k]));
    assert(doc =~= (head + pre_manifest + chapter_items(chapters) + mid) + spine_items(chapters) + tail);
    lemma_contains_middle(head + pre_manifest + chapter_items(chapters) + mid, spine_items(chapters), tail);
    lemma_contains_trans(doc, spine_items(chapters), spine_item(chapters[k]));
    let nhead = "<?xml version=\"1.0\" encoding=\"UTF-8\"?>\n<ncx xmlns=\"http://www.daisy.org/z3986/2005/ncx/\" version=\"2005-1\">\n  <head>\n    <meta name=\"dtb:uid\" content=\"urn:uuid:marksmen-epub\"/>\n    <meta name=\"dtb:depth\" content=\"1\"/>\n    <meta name=\"dtb:totalPageCount\" content=\"0\"/>\n    <meta name=\"dtb:maxPageNumber\" content=\"0\"/>\n  </head>\n  <docTitle><text>"@
        + title + "</text></docTitle>\n  <navMap>\n"@;
    lemma_contains_middle(nhead, nav_points(chapters), "  </navMap>\n</ncx>"@);
    lemma_contains_trans(ncx_document(title, chapters), nav_points(chapters), nav_point(chapters[k], (k + 1) as nat));
}

} // verus!
