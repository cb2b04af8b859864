//! Helpers of the DOCX writer and reader: the value of an attribute of a raw
//! HTML tag, the pixel size of an embedded PNG or JPEG image read from its
//! header, the footnote blocks of a footnotes part, and the Markdown of a
//! Word document put together from the Markdown of its parts.

use vstd::prelude::*;
use crate::text::{append, append_str, chars_of, eq_str, find, find_char, find_str, index_of, lemma_find_bounds, replace, replace_str, slice_of, string_of, trim, trim_of};

verus! {

// ── Attributes of raw HTML ───────────────────────────────────────────────────

/// An attribute value with the XML character references it may hold
/// resolved, one kind after another.
pub open spec fn unescaped_attr(v: Seq<char>) -> Seq<char> {
    replace(
        replace(
            replace(replace(replace(replace(v, "&amp;"@, "&"@), "&lt;"@, "<"@), "&gt;"@, ">"@), "&quot;"@, "\""@),
            "&#39;"@,
            "'"@,
        ),
        "&apos;"@,
        "'"@,
    )
}

/// The value of the first `attr="..."` in a tag, its references resolved.
pub open spec fn attr_value(tag: Seq<char>, attr: Seq<char>) -> Option<Seq<char>> {
    let needle = attr + "=\""@;
    match find(tag, needle) {
        Some(start) => {
            let remaining = tag.skip(start + needle.len());
            match index_of(remaining, '"') {
                Some(end) => Some(unescaped_attr(remaining.take(end))),
                None => None,
            }
        },
        None => None,
    }
}

/// The value of the attribute `attr` of a raw HTML tag, as the first
/// `attr="..."` in it gives it, with `&amp;`, `&lt;`, `&gt;`, `&quot;`,
/// `&#39;` and `&apos;` resolved; `None` without such an attribute.
pub fn extract_attr(tag: &str, attr: &str) -> (r: Option<String>)
    ensures
        match r {
            Some(v) => attr_value(tag@, attr@) == Some(v@),
            None => attr_value(tag@, attr@) is None,
        },
{
    let t = chars_of(tag);
    let mut needle = chars_of(attr);
    append_str(&mut needle, "=\"");
    match crate::text::find_seq(t.as_slice(), needle.as_slice()) {
        Some(start) => {
            proof {
                crate::text::lemma_find_bounds(t@, needle@);
                assert(find(t@, needle@) == Some(start as int));
                assert(start + needle@.len() <= t@.len());
            }
            let nl = needle.len();
            let tl = t.len();
            assert(start + nl <= tl);
            let from: usize = start + nl;
            let remaining = slice_of(t.as_slice(), from, tl);
            assert(remaining@ =~= t@.skip(start + needle@.len()));
            match crate::text::find_char(remaining.as_slice(), '"') {
                Some(end) => {
                    proof {
                        crate::text::lemma_find_bounds(remaining@, seq!['"']);
                    }
                    let value = slice_of(remaining.as_slice(), 0, end);
                    assert(value@ =~= remaining@.take(end as int));
                    proof {
                        reveal_strlit("&amp;");
                        reveal_strlit("&lt;");
                        reveal_strlit("&gt;");
                        reveal_strlit("&quot;");
                        reveal_strlit("&#39;");
                        reveal_strlit("&apos;");
                    }
                    let a = replace_str(value.as_slice(), "&amp;", "&");
                    let b = replace_str(a.as_slice(), "&lt;", "<");
                    let c = replace_str(b.as_slice(), "&gt;", ">");
                    let d = replace_str(c.as_slice(), "&quot;", "\"");
                    let e = replace_str(d.as_slice(), "&#39;", "'");
                    let f = replace_str(e.as_slice(), "&apos;", "'");
                    Some(string_of(f.as_slice()))
                },
                None => None,
            }
        },
        None => None,
    }
}

// ── Image sizes ──────────────────────────────────────────────────────────────

pub open spec fn png_signature() -> Seq<u8> {
    seq![0x89u8, 0x50u8, 0x4Eu8, 0x47u8, 0x0Du8, 0x0Au8, 0x1Au8, 0x0Au8]
}

/// The big-endian number of the two bytes at `i`.
pub open spec fn be16(d: Seq<u8>, i: int) -> int {
    d[i] * 256 + d[i + 1]
}

/// The big-endian number of the four bytes at `i`.
pub open spec fn be32(d: Seq<u8>, i: int) -> int {
    d[i] * 16777216 + d[i + 1] * 65536 + d[i + 2] * 256 + d[i + 3]
}

/// The size recorded in the first baseline or progressive start-of-frame
/// segment of a JPEG, looking from `i` on and skipping each segment by the
/// length it records.
pub open spec fn jpeg_frame_size(d: Seq<u8>, i: int) -> Option<(int, int)>
    decreases d.len() - i,
{
    if 0 <= i && i + 9 < d.len() {
        if d[i] == 0xFF && (d[i + 1] == 0xC0 || d[i + 1] == 0xC2) {
            Some((be16(d, i + 7), be16(d, i + 5)))
        } else {
            let next = i + 2 + be16(d, i + 2);
            if next <= d.len() {
                jpeg_frame_size(d, next)
            } else {
                None
            }
        }
    } else {
        None
    }
}

/// The width and height of a PNG, from its header, or of a JPEG, from its
/// first frame.
pub open spec fn image_size(d: Seq<u8>) -> Option<(int, int)> {
    if d.len() > 24 && d.take(8) == png_signature() {
        Some((be32(d, 16), be32(d, 20)))
    } else if d.len() > 2 && d[0] == 0xFF && d[1] == 0xD8 {
        jpeg_frame_size(d, 2)
    } else {
        None
    }
}

pub open spec fn size_view(r: Option<(u32, u32)>) -> Option<(int, int)> {
    match r {
        Some((w, h)) => Some((w as int, h as int)),
        None => None,
    }
}

fn be16_of(d: &[u8], i: usize) -> (r: u32)
    requires
        i + 1 < d@.len(),
    ensures
        r as int == be16(d@, i as int),
{
    (d[i] as u32) * 256 + (d[i + 1] as u32)
}

/// The pixel width and height of a PNG or JPEG image, read from its bytes:
/// the PNG header, or the first start-of-frame segment of a JPEG. `None`
/// for other data.
pub fn image_dimensions(data: &[u8]) -> (r: Option<(u32, u32)>)
    requires
        data@.len() < usize::MAX - 0x10002,
    ensures
        size_view(r) == image_size(data@),
{
    let n = data.len();
    if n > 24 && data[0] == 0x89 && data[1] == 0x50 && data[2] == 0x4E && data[3] == 0x47 && data[4] == 0x0D
        && data[5] == 0x0A && data[6] == 0x1A && data[7] == 0x0A {
        assert(data@.take(8) =~= png_signature());
        let w = (data[16] as u32) * 16777216 + (data[17] as u32) * 65536 + (data[18] as u32) * 256 + (data[19] as u32);
        let h = (data[20] as u32) * 16777216 + (data[21] as u32) * 65536 + (data[22] as u32) * 256 + (data[23] as u32);
        return Some((w, h));
    }
    proof {
        if n > 24 && data@.take(8) == png_signature() {
            assert(data@.take(8)[0] == data@[0]);
            assert(data@.take(8)[1] == data@[1]);
            assert(data@.take(8)[2] == data@[2]);
            assert(data@.take(8)[3] == data@[3]);
            assert(data@.take(8)[4] == data@[4]);
            assert(data@.take(8)[5] == data@[5]);
            assert(data@.take(8)[6] == data@[6]);
            assert(data@.take(8)[7] == data@[7]);
        }
    }
    if n > 2 && data[0] == 0xFF && data[1] == 0xD8 {
        let mut i: usize = 2;
        while i + 9 < n
            invariant
                n == data@.len() < usize::MAX - 0x10002,
                2 <= i <= n,
                jpeg_frame_size(data@, i as int) == jpeg_frame_size(data@, 2),
                image_size(data@) == jpeg_frame_size(data@, 2),
            decreases n - i,
        {
            if data[i] == 0xFF && (data[i + 1] == 0xC0 || data[i + 1] == 0xC2) {
                let h = be16_of(data, i + 5);
                let w = be16_of(data, i + 7);
                return Some((w, h));
            }
            let seg_len = be16_of(data, i + 2);
            let next = i + 2 + seg_len as usize;
            if next > n {
                return None;
            }
            i = next;
        }
    }
    None
}

// ── Assembling the document ──────────────────────────────────────────────────

/// The key footnotes are ordered by: the id's number, 0 when it is none.
pub open spec fn footnote_key(id: Seq<char>) -> int {
    match crate::text::parse_i32_spec(id) {
        Some(v) => v as int,
        None => 0,
    }
}

/// The footnotes with one entry per id: an id keeps the place where it
/// first occurs and takes the text it is given last.
pub open spec fn merged_notes(notes: Seq<(Seq<char>, Seq<char>)>) -> Seq<(Seq<char>, Seq<char>)>
    decreases notes.len(),
{
    if notes.len() == 0 {
        seq![]
    } else {
        let prev = merged_notes(notes.drop_last());
        let (id, text) = notes.last();
        match index_of_note(prev, id) {
            Some(k) => prev.update(k, (id, text)),
            None => prev.push((id, text)),
        }
    }
}

pub open spec fn index_of_note(notes: Seq<(Seq<char>, Seq<char>)>, id: Seq<char>) -> Option<int>
    decreases notes.len(),
{
    if notes.len() == 0 {
        None
    } else {
        match index_of_note(notes.drop_last(), id) {
            Some(k) => Some(k),
            None => if notes.last().0 == id {
                Some(notes.len() - 1)
            } else {
                None
            },
        }
    }
}

/// `x` put into `sorted` after every entry whose key is not greater.
pub open spec fn insert_note(sorted: Seq<(Seq<char>, Seq<char>)>, x: (Seq<char>, Seq<char>)) -> Seq<(Seq<char>, Seq<char>)>
    decreases sorted.len(),
{
    if sorted.len() == 0 {
        seq![x]
    } else if footnote_key(x.0) < footnote_key(sorted.last().0) {
        insert_note(sorted.drop_last(), x).push(sorted.last())
    } else {
        sorted.push(x)
    }
}

/// The footnotes in the order of their keys, equal keys in the order given.
pub open spec fn sorted_notes(notes: Seq<(Seq<char>, Seq<char>)>) -> Seq<(Seq<char>, Seq<char>)>
    decreases notes.len(),
{
    if notes.len() == 0 {
        seq![]
    } else {
        insert_note(sorted_notes(notes.drop_last()), notes.last())
    }
}

/// The footnote lines: `[^id]: text` after a blank line, for each footnote
/// whose trimmed text is not empty.
pub open spec fn footnote_lines(notes: Seq<(Seq<char>, Seq<char>)>) -> Seq<char>
    decreases notes.len(),
{
    if notes.len() == 0 {
        seq![]
    } else {
        let (id, text) = notes.last();
        footnote_lines(notes.drop_last()) + if trim(text).len() > 0 {
            "\n\n[^"@ + id + "]: "@ + trim(text)
        } else {
            seq![]
        }
    }
}

/// The page metadata comment at the start of the body, and the body after it.
pub open spec fn split_page_meta(doc: Seq<char>) -> (Option<Seq<char>>, Seq<char>) {
    if crate::text::starts_with(doc, "<!-- page:"@) {
        match find(doc, "-->"@) {
            Some(e) => (Some(trim(doc.take(e + 3))), crate::arxiv::strip_leading(doc.skip(e + 3), "\n"@)),
            None => (None, doc),
        }
    } else {
        (None, doc)
    }
}

/// The Markdown of a Word document from the Markdown of its parts: the
/// page metadata comment first, the header, the body, the footer, and the
/// footnotes in the order of their numbers; trimmed.
pub open spec fn docx_markdown(
    doc: Seq<char>,
    header: Seq<char>,
    footer: Seq<char>,
    notes: Seq<(Seq<char>, Seq<char>)>,
) -> Seq<char> {
    let (meta, body) = split_page_meta(doc);
    trim(
        (match meta {
            Some(m) => m + "\n\n"@,
            None => seq![],
        }) + (if header.len() > 0 {
            "<header>\n\n"@ + trim(header) + "\n\n</header>\n\n"@
        } else {
            seq![]
        }) + body + (if footer.len() > 0 {
            "\n\n<footer>\n\n"@ + trim(footer) + "\n\n</footer>"@
        } else {
            seq![]
        }) + footnote_lines(sorted_notes(merged_notes(notes))),
    )
}

pub open spec fn note_views(v: Seq<(String, String)>) -> Seq<(Seq<char>, Seq<char>)> {
    v.map_values(|p: (String, String)| (p.0@, p.1@))
}

pub open spec fn pair_views(v: Seq<(Vec<char>, Vec<char>)>) -> Seq<(Seq<char>, Seq<char>)> {
    v.map_values(|p: (Vec<char>, Vec<char>)| (p.0@, p.1@))
}

proof fn lemma_index_of_note(notes: Seq<(Seq<char>, Seq<char>)>, id: Seq<char>)
    ensures
        match index_of_note(notes, id) {
            Some(k) => 0 <= k < notes.len() && notes[k].0 == id && forall|j: int| 0 <= j < k ==> notes[j].0 != id,
            None => forall|j: int| 0 <= j < notes.len() ==> notes[j].0 != id,
        },
    decreases notes.len(),
{
    if notes.len() > 0 {
        lemma_index_of_note(notes.drop_last(), id);
        assert forall|j: int| 0 <= j < notes.len() - 1 implies notes[j] == notes.drop_last()[j] by {}
    }
}

fn note_key(id: &[char]) -> (k: i64)
    ensures
        k as int == footnote_key(id@),
{
    let s = string_of(id);
    match crate::text::parse_i32(s.as_str()) {
        Some(v) => v as i64,
        None => 0,
    }
}

fn merge_notes_of(notes: &[(String, String)]) -> (r: Vec<(Vec<char>, Vec<char>)>)
    ensures
        pair_views(r@) == merged_notes(note_views(notes@)),
{
    let ghost nv = note_views(notes@);
    let mut out: Vec<(Vec<char>, Vec<char>)> = Vec::new();
    let n = notes.len();
    for i in 0..n
        invariant
            n == notes@.len(),
            nv == note_views(notes@),
            pair_views(out@) == merged_notes(nv.take(i as int)),
    {
        let id = chars_of(notes[i].0.as_str());
        let text = chars_of(notes[i].1.as_str());
        proof {
            assert(nv.take(i + 1).drop_last() =~= nv.take(i as int));
            assert(nv.take(i + 1).last() == (id@, text@));
            lemma_index_of_note(pair_views(out@), id@);
        }
        let m = out.len();
        let mut k: usize = 0;
        while k < m && !crate::text::seq_eq(out[k].0.as_slice(), id.as_slice())
            invariant
                m == out@.len(),
                k <= m,
                forall|j: int| 0 <= j < k ==> pair_views(out@)[j].0 != id@,
            decreases m - k,
        {
            k = k + 1;
        }
        let ghost before = pair_views(out@);
        if k < m {
            proof {
                assert(before[k as int] == (out@[k as int].0@, out@[k as int].1@));
                assert(before[k as int].0 == id@);
                assert(index_of_note(before, id@) == Some(k as int));
            }
            out.set(k, (id, text));
            proof {
                assert(pair_views(out@) =~= before.update(k as int, (id@, text@)));
            }
        } else {
            assert(index_of_note(before, id@) is None);
            out.push((id, text));
            proof {
                assert(pair_views(out@) =~= before.push((id@, text@)));
            }
        }
    }
    proof {
        assert(nv.take(n as int) =~= nv);
    }
    out
}

fn sort_notes_of(notes: Vec<(Vec<char>, Vec<char>)>) -> (r: Vec<(Vec<char>, Vec<char>)>)
    ensures
        pair_views(r@) == sorted_notes(pair_views(notes@)),
{
    let ghost nv = pair_views(notes@);
    let mut sorted: Vec<(Vec<char>, Vec<char>)> = Vec::new();
    let mut keys: Vec<i64> = Vec::new();
    let n = notes.len();
    let mut rest = notes;
    let mut i: usize = 0;
    while i < n
        invariant
            n == nv.len(),
            i <= n,
            pair_views(rest@) == nv.skip(i as int),
            rest@.len() == n - i,
            pair_views(sorted@) == sorted_notes(nv.take(i as int)),
            keys@.len() == sorted@.len(),
            forall|j: int| 0 <= j < keys@.len() ==> keys@[j] as int == footnote_key(#[trigger] pair_views(sorted@)[j].0),
        decreases n - i,
    {
        let ghost old_rest = rest@;
        let x = rest.remove(0);
        proof {
            assert(pair_views(old_rest)[0] == (old_rest[0].0@, old_rest[0].1@));
            assert(nv.skip(i as int)[0] == (x.0@, x.1@));
            assert(rest@ =~= old_rest.skip(1));
            assert forall|j: int| 0 <= j < rest@.len() implies pair_views(rest@)[j] == nv.skip(i + 1)[j] by {
                assert(pair_views(rest@)[j] == pair_views(old_rest)[j + 1]);
                assert(nv.skip(i as int)[j + 1] == nv.skip(i + 1)[j]);
            }
            assert(pair_views(rest@) =~= nv.skip(i + 1));
            assert(nv.take(i + 1).drop_last() =~= nv.take(i as int));
            assert(nv.take(i + 1).last() == (x.0@, x.1@));
        }
        let kx = note_key(x.0.as_slice());
        let ghost sv = pair_views(sorted@);
        let mut p = sorted.len();
        assert(sv.take(p as int) =~= sv);
        assert(sv.skip(p as int) =~= Seq::<(Seq<char>, Seq<char>)>::empty());
        while p > 0 && kx < keys[p - 1]
            invariant
                p <= sorted@.len() == keys@.len(),
                sv == pair_views(sorted@),
                forall|j: int| 0 <= j < keys@.len() ==> keys@[j] as int == footnote_key(#[trigger] pair_views(sorted@)[j].0),
                kx as int == footnote_key(x.0@),
                insert_note(sv, (x.0@, x.1@)) == insert_note(sv.take(p as int), (x.0@, x.1@)) + sv.skip(p as int),
            decreases p,
        {
            proof {
                assert(sv.take(p as int).last() == sv[p - 1]);
                assert(sv.take(p as int).drop_last() =~= sv.take(p - 1));
                assert(sv.skip(p - 1) =~= seq![sv[p - 1]] + sv.skip(p as int));
            }
            p = p - 1;
        }
        let ghost xv = (x.0@, x.1@);
        proof {
            if p > 0 {
                assert(sv.take(p as int).last() == sv[p - 1]);
            }
            assert(insert_note(sv.take(p as int), xv) == sv.take(p as int).push(xv));
        }
        sorted.insert(p, x);
        keys.insert(p, kx);
        proof {
            assert(pair_views(sorted@) =~= sv.take(p as int).push(xv) + sv.skip(p as int));
            assert forall|j: int| 0 <= j < keys@.len() implies keys@[j] as int == footnote_key(
                #[trigger] pair_views(sorted@)[j].0,
            ) by {
                if j < p {
                    assert(pair_views(sorted@)[j] == sv[j]);
                } else if j > p {
                    assert(pair_views(sorted@)[j] == sv[j - 1]);
                }
            }
        }
        i = i + 1;
    }
    proof {
        assert(nv.take(n as int) =~= nv);
    }
    sorted
}

fn footnote_lines_of(notes: &Vec<(Vec<char>, Vec<char>)>, out: &mut Vec<char>)
    ensures
        final(out)@ == old(out)@ + footnote_lines(pair_views(notes@)),
{
    let ghost nv = pair_views(notes@);
    let ghost start = out@;
    let n = notes.len();
    for i in 0..n
        invariant
            n == nv.len(),
            nv == pair_views(notes@),
            out@ == start + footnote_lines(nv.take(i as int)),
    {
        proof {
            assert(nv.take(i + 1).drop_last() =~= nv.take(i as int));
            assert(nv.take(i + 1).last() == nv[i as int]);
        }
        let t = trim_of(notes[i].1.as_slice());
        if t.len() > 0 {
            append_str(out, "\n\n[^");
            append(out, notes[i].0.as_slice());
            append_str(out, "]: ");
            append(out, t.as_slice());
        }
        proof {
            assert(out@ =~= start + footnote_lines(nv.take(i + 1)));
        }
    }
    proof {
        assert(nv.take(n as int) =~= nv);
    }
}

/// Puts together the Markdown of a Word document from the Markdown of its
/// parts: a page metadata comment that opens the body comes first, then the
/// header in a `<header>` block, the body, the footer in a `<footer>` block,
/// and the footnotes (given in document order as id and text; an id given
/// twice keeps its first place and its last text) in the order of their
/// numbers, each whose text is not blank as `[^id]: text`. The whole is
/// trimmed.
pub fn assemble_docx_markdown(doc: &str, header: &str, footer: &str, footnotes: &[(String, String)]) -> (r: String)
    ensures
        r@ == docx_markdown(doc@, header@, footer@, note_views(footnotes@)),
{
    let d = chars_of(doc);
    let ghost sp = split_page_meta(d@);
    let mut out: Vec<char> = Vec::new();
    proof {
        reveal_strlit("-->");
        reveal_strlit("<!-- page:");
    }
    let body: Vec<char> = if crate::text::starts_with_str(d.as_slice(), "<!-- page:") {
        match crate::text::find_str(d.as_slice(), "-->") {
            Some(e) => {
                let dl = d.len();
                proof {
                    crate::text::lemma_find_bounds(d@, "-->"@);
                    assert("-->"@.len() == 3);
                    assert(find(d@, "-->"@) == Some(e as int));
                    assert(e + 3 <= d@.len());
                }
                let pre = slice_of(d.as_slice(), 0, e + 3);
                assert(pre@ =~= d@.take(e + 3));
                let meta = trim_of(pre.as_slice());
                append(&mut out, meta.as_slice());
                append_str(&mut out, "\n\n");
                let after = slice_of(d.as_slice(), e + 3, d.len());
                assert(after@ =~= d@.skip(e + 3));
                crate::arxiv::strip_leading_of(after.as_slice(), "\n")
            },
            None => d,
        }
    } else {
        d
    };
    let ghost meta_part: Seq<char> = match sp.0 {
        Some(m) => m + "\n\n"@,
        None => seq![],
    };
    assert(out@ == meta_part && body@ == sp.1);
    let h = chars_of(header);
    let ghost header_part: Seq<char> = if header@.len() > 0 {
        "<header>\n\n"@ + trim(header@) + "\n\n</header>\n\n"@
    } else {
        seq![]
    };
    if h.len() > 0 {
        append_str(&mut out, "<header>\n\n");
        let ht = trim_of(h.as_slice());
        append(&mut out, ht.as_slice());
        append_str(&mut out, "\n\n</header>\n\n");
    }
    assert(out@ =~= meta_part + header_part);
    append(&mut out, body.as_slice());
    let f = chars_of(footer);
    let ghost footer_part: Seq<char> = if footer@.len() > 0 {
        "\n\n<footer>\n\n"@ + trim(footer@) + "\n\n</footer>"@
    } else {
        seq![]
    };
    if f.len() > 0 {
        append_str(&mut out, "\n\n<footer>\n\n");
        let ft = trim_of(f.as_slice());
        append(&mut out, ft.as_slice());
        append_str(&mut out, "\n\n</footer>");
    }
    assert(out@ =~= meta_part + header_part + sp.1 + footer_part);
    let merged = merge_notes_of(footnotes);
    let sorted = sort_notes_of(merged);
    footnote_lines_of(&sorted, &mut out);
    let t = trim_of(out.as_slice());
    string_of(t.as_slice())
}

// ── Footnote blocks ──────────────────────────────────────────────────────────

/// The pieces of `s` between the occurrences of a separator that is not
/// empty, as `str::split` gives them.
pub open spec fn split_on(s: Seq<char>, sep: Seq<char>) -> Seq<Seq<char>>
    decreases s.len(),
{
    if sep.len() == 0 {
        seq![s]
    } else {
        match find(s, sep) {
            Some(k) => {
                proof {
                    lemma_find_bounds(s, sep);
                }
                seq![s.take(k)] + split_on(s.skip(k + sep.len()), sep)
            },
            None => seq![s],
        }
    }
}

/// The footnote that a piece after a `<w:footnote ` opening holds: its id
/// (the first `w:id="..."` value) and its XML up to `</w:footnote>`, wrapped
/// in a bare `<w:footnote>` element; none for the separator notes `-1` and
/// `0`, or where the id or the closing tag is missing.
pub open spec fn footnote_block(block: Seq<char>) -> Option<(Seq<char>, Seq<char>)> {
    match find(block, "w:id=\""@) {
        Some(a) => {
            let rest = block.skip(a + "w:id=\""@.len());
            match index_of(rest, '"') {
                Some(b) => {
                    let id = rest.take(b);
                    if id != "-1"@ && id != "0"@ {
                        match find(block, "</w:footnote>"@) {
                            Some(e) => Some((id, "<w:footnote>"@ + block.take(e) + "</w:footnote>"@)),
                            None => None,
                        }
                    } else {
                        None
                    }
                },
                None => None,
            }
        },
        None => None,
    }
}

pub open spec fn footnote_blocks_in(pieces: Seq<Seq<char>>) -> Seq<(Seq<char>, Seq<char>)>
    decreases pieces.len(),
{
    if pieces.len() == 0 {
        seq![]
    } else {
        footnote_blocks_in(pieces.drop_last()) + match footnote_block(pieces.last()) {
            Some(p) => seq![p],
            None => seq![],
        }
    }
}

/// The footnotes of a footnotes part, in document order: each text after a
/// `<w:footnote ` opening that makes a footnote block.
pub open spec fn footnote_blocks(xml: Seq<char>) -> Seq<(Seq<char>, Seq<char>)> {
    footnote_blocks_in(split_on(xml, "<w:footnote "@).skip(1))
}

fn split_on_of(s: &[char], sep: &str) -> (r: Vec<Vec<char>>)
    requires
        sep@.len() > 0,
    ensures
        crate::text::views(r@) == split_on(s@, sep@),
{
    let mut out: Vec<Vec<char>> = Vec::new();
    let mut rest: Vec<char> = slice_of(s, 0, s.len());
    assert(rest@ =~= s@);
    loop
        invariant
            sep@.len() > 0,
            split_on(s@, sep@) == crate::text::views(out@) + split_on(rest@, sep@),
        decreases rest@.len(),
    {
        match find_str(rest.as_slice(), sep) {
            Some(k) => {
                let sl = sep.unicode_len();
                let rl = rest.len();
                proof {
                    lemma_find_bounds(rest@, sep@);
                }
                let piece = slice_of(rest.as_slice(), 0, k);
                let next = slice_of(rest.as_slice(), k + sl, rest.len());
                proof {
                    assert(piece@ =~= rest@.take(k as int));
                    assert(next@ =~= rest@.skip(k + sep@.len()));
                    assert(crate::text::views(out@.push(piece)) =~= crate::text::views(out@).push(piece@));
                    assert(split_on(rest@, sep@) == seq![piece@] + split_on(next@, sep@));
                    assert(crate::text::views(out@).push(piece@) + split_on(next@, sep@)
                        =~= crate::text::views(out@) + (seq![piece@] + split_on(next@, sep@)));
                }
                out.push(piece);
                rest = next;
            },
            None => {
                proof {
                    assert(crate::text::views(out@.push(rest)) =~= crate::text::views(out@).push(rest@));
                    assert(split_on(rest@, sep@) == seq![rest@]);
                    assert(crate::text::views(out@).push(rest@) =~= crate::text::views(out@) + seq![rest@]);
                }
                out.push(rest);
                return out;
            },
        }
    }
}

fn footnote_block_of(block: &[char]) -> (r: Option<(String, String)>)
    ensures
        match r {
            Some(p) => footnote_block(block@) == Some((p.0@, p.1@)),
            None => footnote_block(block@) is None,
        },
{
    proof {
        reveal_strlit("w:id=\"");
        reveal_strlit("</w:footnote>");
        lemma_find_bounds(block@, "w:id=\""@);
        lemma_find_bounds(block@, "</w:footnote>"@);
    }
    let a = match find_str(block, "w:id=\"") {
        Some(a) => a,
        None => return None,
    };
    assert("w:id=\""@.len() == 6);
    let bl = block.len();
    let rest = slice_of(block, a + 6, block.len());
    assert(rest@ =~= block@.skip(a + "w:id=\""@.len()));
    let b = match find_char(rest.as_slice(), '"') {
        Some(b) => b,
        None => return None,
    };
    proof {
        lemma_find_bounds(rest@, seq!['"']);
    }
    let id = slice_of(rest.as_slice(), 0, b);
    assert(id@ =~= rest@.take(b as int));
    if eq_str(id.as_slice(), "-1") || eq_str(id.as_slice(), "0") {
        return None;
    }
    let e = match find_str(block, "</w:footnote>") {
        Some(e) => e,
        None => return None,
    };
    let inner = slice_of(block, 0, e);
    assert(inner@ =~= block@.take(e as int));
    let mut x: Vec<char> = Vec::new();
    append_str(&mut x, "<w:footnote>");
    append(&mut x, inner.as_slice());
    append_str(&mut x, "</w:footnote>");
    Some((string_of(id.as_slice()), string_of(x.as_slice())))
}

/// The footnotes of a footnotes part as id and XML, in document order:
/// each text after a `<w:footnote ` opening that has an id other than `-1`
/// and `0` and a closing `</w:footnote>`, wrapped in a bare
/// `<w:footnote>` element.
pub fn footnote_blocks_of(xml: &str) -> (r: Vec<(String, String)>)
    ensures
        note_views(r@) == footnote_blocks(xml@),
{
    let x = chars_of(xml);
    proof {
        reveal_strlit("<w:footnote ");
    }
    let pieces = split_on_of(x.as_slice(), "<w:footnote ");
    let ghost ps = crate::text::views(pieces@).skip(1);
    let mut out: Vec<(String, String)> = Vec::new();
    let n = pieces.len();
    let mut i: usize = 1;
    proof {
        assert(ps.take(0) =~= Seq::<Seq<char>>::empty());
    }
    while i < n
        invariant
            n == pieces@.len(),
            1 <= i <= n || n == 0,
            ps == crate::text::views(pieces@).skip(1),
            note_views(out@) == footnote_blocks_in(ps.take(i - 1)),
        decreases n - i,
    {
        proof {
            assert(ps.take(i as int).drop_last() =~= ps.take(i - 1));
            assert(ps.take(i as int).last() == pieces@[i as int]@);
        }
        match footnote_block_of(pieces[i].as_slice()) {
            Some(p) => {
                out.push(p);
                proof {
                    assert(note_views(out@) =~= footnote_blocks_in(ps.take(i - 1)).push((p.0@, p.1@)));
                }
            },
            None => {},
        }
        proof {
            assert(note_views(out@) =~= footnote_blocks_in(ps.take(i as int)));
        }
        i = i + 1;
    }
    proof {
        if n > 0 {
            assert(ps.take(n - 1) =~= ps);
        } else {
            assert(ps =~= Seq::<Seq<char>>::empty());
        }
    }
    out
}

} // verus!
