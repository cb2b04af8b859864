//! Text clean-ups the citation importers apply to fetched and parsed values.

use vstd::prelude::*;
use crate::cite::{blank_fields, fields, strs, RecordFields, Reference};
use crate::pattern::{compile, regex_compiles, regex_replace_all, replace_all};
use crate::diagrams::nonempty_trimmed;
use crate::text::{
    append, append_str, chars_of, copy_chars, index_of, lines, lines_of, replace, replace_str,
    slice_of, split_char, split_char_of, split_on, split_on_of, string_of, trim, trim_of, trim_str,
    views,
};
use crate::unicode::{lowercase, to_lowercase};

verus! {

/// `s` without trailing occurrences of `c`.
pub open spec fn trim_end_char(s: Seq<char>, c: char) -> Seq<char>
    decreases s.len(),
{
    if s.len() > 0 && s.last() == c {
        trim_end_char(s.drop_last(), c)
    } else {
        s
    }
}

/// A BibTeX value with its trailing commas and surrounding whitespace
/// removed.
pub open spec fn bibtex_trimmed(raw: Seq<char>) -> Seq<char> {
    trim(trim_end_char(raw, ','))
}

/// What `strip_bibtex_val` returns: the trimmed value without one pair of
/// enclosing braces or double quotes.
pub open spec fn bibtex_value(raw: Seq<char>) -> Seq<char> {
    let s = bibtex_trimmed(raw);
    if s.len() > 0 && ((s[0] == '{' && s.last() == '}') || (s[0] == '"' && s.last() == '"')) {
        s.subrange(1, s.len() - 1)
    } else {
        s
    }
}

fn trim_end_char_of(s: &[char], c: char) -> (r: Vec<char>)
    ensures
        r@ == trim_end_char(s@, c),
{
    let mut e = s.len();
    assert(s@.take(e as int) =~= s@);
    while e > 0 && s[e - 1] == c
        invariant
            e <= s@.len(),
            trim_end_char(s@, c) == trim_end_char(s@.take(e as int), c),
        decreases e,
    {
        assert(s@.take(e as int).drop_last() =~= s@.take(e - 1));
        e -= 1;
    }
    let r = slice_of(s, 0, e);
    assert(r@ =~= s@.take(e as int));
    r
}

/// Strips trailing commas, surrounding whitespace and one pair of enclosing
/// braces or quotes from a raw BibTeX field value. A value that is a lone
/// double quote has no enclosed text to return.
pub fn strip_bibtex_val(raw: &str) -> (r: String)
    requires
        bibtex_trimmed(raw@) != seq!['"'],
    ensures
        r@ == bibtex_value(raw@),
{
    let v = chars_of(raw);
    let t = trim_end_char_of(v.as_slice(), ',');
    let s = trim_of(t.as_slice());
    let n = s.len();
    if n > 0 && ((s[0] == '{' && s[n - 1] == '}') || (s[0] == '"' && s[n - 1] == '"')) {
        if n == 1 {
            assert(s@ =~= seq!['"']);
        }
        string_of(slice_of(s.as_slice(), 1, n - 1).as_slice())
    } else {
        string_of(s.as_slice())
    }
}

/// The pattern of an XML or JATS tag.
pub open spec fn tag_pattern() -> Seq<char> {
    "<[^>]+>"@
}

/// Strips JATS/XML tags from an abstract and trims it: `None` only when the
/// tag pattern does not compile.
pub fn strip_jats(s: &str) -> (r: Option<String>)
    ensures
        regex_compiles(tag_pattern()) == r is Some,
        r matches Some(t) ==> t@ == trim(regex_replace_all(tag_pattern(), s@, ""@)),
{
    match compile("<[^>]+>") {
        Some(p) => {
            let stripped = replace_all(&p, s, "");
            Some(string_of(trim_str(stripped.as_str()).as_slice()))
        },
        None => None,
    }
}

// ── UTF-8 lengths ────────────────────────────────────────────────────────────

/// The number of bytes UTF-8 takes for `c`.
pub open spec fn utf8_len(c: char) -> nat {
    if (c as u32) < 0x80 {
        1
    } else if (c as u32) < 0x800 {
        2
    } else if (c as u32) < 0x10000 {
        3
    } else {
        4
    }
}

/// The number of bytes of `s` in UTF-8, what `str::len` returns.
pub open spec fn byte_len(s: Seq<char>) -> nat
    decreases s.len(),
{
    if s.len() == 0 {
        0
    } else {
        byte_len(s.drop_last()) + utf8_len(s.last())
    }
}

/// Whether byte offset `b` of `s` falls between two characters.
pub open spec fn char_boundary(s: Seq<char>, b: int) -> bool
    decreases s.len(),
{
    if b == 0 {
        true
    } else if s.len() == 0 || b < 0 {
        false
    } else {
        b >= utf8_len(s[0]) && char_boundary(s.drop_first(), b - utf8_len(s[0]))
    }
}

fn utf8_len_of(c: char) -> (n: usize)
    ensures
        n == utf8_len(c),
{
    let u = c as u32;
    if u < 0x80 {
        1
    } else if u < 0x800 {
        2
    } else if u < 0x10000 {
        3
    } else {
        4
    }
}

/// `byte_len(s)`, or 14 when that is more.
fn capped_byte_len(s: &[char]) -> (n: usize)
    ensures
        n == if byte_len(s@) < 14 {
            byte_len(s@)
        } else {
            14
        },
{
    let mut total: usize = 0;
    let len = s.len();
    for i in 0..len
        invariant
            len == s@.len(),
            total == if byte_len(s@.take(i as int)) < 14 {
                byte_len(s@.take(i as int))
            } else {
                14
            },
    {
        assert(s@.take(i + 1).drop_last() =~= s@.take(i as int));
        let c = utf8_len_of(s[i]);
        if total + c < 14 {
            total = total + c;
        } else {
            total = 14;
        }
    }
    assert(s@.take(len as int) =~= s@);
    total
}

// ── RIS import ───────────────────────────────────────────────────────────────

/// Whether every non-blank line of `content` that is longer than six bytes
/// has character boundaries at bytes 2 and 6, where the RIS reader slices it.
pub open spec fn ris_sliceable(content: Seq<char>) -> bool {
    forall|i: int|
        0 <= i < lines(content).len() && byte_len(trim(#[trigger] lines(content)[i])) > 6 ==> char_boundary(
            trim(lines(content)[i]),
            2,
        ) && char_boundary(trim(lines(content)[i]), 6)
}

/// A tag line, `XX  - value`, whose two-character tag is ASCII.
pub open spec fn is_tag_line(line: Seq<char>) -> bool {
    &&& line.len() > 6
    &&& (line[0] as u32) < 0x80
    &&& (line[1] as u32) < 0x80
    &&& line.subrange(2, 6) == seq![' ', ' ', '-', ' ']
}

/// The reference type an RIS `TY` code stands for.
pub open spec fn ris_reference_type(code: Seq<char>) -> Seq<char> {
    if code == "JOUR"@ {
        "Journal Article"@
    } else if code == "BOOK"@ {
        "Book"@
    } else if code == "CHAP"@ {
        "Book Chapter"@
    } else if code == "CONF"@ || code == "CPAPER"@ {
        "Conference Paper"@
    } else if code == "THES"@ {
        "Thesis"@
    } else if code == "RPRT"@ {
        "Report"@
    } else if code == "ELEC"@ {
        "Website"@
    } else {
        "Journal Article"@
    }
}

/// What an RIS field line with tag `tag` and value `val` does to a record.
pub open spec fn ris_apply(r: RecordFields, tag: Seq<char>, val: Seq<char>) -> RecordFields {
    if tag == "T1"@ || tag == "TI"@ {
        RecordFields { title: val, ..r }
    } else if tag == "AU"@ || tag == "A1"@ {
        RecordFields { authors: r.authors.push(val), ..r }
    } else if tag == "AB"@ {
        RecordFields { abstract_text: val, ..r }
    } else if tag == "JO"@ || tag == "JF"@ || tag == "T2"@ || tag == "J2"@ {
        RecordFields { journal: val, ..r }
    } else if tag == "DO"@ {
        RecordFields { doi: val, ..r }
    } else if tag == "PY"@ || tag == "Y1"@ {
        RecordFields { year: if val.len() < 4 { val } else { val.take(4) }, ..r }
    } else if tag == "VL"@ {
        RecordFields { volume: val, ..r }
    } else if tag == "IS"@ {
        RecordFields { issue: val, ..r }
    } else if tag == "SP"@ {
        RecordFields { pages: if r.pages.len() == 0 { val } else { val + seq!['-'] + r.pages }, ..r }
    } else if tag == "EP"@ {
        RecordFields { pages: if r.pages.len() == 0 { val } else { r.pages + seq!['-'] + val }, ..r }
    } else if tag == "PB"@ {
        RecordFields { publisher: val, ..r }
    } else if tag == "SN"@ {
        if byte_len(val) == 13 || byte_len(val) == 10 {
            RecordFields { isbn: val, ..r }
        } else {
            RecordFields { issn: val, ..r }
        }
    } else if tag == "UR"@ {
        RecordFields { url: val, ..r }
    } else if tag == "LA"@ {
        RecordFields { language: val, ..r }
    } else if tag == "KW"@ {
        RecordFields { tags: r.tags.push(val), ..r }
    } else if tag == "N1"@ || tag == "N2"@ {
        RecordFields { notes: val, ..r }
    } else {
        r
    }
}

pub ghost struct RisState {
    pub refs: Seq<RecordFields>,
    pub cur: Option<RecordFields>,
}

pub open spec fn flushed(st: RisState) -> Seq<RecordFields> {
    match st.cur {
        Some(r) => st.refs.push(r),
        None => st.refs,
    }
}

/// The effect of one line: `TY` starts a record (closing any open one),
/// `ER` closes it, and other tags fill the open record.
pub open spec fn ris_step(st: RisState, raw: Seq<char>) -> RisState {
    let line = trim(raw);
    if !is_tag_line(line) {
        st
    } else {
        let tag = line.take(2);
        let val = trim(line.skip(6));
        if tag == "TY"@ {
            RisState { refs: flushed(st), cur: Some(blank_fields(ris_reference_type(val))) }
        } else if tag == "ER"@ {
            RisState { refs: flushed(st), cur: None }
        } else {
            match st.cur {
                Some(r) => RisState { cur: Some(ris_apply(r, tag, val)), ..st },
                None => st,
            }
        }
    }
}

pub open spec fn ris_fold(ls: Seq<Seq<char>>) -> RisState
    decreases ls.len(),
{
    if ls.len() == 0 {
        RisState { refs: seq![], cur: None }
    } else {
        ris_step(ris_fold(ls.drop_last()), ls.last())
    }
}

/// The records an RIS file holds, without their ids and dates.
pub open spec fn ris_records(content: Seq<char>) -> Seq<RecordFields> {
    flushed(ris_fold(lines(content)))
}

fn ris_type_of(code: &[char]) -> (t: String)
    ensures
        t@ == ris_reference_type(code@),
{
    let s = if crate::text::eq_str(code, "JOUR") {
        "Journal Article"
    } else if crate::text::eq_str(code, "BOOK") {
        "Book"
    } else if crate::text::eq_str(code, "CHAP") {
        "Book Chapter"
    } else if crate::text::eq_str(code, "CONF") || crate::text::eq_str(code, "CPAPER") {
        "Conference Paper"
    } else if crate::text::eq_str(code, "THES") {
        "Thesis"
    } else if crate::text::eq_str(code, "RPRT") {
        "Report"
    } else if crate::text::eq_str(code, "ELEC") {
        "Website"
    } else {
        "Journal Article"
    };
    String::from_str(s)
}

fn push_string(v: &mut Vec<String>, s: &[char])
    ensures
        strs(final(v)@) == strs(old(v)@).push(s@),
{
    let ghost before = v@;
    v.push(string_of(s));
    assert(strs(v@) =~= strs(before).push(s@));
}

fn ris_apply_to(r: &mut Reference, tag: &[char], val: &[char])
    ensures
        fields(*final(r)) == ris_apply(fields(*old(r)), tag@, val@),
        final(r).id == old(r).id,
        final(r).date_added == old(r).date_added,
        final(r).date_modified == old(r).date_modified,
{
    proof {
        broadcast use vstd::string::group_string_axioms;
    }
    let v = string_of(val);
    if crate::text::eq_str(tag, "T1") || crate::text::eq_str(tag, "TI") {
        r.title = v;
    } else if crate::text::eq_str(tag, "AU") || crate::text::eq_str(tag, "A1") {
        push_string(&mut r.authors, val);
    } else if crate::text::eq_str(tag, "AB") {
        r.abstract_text = v;
    } else if crate::text::eq_str(tag, "JO") || crate::text::eq_str(tag, "JF") || crate::text::eq_str(
        tag,
        "T2",
    ) || crate::text::eq_str(tag, "J2") {
        r.journal = v;
    } else if crate::text::eq_str(tag, "DO") {
        r.doi = v;
    } else if crate::text::eq_str(tag, "PY") || crate::text::eq_str(tag, "Y1") {
        let y = if val.len() < 4 {
            copy_chars(val)
        } else {
            slice_of(val, 0, 4)
        };
        assert(val.len() >= 4 ==> y@ =~= val@.take(4));
        r.year = string_of(y.as_slice());
    } else if crate::text::eq_str(tag, "VL") {
        r.volume = v;
    } else if crate::text::eq_str(tag, "IS") {
        r.issue = v;
    } else if crate::text::eq_str(tag, "SP") {
        let pages = chars_of(r.pages.as_str());
        if pages.len() == 0 {
            r.pages = v;
        } else {
            let mut p = copy_chars(val);
            p.push('-');
            append(&mut p, pages.as_slice());
            r.pages = string_of(p.as_slice());
        }
    } else if crate::text::eq_str(tag, "EP") {
        let pages = chars_of(r.pages.as_str());
        if pages.len() == 0 {
            r.pages = v;
        } else {
            let mut p = pages;
            p.push('-');
            append(&mut p, val);
            r.pages = string_of(p.as_slice());
        }
    } else if crate::text::eq_str(tag, "PB") {
        r.publisher = v;
    } else if crate::text::eq_str(tag, "SN") {
        let n = capped_byte_len(val);
        if n == 13 || n == 10 {
            r.isbn = v;
        } else {
            r.issn = v;
        }
    } else if crate::text::eq_str(tag, "UR") {
        r.url = v;
    } else if crate::text::eq_str(tag, "LA") {
        r.language = v;
    } else if crate::text::eq_str(tag, "KW") {
        push_string(&mut r.tags, val);
    } else if crate::text::eq_str(tag, "N1") || crate::text::eq_str(tag, "N2") {
        r.notes = v;
    }
    assert(fields(*r) =~= ris_apply(fields(*old(r)), tag@, val@));
}

fn is_tag_line_of(line: &[char]) -> (b: bool)
    ensures
        b == is_tag_line(line@),
{
    if line.len() > 6 && (line[0] as u32) < 0x80 && (line[1] as u32) < 0x80 {
        let mid = slice_of(line, 2, 6);
        let sep: Vec<char> = vec![' ', ' ', '-', ' '];
        let r = crate::text::seq_eq(mid.as_slice(), sep.as_slice());
        assert(sep@ =~= seq![' ', ' ', '-', ' ']);
        r
    } else {
        false
    }
}

/// Reads the records of an RIS file. Each gets a fresh id and today's date;
/// the rest of each record is what the file's tags give it.
pub fn import_ris(content: String) -> (r: Result<Vec<Reference>, String>)
    requires
        ris_sliceable(content@),
    ensures
        r matches Ok(refs) && refs@.len() == ris_records(content@).len() && forall|i: int|
            0 <= i < refs@.len() ==> fields(#[trigger] refs@[i]) == ris_records(content@)[i],
{
    let src = chars_of(content.as_str());
    let ls = lines_of(src.as_slice());
    let mut refs: Vec<Reference> = Vec::new();
    let mut cur: Option<Reference> = None;
    let n = ls.len();
    assert(views(ls@).take(0) =~= Seq::<Seq<char>>::empty());
    for i in 0..n
        invariant
            n == ls@.len(),
            views(ls@) == lines(src@),
            refs@.len() == ris_fold(views(ls@).take(i as int)).refs.len(),
            forall|k: int| 0 <= k < refs@.len() ==> fields(#[trigger] refs@[k]) == ris_fold(
                views(ls@).take(i as int),
            ).refs[k],
            match cur {
                Some(c) => ris_fold(views(ls@).take(i as int)).cur == Some(fields(c)),
                None => ris_fold(views(ls@).take(i as int)).cur is None,
            },
    {
        assert(views(ls@).take(i + 1).drop_last() =~= views(ls@).take(i as int));
        assert(views(ls@).take(i + 1).last() == ls@[i as int]@);
        let line_v = trim_of(ls[i].as_slice());
        let line = line_v.as_slice();
        if is_tag_line_of(line) {
            let tag = slice_of(line, 0, 2);
            let rest = slice_of(line, 6, line.len());
            let val = trim_of(rest.as_slice());
            assert(tag@ =~= line@.take(2));
            assert(rest@ =~= line@.skip(6));
            if crate::text::eq_str(tag.as_slice(), "TY") || crate::text::eq_str(tag.as_slice(), "ER") {
                match cur {
                    Some(c) => {
                        refs.push(c);
                    },
                    None => {},
                }
                if crate::text::eq_str(tag.as_slice(), "TY") {
                    cur = Some(Reference::of_type(ris_type_of(val.as_slice())));
                } else {
                    cur = None;
                }
            } else {
                match cur {
                    Some(mut c) => {
                        ris_apply_to(&mut c, tag.as_slice(), val.as_slice());
                        cur = Some(c);
                    },
                    None => {
                        cur = None;
                    },
                }
            }
        }
    }
    assert(views(ls@).take(n as int) =~= views(ls@));
    match cur {
        Some(c) => refs.push(c),
        None => {},
    }
    Ok(refs)
}

// ── BibTeX import ────────────────────────────────────────────────────────────

/// The position of the first `{` or `(` in `e`.
pub open spec fn first_opening(e: Seq<char>) -> Option<int>
    decreases e.len(),
{
    if e.len() == 0 {
        None
    } else if e[0] == '{' || e[0] == '(' {
        Some(0)
    } else {
        match first_opening(e.drop_first()) {
            Some(i) => Some(i + 1),
            None => None,
        }
    }
}

/// The entry type's text: what comes before the entry's opening bracket.
pub open spec fn entry_head(e: Seq<char>) -> Seq<char> {
    match first_opening(e) {
        Some(i) => e.take(i),
        None => e,
    }
}

/// The reference type a (lower-case) BibTeX entry type stands for.
pub open spec fn bib_reference_type(t: Seq<char>) -> Seq<char> {
    if t == "article"@ {
        "Journal Article"@
    } else if t == "book"@ {
        "Book"@
    } else if t == "incollection"@ {
        "Book Chapter"@
    } else if t == "inproceedings"@ || t == "conference"@ {
        "Conference Paper"@
    } else if t == "phdthesis"@ || t == "mastersthesis"@ {
        "Thesis"@
    } else if t == "techreport"@ {
        "Report"@
    } else if t == "misc"@ {
        "Other"@
    } else {
        "Journal Article"@
    }
}

/// `s` without braces.
pub open spec fn without_braces(s: Seq<char>) -> Seq<char>
    decreases s.len(),
{
    if s.len() == 0 {
        seq![]
    } else if s.last() == '{' || s.last() == '}' {
        without_braces(s.drop_last())
    } else {
        without_braces(s.drop_last()).push(s.last())
    }
}

/// What a `key = value` field does to a record.
pub open spec fn bib_apply(r: RecordFields, key: Seq<char>, val: Seq<char>) -> RecordFields {
    if key == "title"@ {
        RecordFields { title: without_braces(val), ..r }
    } else if key == "author"@ {
        RecordFields { authors: split_on(val, " and "@).map_values(|a: Seq<char>| trim(a)), ..r }
    } else if key == "journal"@ || key == "booktitle"@ {
        RecordFields { journal: without_braces(val), ..r }
    } else if key == "year"@ {
        RecordFields { year: val, ..r }
    } else if key == "volume"@ {
        RecordFields { volume: val, ..r }
    } else if key == "number"@ {
        RecordFields { issue: val, ..r }
    } else if key == "pages"@ {
        RecordFields { pages: replace(val, "--"@, "-"@), ..r }
    } else if key == "publisher"@ {
        RecordFields { publisher: without_braces(val), ..r }
    } else if key == "doi"@ {
        RecordFields { doi: val, ..r }
    } else if key == "isbn"@ {
        RecordFields { isbn: val, ..r }
    } else if key == "issn"@ {
        RecordFields { issn: val, ..r }
    } else if key == "url"@ {
        RecordFields { url: val, ..r }
    } else if key == "abstract"@ {
        RecordFields { abstract_text: without_braces(val), ..r }
    } else if key == "keywords"@ {
        RecordFields { tags: nonempty_trimmed(split_char(val, ',')), ..r }
    } else if key == "note"@ {
        RecordFields { notes: val, ..r }
    } else if key == "language"@ {
        RecordFields { language: val, ..r }
    } else {
        r
    }
}

/// The raw value of a `key = value` line.
pub open spec fn field_raw(l: Seq<char>, eq: int) -> Seq<char> {
    trim(l.skip(eq + 1))
}

/// What one line of an entry does to its record.
pub open spec fn bib_line(r: RecordFields, raw: Seq<char>) -> RecordFields {
    let l = trim(raw);
    match index_of(l, '=') {
        Some(eq) => bib_apply(r, lowercase(trim(l.take(eq))), bibtex_value(field_raw(l, eq))),
        None => r,
    }
}

pub open spec fn bib_fold(r: RecordFields, ls: Seq<Seq<char>>) -> RecordFields
    decreases ls.len(),
{
    if ls.len() == 0 {
        r
    } else {
        bib_line(bib_fold(r, ls.drop_last()), ls.last())
    }
}

/// The record of one entry (the text after an `@`).
pub open spec fn bib_entry_record(e: Seq<char>) -> RecordFields {
    bib_fold(blank_fields(bib_reference_type(lowercase(trim(entry_head(e))))), lines(e))
}

pub open spec fn kept(r: RecordFields) -> bool {
    r.title.len() > 0 || r.authors.len() > 0
}

pub open spec fn bib_collect(es: Seq<Seq<char>>) -> Seq<RecordFields>
    decreases es.len(),
{
    if es.len() == 0 {
        seq![]
    } else {
        let rest = bib_collect(es.drop_last());
        let r = bib_entry_record(es.last());
        if kept(r) {
            rest.push(r)
        } else {
            rest
        }
    }
}

/// The records a BibTeX file holds, without their ids and dates: one per
/// entry that has a title or authors.
pub open spec fn bib_records(content: Seq<char>) -> Seq<RecordFields> {
    bib_collect(split_char(content, '@').skip(1))
}

/// Whether a line's field value can be unwrapped: it is not a lone `"`.
pub open spec fn bib_line_ok(raw: Seq<char>) -> bool {
    let l = trim(raw);
    match index_of(l, '=') {
        Some(eq) => bibtex_trimmed(field_raw(l, eq)) != seq!['"'],
        None => true,
    }
}

/// Whether no field value of the file is a lone double quote.
pub open spec fn bibtex_readable(content: Seq<char>) -> bool {
    forall|i: int, j: int|
        1 <= i < split_char(content, '@').len() && 0 <= j < lines(
            #[trigger] split_char(content, '@')[i],
        ).len() ==> bib_line_ok(#[trigger] lines(split_char(content, '@')[i])[j])
}

fn first_opening_of(e: &[char]) -> (r: Option<usize>)
    ensures
        match r {
            Some(i) => first_opening(e@) == Some(i as int) && i < e@.len(),
            None => first_opening(e@) is None,
        },
{
    let n = e.len();
    let mut i: usize = 0;
    assert(e@.skip(0) =~= e@);
    while i < n
        invariant
            n == e@.len(),
            i <= n,
            first_opening(e@) == match first_opening(e@.skip(i as int)) {
                Some(k) => Some(k + i),
                None => None::<int>,
            },
        decreases n - i,
    {
        assert(e@.skip(i as int)[0] == e@[i as int]);
        if e[i] == '{' || e[i] == '(' {
            return Some(i);
        }
        assert(e@.skip(i as int).drop_first() =~= e@.skip(i + 1));
        i += 1;
    }
    None
}

fn without_braces_of(s: &[char]) -> (r: Vec<char>)
    ensures
        r@ == without_braces(s@),
{
    let mut out: Vec<char> = Vec::new();
    let n = s.len();
    for i in 0..n
        invariant
            n == s@.len(),
            out@ == without_braces(s@.take(i as int)),
    {
        assert(s@.take(i + 1).drop_last() =~= s@.take(i as int));
        if s[i] != '{' && s[i] != '}' {
            out.push(s[i]);
        }
    }
    assert(s@.take(n as int) =~= s@);
    out
}

fn lower(s: &[char]) -> (r: Vec<char>)
    ensures
        r@ == lowercase(s@),
{
    let st = string_of(s);
    let l = to_lowercase(st.as_str());
    chars_of(l.as_str())
}

fn trimmed_strings(parts: &Vec<Vec<char>>) -> (r: Vec<String>)
    ensures
        strs(r@) == views(parts@).map_values(|a: Seq<char>| trim(a)),
{
    let mut r: Vec<String> = Vec::new();
    let n = parts.len();
    for i in 0..n
        invariant
            n == parts@.len(),
            strs(r@) == views(parts@).map_values(|a: Seq<char>| trim(a)).take(i as int),
    {
        let t = trim_of(parts[i].as_slice());
        let ghost before = r@;
        r.push(string_of(t.as_slice()));
        assert(strs(r@) =~= strs(before).push(t@));
        assert(views(parts@).map_values(|a: Seq<char>| trim(a)).take(i + 1) =~= views(parts@).map_values(
            |a: Seq<char>| trim(a),
        ).take(i as int).push(trim(parts@[i as int]@)));
    }
    assert(views(parts@).map_values(|a: Seq<char>| trim(a)).take(n as int) =~= views(parts@).map_values(
        |a: Seq<char>| trim(a),
    ));
    r
}

fn nonempty_strings(parts: &Vec<Vec<char>>) -> (r: Vec<String>)
    ensures
        strs(r@) == nonempty_trimmed(views(parts@)),
{
    let mut r: Vec<String> = Vec::new();
    let n = parts.len();
    for i in 0..n
        invariant
            n == parts@.len(),
            strs(r@) == nonempty_trimmed(views(parts@).take(i as int)),
    {
        assert(views(parts@).take(i + 1).drop_last() =~= views(parts@).take(i as int));
        assert(views(parts@).take(i + 1).last() == parts@[i as int]@);
        let t = trim_of(parts[i].as_slice());
        if t.len() > 0 {
            let ghost before = r@;
            r.push(string_of(t.as_slice()));
            assert(strs(r@) =~= strs(before).push(t@));
        }
    }
    assert(views(parts@).take(n as int) =~= views(parts@));
    r
}

fn bib_apply_to(r: &mut Reference, key: &[char], val: &[char])
    ensures
        fields(*final(r)) == bib_apply(fields(*old(r)), key@, val@),
        final(r).id == old(r).id,
        final(r).date_added == old(r).date_added,
        final(r).date_modified == old(r).date_modified,
{
    let v = string_of(val);
    if crate::text::eq_str(key, "title") {
        r.title = string_of(without_braces_of(val).as_slice());
    } else if crate::text::eq_str(key, "author") {
        proof {
            reveal_strlit(" and ");
        }
        let parts = split_on_of(val, " and ");
        r.authors = trimmed_strings(&parts);
    } else if crate::text::eq_str(key, "journal") || crate::text::eq_str(key, "booktitle") {
        r.journal = string_of(without_braces_of(val).as_slice());
    } else if crate::text::eq_str(key, "year") {
        r.year = v;
    } else if crate::text::eq_str(key, "volume") {
        r.volume = v;
    } else if crate::text::eq_str(key, "number") {
        r.issue = v;
    } else if crate::text::eq_str(key, "pages") {
        proof {
            reveal_strlit("--");
        }
        r.pages = string_of(replace_str(val, "--", "-").as_slice());
    } else if crate::text::eq_str(key, "publisher") {
        r.publisher = string_of(without_braces_of(val).as_slice());
    } else if crate::text::eq_str(key, "doi") {
        r.doi = v;
    } else if crate::text::eq_str(key, "isbn") {
        r.isbn = v;
    } else if crate::text::eq_str(key, "issn") {
        r.issn = v;
    } else if crate::text::eq_str(key, "url") {
        r.url = v;
    } else if crate::text::eq_str(key, "abstract") {
        r.abstract_text = string_of(without_braces_of(val).as_slice());
    } else if crate::text::eq_str(key, "keywords") {
        let parts = split_char_of(val, ',');
        r.tags = nonempty_strings(&parts);
    } else if crate::text::eq_str(key, "note") {
        r.notes = v;
    } else if crate::text::eq_str(key, "language") {
        r.language = v;
    }
    assert(fields(*r) =~= bib_apply(fields(*old(r)), key@, val@));
}

fn bib_line_to(r: &mut Reference, raw: &[char])
    requires
        bib_line_ok(raw@),
    ensures
        fields(*final(r)) == bib_line(fields(*old(r)), raw@),
        final(r).id == old(r).id,
        final(r).date_added == old(r).date_added,
        final(r).date_modified == old(r).date_modified,
{
    let l = trim_of(raw);
    match crate::text::find_char(l.as_slice(), '=') {
        Some(eq) => {
            proof {
                crate::text::lemma_find_bounds(l@, seq!['=']);
                assert(seq!['='].len() == 1);
                assert(crate::text::find(l@, seq!['=']) == Some(eq as int));
            }
            let n = l.len();
            assert(eq < n);
            let key_part = slice_of(l.as_slice(), 0, eq);
            let raw_part = slice_of(l.as_slice(), eq + 1, n);
            assert(key_part@ =~= l@.take(eq as int));
            assert(raw_part@ =~= l@.skip(eq + 1));
            let key = lower(trim_of(key_part.as_slice()).as_slice());
            let rv = trim_of(raw_part.as_slice());
            let rs = string_of(rv.as_slice());
            let val = strip_bibtex_val(rs.as_str());
            let vv = chars_of(val.as_str());
            bib_apply_to(r, key.as_slice(), vv.as_slice());
        },
        None => {},
    }
}

/// Reads the entries of a BibTeX file: one record for each entry with a
/// title or authors, with a fresh id and today's date.
pub fn import_bibtex(content: String) -> (r: Result<Vec<Reference>, String>)
    requires
        bibtex_readable(content@),
    ensures
        r matches Ok(refs) && refs@.len() == bib_records(content@).len() && forall|i: int|
            0 <= i < refs@.len() ==> fields(#[trigger] refs@[i]) == bib_records(content@)[i],
{
    let src = chars_of(content.as_str());
    let entries = split_char_of(src.as_slice(), '@');
    let ghost es = views(entries@);
    let mut refs: Vec<Reference> = Vec::new();
    let n = entries.len();
    let mut i: usize = 1;
    assert(es.skip(1).take(0) =~= Seq::<Seq<char>>::empty());
    while i < n
        invariant
            n == entries@.len(),
            1 <= i <= n,
            es == views(entries@),
            es == split_char(src@, '@'),
            src@ == content@,
            bibtex_readable(content@),
            refs@.len() == bib_collect(es.skip(1).take(i - 1)).len(),
            forall|k: int| 0 <= k < refs@.len() ==> fields(#[trigger] refs@[k]) == bib_collect(
                es.skip(1).take(i - 1),
            )[k],
        decreases n - i,
    {
        assert(es.skip(1).take(i as int).drop_last() =~= es.skip(1).take(i - 1));
        assert(es.skip(1).take(i as int).last() == entries@[i as int]@);
        let e = entries[i].as_slice();
        let head: Vec<char> = match first_opening_of(e) {
            Some(k) => slice_of(e, 0, k),
            None => copy_chars(e),
        };
        assert(head@ =~= entry_head(e@));
        let t = lower(trim_of(head.as_slice()).as_slice());
        let mut r = Reference::of_type(String::from_str(bib_type_name(t.as_slice())));
        let ls = lines_of(e);
        let m = ls.len();
        assert(views(ls@).take(0) =~= Seq::<Seq<char>>::empty());
        for j in 0..m
            invariant
                m == ls@.len(),
                views(ls@) == lines(e@),
                e@ == es[i as int],
                1 <= i < es.len(),
                bibtex_readable(content@),
                es == split_char(content@, '@'),
                fields(r) == bib_fold(
                    blank_fields(bib_reference_type(lowercase(trim(entry_head(e@))))),
                    views(ls@).take(j as int),
                ),
        {
            assert(views(ls@).take(j + 1).drop_last() =~= views(ls@).take(j as int));
            assert(views(ls@).take(j + 1).last() == ls@[j as int]@);
            assert(bib_line_ok(lines(split_char(content@, '@')[i as int])[j as int]));
            bib_line_to(&mut r, ls[j].as_slice());
        }
        assert(views(ls@).take(m as int) =~= views(ls@));
        if chars_of(r.title.as_str()).len() > 0 || r.authors.len() > 0 {
            refs.push(r);
        }
        i += 1;
    }
    assert(es.skip(1).take(n - 1) =~= es.skip(1));
    Ok(refs)
}

fn bib_type_name(t: &[char]) -> (s: &'static str)
    ensures
        s@ == bib_reference_type(t@),
{
    if crate::text::eq_str(t, "article") {
        "Journal Article"
    } else if crate::text::eq_str(t, "book") {
        "Book"
    } else if crate::text::eq_str(t, "incollection") {
        "Book Chapter"
    } else if crate::text::eq_str(t, "inproceedings") || crate::text::eq_str(t, "conference") {
        "Conference Paper"
    } else if crate::text::eq_str(t, "phdthesis") || crate::text::eq_str(t, "mastersthesis") {
        "Thesis"
    } else if crate::text::eq_str(t, "techreport") {
        "Report"
    } else if crate::text::eq_str(t, "misc") {
        "Other"
    } else {
        "Journal Article"
    }
}

/// A tag line fills one field of the open record and leaves the rest of
/// it, and the records already closed, unchanged: `T1`/`TI` set the title,
/// `AB` the abstract, `JO` the journal, `DO` the DOI, `VL` the volume, `IS`
/// the issue, `PB` the publisher, `UR` the URL, `LA` the language, `N1` the
/// notes, each to the trimmed text after the tag; `AU` adds an author.
pub proof fn law_ris_tag_sets_its_field(st: RisState, raw: Seq<char>)
    requires
        is_tag_line(trim(raw)),
        st.cur is Some,
    ensures
        ({
            let line = trim(raw);
            let val = trim(line.skip(6));
            let r = st.cur->0;
            &&& line.take(2) == "T1"@ ==> ris_step(st, raw) == (RisState { cur: Some(RecordFields { title: val, ..r }), ..st })
            &&& line.take(2) == "TI"@ ==> ris_step(st, raw) == (RisState { cur: Some(RecordFields { title: val, ..r }), ..st })
            &&& line.take(2) == "AB"@ ==> ris_step(st, raw) == (RisState { cur: Some(RecordFields { abstract_text: val, ..r }), ..st })
            &&& line.take(2) == "JO"@ ==> ris_step(st, raw) == (RisState { cur: Some(RecordFields { journal: val, ..r }), ..st })
            &&& line.take(2) == "DO"@ ==> ris_step(st, raw) == (RisState { cur: Some(RecordFields { doi: val, ..r }), ..st })
            &&& line.take(2) == "VL"@ ==> ris_step(st, raw) == (RisState { cur: Some(RecordFields { volume: val, ..r }), ..st })
            &&& line.take(2) == "IS"@ ==> ris_step(st, raw) == (RisState { cur: Some(RecordFields { issue: val, ..r }), ..st })
            &&& line.take(2) == "PB"@ ==> ris_step(st, raw) == (RisState { cur: Some(RecordFields { publisher: val, ..r }), ..st })
            &&& line.take(2) == "UR"@ ==> ris_step(st, raw) == (RisState { cur: Some(RecordFields { url: val, ..r }), ..st })
            &&& line.take(2) == "LA"@ ==> ris_step(st, raw) == (RisState { cur: Some(RecordFields { language: val, ..r }), ..st })
            &&& line.take(2) == "N1"@ ==> ris_step(st, raw) == (RisState { cur: Some(RecordFields { notes: val, ..r }), ..st })
            &&& line.take(2) == "AU"@ ==> ris_step(st, raw) == (RisState { cur: Some(RecordFields { authors: r.authors.push(val), ..r }), ..st })
        }),
{
    reveal_strlit("TY");
    reveal_strlit("ER");
    reveal_strlit("T1");
    reveal_strlit("TI");
    reveal_strlit("AU");
    reveal_strlit("A1");
    reveal_strlit("AB");
    reveal_strlit("JO");
    reveal_strlit("JF");
    reveal_strlit("T2");
    reveal_strlit("J2");
    reveal_strlit("DO");
    reveal_strlit("PY");
    reveal_strlit("Y1");
    reveal_strlit("VL");
    reveal_strlit("IS");
    reveal_strlit("SP");
    reveal_strlit("EP");
    reveal_strlit("PB");
    reveal_strlit("SN");
    reveal_strlit("UR");
    reveal_strlit("LA");
    reveal_strlit("KW");
    reveal_strlit("N1");
    reveal_strlit("N2");
    assert("ER"@[0] != "TY"@[0]);
    assert("T1"@[1] != "TY"@[1]);
    assert("T1"@[0] != "ER"@[0]);
    assert("TI"@[1] != "TY"@[1]);
    assert("TI"@[0] != "ER"@[0]);
    assert("TI"@[1] != "T1"@[1]);
    assert("AU"@[0] != "TY"@[0]);
    assert("AU"@[0] != "ER"@[0]);
    assert("AU"@[0] != "T1"@[0]);
    assert("AU"@[0] != "TI"@[0]);
    assert("A1"@[0] != "TY"@[0]);
    assert("A1"@[0] != "ER"@[0]);
    assert("A1"@[0] != "T1"@[0]);
    assert("A1"@[0] != "TI"@[0]);
    assert("A1"@[1] != "AU"@[1]);
    assert("AB"@[0] != "TY"@[0]);
    assert("AB"@[0] != "ER"@[0]);
    assert("AB"@[0] != "T1"@[0]);
    assert("AB"@[0] != "TI"@[0]);
    assert("AB"@[1] != "AU"@[1]);
    assert("AB"@[1] != "A1"@[1]);
    assert("JO"@[0] != "TY"@[0]);
    assert("JO"@[0] != "ER"@[0]);
    assert("JO"@[0] != "T1"@[0]);
    assert("JO"@[0] != "TI"@[0]);
    assert("JO"@[0] != "AU"@[0]);
    assert("JO"@[0] != "A1"@[0]);
    assert("JO"@[0] != "AB"@[0]);
    assert("JF"@[0] != "TY"@[0]);
    assert("JF"@[0] != "ER"@[0]);
    assert("JF"@[0] != "T1"@[0]);
    assert("JF"@[0] != "TI"@[0]);
    assert("JF"@[0] != "AU"@[0]);
    assert("JF"@[0] != "A1"@[0]);
    assert("JF"@[0] != "AB"@[0]);
    assert("JF"@[1] != "JO"@[1]);
    assert("T2"@[1] != "TY"@[1]);
    assert("T2"@[0] != "ER"@[0]);
    assert("T2"@[1] != "T1"@[1]);
    assert("T2"@[1] != "TI"@[1]);
    assert("T2"@[0] != "AU"@[0]);
    assert("T2"@[0] != "A1"@[0]);
    assert("T2"@[0] != "AB"@[0]);
    assert("T2"@[0] != "JO"@[0]);
    assert("T2"@[0] != "JF"@[0]);
    assert("J2"@[0] != "TY"@[0]);
    assert("J2"@[0] != "ER"@[0]);
    assert("J2"@[0] != "T1"@[0]);
    assert("J2"@[0] != "TI"@[0]);
    assert("J2"@[0] != "AU"@[0]);
    assert("J2"@[0] != "A1"@[0]);
    assert("J2"@[0] != "AB"@[0]);
    assert("J2"@[1] != "JO"@[1]);
    assert("J2"@[1] != "JF"@[1]);
    assert("J2"@[0] != "T2"@[0]);
    assert("DO"@[0] != "TY"@[0]);
    assert("DO"@[0] != "ER"@[0]);
    assert("DO"@[0] != "T1"@[0]);
    assert("DO"@[0] != "TI"@[0]);
    assert("DO"@[0] != "AU"@[0]);
    assert("DO"@[0] != "A1"@[0]);
    assert("DO"@[0] != "AB"@[0]);
    assert("DO"@[0] != "JO"@[0]);
    assert("DO"@[0] != "JF"@[0]);
    assert("DO"@[0] != "T2"@[0]);
    assert("DO"@[0] != "J2"@[0]);
    assert("PY"@[0] != "TY"@[0]);
    assert("PY"@[0] != "ER"@[0]);
    assert("PY"@[0] != "T1"@[0]);
    assert("PY"@[0] != "TI"@[0]);
    assert("PY"@[0] != "AU"@[0]);
    assert("PY"@[0] != "A1"@[0]);
    assert("PY"@[0] != "AB"@[0]);
    assert("PY"@[0] != "JO"@[0]);
    assert("PY"@[0] != "JF"@[0]);
    assert("PY"@[0] != "T2"@[0]);
    assert("PY"@[0] != "J2"@[0]);
    assert("PY"@[0] != "DO"@[0]);
    assert("Y1"@[0] != "TY"@[0]);
    assert("Y1"@[0] != "ER"@[0]);
    assert("Y1"@[0] != "T1"@[0]);
    assert("Y1"@[0] != "TI"@[0]);
    assert("Y1"@[0] != "AU"@[0]);
    assert("Y1"@[0] != "A1"@[0]);
    assert("Y1"@[0] != "AB"@[0]);
    assert("Y1"@[0] != "JO"@[0]);
    assert("Y1"@[0] != "JF"@[0]);
    assert("Y1"@[0] != "T2"@[0]);
    assert("Y1"@[0] != "J2"@[0]);
    assert("Y1"@[0] != "DO"@[0]);
    assert("Y1"@[0] != "PY"@[0]);
    assert("VL"@[0] != "TY"@[0]);
    assert("VL"@[0] != "ER"@[0]);
    assert("VL"@[0] != "T1"@[0]);
    assert("VL"@[0] != "TI"@[0]);
    assert("VL"@[0] != "AU"@[0]);
    assert("VL"@[0] != "A1"@[0]);
    assert("VL"@[0] != "AB"@[0]);
    assert("VL"@[0] != "JO"@[0]);
    assert("VL"@[0] != "JF"@[0]);
    assert("VL"@[0] != "T2"@[0]);
    assert("VL"@[0] != "J2"@[0]);
    assert("VL"@[0] != "DO"@[0]);
    assert("VL"@[0] != "PY"@[0]);
    assert("VL"@[0] != "Y1"@[0]);
    assert("IS"@[0] != "TY"@[0]);
    assert("IS"@[0] != "ER"@[0]);
    assert("IS"@[0] != "T1"@[0]);
    assert("IS"@[0] != "TI"@[0]);
    assert("IS"@[0] != "AU"@[0]);
    assert("IS"@[0] != "A1"@[0]);
    assert("IS"@[0] != "AB"@[0]);
    assert("IS"@[0] != "JO"@[0]);
    assert("IS"@[0] != "JF"@[0]);
    assert("IS"@[0] != "T2"@[0]);
    assert("IS"@[0] != "J2"@[0]);
    assert("IS"@[0] != "DO"@[0]);
    assert("IS"@[0] != "PY"@[0]);
    assert("IS"@[0] != "Y1"@[0]);
    assert("IS"@[0] != "VL"@[0]);
    assert("SP"@[0] != "TY"@[0]);
    assert("SP"@[0] != "ER"@[0]);
    assert("SP"@[0] != "T1"@[0]);
    assert("SP"@[0] != "TI"@[0]);
    assert("SP"@[0] != "AU"@[0]);
    assert("SP"@[0] != "A1"@[0]);
    assert("SP"@[0] != "AB"@[0]);
    assert("SP"@[0] != "JO"@[0]);
    assert("SP"@[0] != "JF"@[0]);
    assert("SP"@[0] != "T2"@[0]);
    assert("SP"@[0] != "J2"@[0]);
    assert("SP"@[0] != "DO"@[0]);
    assert("SP"@[0] != "PY"@[0]);
    assert("SP"@[0] != "Y1"@[0]);
    assert("SP"@[0] != "VL"@[0]);
    assert("SP"@[0] != "IS"@[0]);
    assert("EP"@[0] != "TY"@[0]);
    assert("EP"@[1] != "ER"@[1]);
    assert("EP"@[0] != "T1"@[0]);
    assert("EP"@[0] != "TI"@[0]);
    assert("EP"@[0] != "AU"@[0]);
    assert("EP"@[0] != "A1"@[0]);
    assert("EP"@[0] != "AB"@[0]);
    assert("EP"@[0] != "JO"@[0]);
    assert("EP"@[0] != "JF"@[0]);
    assert("EP"@[0] != "T2"@[0]);
    assert("EP"@[0] != "J2"@[0]);
    assert("EP"@[0] != "DO"@[0]);
    assert("EP"@[0] != "PY"@[0]);
    assert("EP"@[0] != "Y1"@[0]);
    assert("EP"@[0] != "VL"@[0]);
    assert("EP"@[0] != "IS"@[0]);
    assert("EP"@[0] != "SP"@[0]);
    assert("PB"@[0] != "TY"@[0]);
    assert("PB"@[0] != "ER"@[0]);
    assert("PB"@[0] != "T1"@[0]);
    assert("PB"@[0] != "TI"@[0]);
    assert("PB"@[0] != "AU"@[0]);
    assert("PB"@[0] != "A1"@[0]);
    assert("PB"@[0] != "AB"@[0]);
    assert("PB"@[0] != "JO"@[0]);
    assert("PB"@[0] != "JF"@[0]);
    assert("PB"@[0] != "T2"@[0]);
    assert("PB"@[0] != "J2"@[0]);
    assert("PB"@[0] != "DO"@[0]);
    assert("PB"@[1] != "PY"@[1]);
    assert("PB"@[0] != "Y1"@[0]);
    assert("PB"@[0] != "VL"@[0]);
    assert("PB"@[0] != "IS"@[0]);
    assert("PB"@[0] != "SP"@[0]);
    assert("PB"@[0] != "EP"@[0]);
    assert("SN"@[0] != "TY"@[0]);
    assert("SN"@[0] != "ER"@[0]);
    assert("SN"@[0] != "T1"@[0]);
    assert("SN"@[0] != "TI"@[0]);
    assert("SN"@[0] != "AU"@[0]);
    assert("SN"@[0] != "A1"@[0]);
    assert("SN"@[0] != "AB"@[0]);
    assert("SN"@[0] != "JO"@[0]);
    assert("SN"@[0] != "JF"@[0]);
    assert("SN"@[0] != "T2"@[0]);
    assert("SN"@[0] != "J2"@[0]);
    assert("SN"@[0] != "DO"@[0]);
    assert("SN"@[0] != "PY"@[0]);
    assert("SN"@[0] != "Y1"@[0]);
    assert("SN"@[0] != "VL"@[0]);
    assert("SN"@[0] != "IS"@[0]);
    assert("SN"@[1] != "SP"@[1]);
    assert("SN"@[0] != "EP"@[0]);
    assert("SN"@[0] != "PB"@[0]);
    assert("UR"@[0] != "TY"@[0]);
    assert("UR"@[0] != "ER"@[0]);
    assert("UR"@[0] != "T1"@[0]);
    assert("UR"@[0] != "TI"@[0]);
    assert("UR"@[0] != "AU"@[0]);
    assert("UR"@[0] != "A1"@[0]);
    assert("UR"@[0] != "AB"@[0]);
    assert("UR"@[0] != "JO"@[0]);
    assert("UR"@[0] != "JF"@[0]);
    assert("UR"@[0] != "T2"@[0]);
    assert("UR"@[0] != "J2"@[0]);
    assert("UR"@[0] != "DO"@[0]);
    assert("UR"@[0] != "PY"@[0]);
    assert("UR"@[0] != "Y1"@[0]);
    assert("UR"@[0] != "VL"@[0]);
    assert("UR"@[0] != "IS"@[0]);
    assert("UR"@[0] != "SP"@[0]);
    assert("UR"@[0] != "EP"@[0]);
    assert("UR"@[0] != "PB"@[0]);
    assert("UR"@[0] != "SN"@[0]);
    assert("LA"@[0] != "TY"@[0]);
    assert("LA"@[0] != "ER"@[0]);
    assert("LA"@[0] != "T1"@[0]);
    assert("LA"@[0] != "TI"@[0]);
    assert("LA"@[0] != "AU"@[0]);
    assert("LA"@[0] != "A1"@[0]);
    assert("LA"@[0] != "AB"@[0]);
    assert("LA"@[0] != "JO"@[0]);
    assert("LA"@[0] != "JF"@[0]);
    assert("LA"@[0] != "T2"@[0]);
    assert("LA"@[0] != "J2"@[0]);
    assert("LA"@[0] != "DO"@[0]);
    assert("LA"@[0] != "PY"@[0]);
    assert("LA"@[0] != "Y1"@[0]);
    assert("LA"@[0] != "VL"@[0]);
    assert("LA"@[0] != "IS"@[0]);
    assert("LA"@[0] != "SP"@[0]);
    assert("LA"@[0] != "EP"@[0]);
    assert("LA"@[0] != "PB"@[0]);
    assert("LA"@[0] != "SN"@[0]);
    assert("LA"@[0] != "UR"@[0]);
    assert("KW"@[0] != "TY"@[0]);
    assert("KW"@[0] != "ER"@[0]);
    assert("KW"@[0] != "T1"@[0]);
    assert("KW"@[0] != "TI"@[0]);
    assert("KW"@[0] != "AU"@[0]);
    assert("KW"@[0] != "A1"@[0]);
    assert("KW"@[0] != "AB"@[0]);
    assert("KW"@[0] != "JO"@[0]);
    assert("KW"@[0] != "JF"@[0]);
    assert("KW"@[0] != "T2"@[0]);
    assert("KW"@[0] != "J2"@[0]);
    assert("KW"@[0] != "DO"@[0]);
    assert("KW"@[0] != "PY"@[0]);
    assert("KW"@[0] != "Y1"@[0]);
    assert("KW"@[0] != "VL"@[0]);
    assert("KW"@[0] != "IS"@[0]);
    assert("KW"@[0] != "SP"@[0]);
    assert("KW"@[0] != "EP"@[0]);
    assert("KW"@[0] != "PB"@[0]);
    assert("KW"@[0] != "SN"@[0]);
    assert("KW"@[0] != "UR"@[0]);
    assert("KW"@[0] != "LA"@[0]);
    assert("N1"@[0] != "TY"@[0]);
    assert("N1"@[0] != "ER"@[0]);
    assert("N1"@[0] != "T1"@[0]);
    assert("N1"@[0] != "TI"@[0]);
    assert("N1"@[0] != "AU"@[0]);
    assert("N1"@[0] != "A1"@[0]);
    assert("N1"@[0] != "AB"@[0]);
    assert("N1"@[0] != "JO"@[0]);
    assert("N1"@[0] != "JF"@[0]);
    assert("N1"@[0] != "T2"@[0]);
    assert("N1"@[0] != "J2"@[0]);
    assert("N1"@[0] != "DO"@[0]);
    assert("N1"@[0] != "PY"@[0]);
    assert("N1"@[0] != "Y1"@[0]);
    assert("N1"@[0] != "VL"@[0]);
    assert("N1"@[0] != "IS"@[0]);
    assert("N1"@[0] != "SP"@[0]);
    assert("N1"@[0] != "EP"@[0]);
    assert("N1"@[0] != "PB"@[0]);
    assert("N1"@[0] != "SN"@[0]);
    assert("N1"@[0] != "UR"@[0]);
    assert("N1"@[0] != "LA"@[0]);
    assert("N1"@[0] != "KW"@[0]);
    assert("N2"@[0] != "TY"@[0]);
    assert("N2"@[0] != "ER"@[0]);
    assert("N2"@[0] != "T1"@[0]);
    assert("N2"@[0] != "TI"@[0]);
    assert("N2"@[0] != "AU"@[0]);
    assert("N2"@[0] != "A1"@[0]);
    assert("N2"@[0] != "AB"@[0]);
    assert("N2"@[0] != "JO"@[0]);
    assert("N2"@[0] != "JF"@[0]);
    assert("N2"@[0] != "T2"@[0]);
    assert("N2"@[0] != "J2"@[0]);
    assert("N2"@[0] != "DO"@[0]);
    assert("N2"@[0] != "PY"@[0]);
    assert("N2"@[0] != "Y1"@[0]);
    assert("N2"@[0] != "VL"@[0]);
    assert("N2"@[0] != "IS"@[0]);
    assert("N2"@[0] != "SP"@[0]);
    assert("N2"@[0] != "EP"@[0]);
    assert("N2"@[0] != "PB"@[0]);
    assert("N2"@[0] != "SN"@[0]);
    assert("N2"@[0] != "UR"@[0]);
    assert("N2"@[0] != "LA"@[0]);
    assert("N2"@[0] != "KW"@[0]);
    assert("N2"@[1] != "N1"@[1]);
}

/// A BibTeX field fills one field of the record and leaves the rest
/// unchanged: `title`, `journal` (or `booktitle`), `publisher` and
/// `abstract` their fields without braces; `year`, `volume`, `doi`,
/// `isbn`, `issn`, `url`, `note` and `language` their fields as given; and
/// `number` the issue.
pub proof fn law_bibtex_field_sets_its_field(r: RecordFields, key: Seq<char>, val: Seq<char>)
    ensures
        key == "title"@ ==> bib_apply(r, key, val) == (RecordFields { title: without_braces(val), ..r }),
        key == "journal"@ ==> bib_apply(r, key, val) == (RecordFields { journal: without_braces(val), ..r }),
        key == "booktitle"@ ==> bib_apply(r, key, val) == (RecordFields { journal: without_braces(val), ..r }),
        key == "year"@ ==> bib_apply(r, key, val) == (RecordFields { year: val, ..r }),
        key == "volume"@ ==> bib_apply(r, key, val) == (RecordFields { volume: val, ..r }),
        key == "number"@ ==> bib_apply(r, key, val) == (RecordFields { issue: val, ..r }),
        key == "publisher"@ ==> bib_apply(r, key, val) == (RecordFields { publisher: without_braces(val), ..r }),
        key == "doi"@ ==> bib_apply(r, key, val) == (RecordFields { doi: val, ..r }),
        key == "isbn"@ ==> bib_apply(r, key, val) == (RecordFields { isbn: val, ..r }),
        key == "issn"@ ==> bib_apply(r, key, val) == (RecordFields { issn: val, ..r }),
        key == "url"@ ==> bib_apply(r, key, val) == (RecordFields { url: val, ..r }),
        key == "abstract"@ ==> bib_apply(r, key, val) == (RecordFields { abstract_text: without_braces(val), ..r }),
        key == "note"@ ==> bib_apply(r, key, val) == (RecordFields { notes: val, ..r }),
        key == "language"@ ==> bib_apply(r, key, val) == (RecordFields { language: val, ..r }),
{
    reveal_strlit("title");
    reveal_strlit("author");
    reveal_strlit("journal");
    reveal_strlit("booktitle");
    reveal_strlit("year");
    reveal_strlit("volume");
    reveal_strlit("number");
    reveal_strlit("pages");
    reveal_strlit("publisher");
    reveal_strlit("doi");
    reveal_strlit("isbn");
    reveal_strlit("issn");
    reveal_strlit("url");
    reveal_strlit("abstract");
    reveal_strlit("keywords");
    reveal_strlit("note");
    reveal_strlit("language");
    assert("author"@.len() != "title"@.len());
    assert("journal"@.len() != "title"@.len());
    assert("journal"@.len() != "author"@.len());
    assert("booktitle"@.len() != "title"@.len());
    assert("booktitle"@.len() != "author"@.len());
    assert("booktitle"@.len() != "journal"@.len());
    assert("year"@.len() != "title"@.len());
    assert("year"@.len() != "author"@.len());
    assert("year"@.len() != "journal"@.len());
    assert("year"@.len() != "booktitle"@.len());
    assert("volume"@.len() != "title"@.len());
    assert("volume"@[0] != "author"@[0]);
    assert("volume"@.len() != "journal"@.len());
    assert("volume"@.len() != "booktitle"@.len());
    assert("volume"@.len() != "year"@.len());
    assert("number"@.len() != "title"@.len());
    assert("number"@[0] != "author"@[0]);
    assert("number"@.len() != "journal"@.len());
    assert("number"@.len() != "booktitle"@.len());
    assert("number"@.len() != "year"@.len());
    assert("number"@[0] != "volume"@[0]);
    assert("pages"@[0] != "title"@[0]);
    assert("pages"@.len() != "author"@.len());
    assert("pages"@.len() != "journal"@.len());
    assert("pages"@.len() != "booktitle"@.len());
    assert("pages"@.len() != "year"@.len());
    assert("pages"@.len() != "volume"@.len());
    assert("pages"@.len() != "number"@.len());
    assert("publisher"@.len() != "title"@.len());
    assert("publisher"@.len() != "author"@.len());
    assert("publisher"@.len() != "journal"@.len());
    assert("publisher"@[0] != "booktitle"@[0]);
    assert("publisher"@.len() != "year"@.len());
    assert("publisher"@.len() != "volume"@.len());
    assert("publisher"@.len() != "number"@.len());
    assert("publisher"@.len() != "pages"@.len());
    assert("doi"@.len() != "title"@.len());
    assert("doi"@.len() != "author"@.len());
    assert("doi"@.len() != "journal"@.len());
    assert("doi"@.len() != "booktitle"@.len());
    assert("doi"@.len() != "year"@.len());
    assert("doi"@.len() != "volume"@.len());
    assert("doi"@.len() != "number"@.len());
    assert("doi"@.len() != "pages"@.len());
    assert("doi"@.len() != "publisher"@.len());
    assert("isbn"@.len() != "title"@.len());
    assert("isbn"@.len() != "author"@.len());
    assert("isbn"@.len() != "journal"@.len());
    assert("isbn"@.len() != "booktitle"@.len());
    assert("isbn"@[0] != "year"@[0]);
    assert("isbn"@.len() != "volume"@.len());
    assert("isbn"@.len() != "number"@.len());
    assert("isbn"@.len() != "pages"@.len());
    assert("isbn"@.len() != "publisher"@.len());
    assert("isbn"@.len() != "doi"@.len());
    assert("issn"@.len() != "title"@.len());
    assert("issn"@.len() != "author"@.len());
    assert("issn"@.len() != "journal"@.len());
    assert("issn"@.len() != "booktitle"@.len());
    assert("issn"@[0] != "year"@[0]);
    assert("issn"@.len() != "volume"@.len());
    assert("issn"@.len() != "number"@.len());
    assert("issn"@.len() != "pages"@.len());
    assert("issn"@.len() != "publisher"@.len());
    assert("issn"@.len() != "doi"@.len());
    assert("issn"@[2] != "isbn"@[2]);
    assert("url"@.len() != "title"@.len());
    assert("url"@.len() != "author"@.len());
    assert("url"@.len() != "journal"@.len());
    assert("url"@.len() != "booktitle"@.len());
    assert("url"@.len() != "year"@.len());
    assert("url"@.len() != "volume"@.len());
    assert("url"@.len() != "number"@.len());
    assert("url"@.len() != "pages"@.len());
    assert("url"@.len() != "publisher"@.len());
    assert("url"@[0] != "doi"@[0]);
    assert("url"@.len() != "isbn"@.len());
    assert("url"@.len() != "issn"@.len());
    assert("abstract"@.len() != "title"@.len());
    assert("abstract"@.len() != "author"@.len());
    assert("abstract"@.len() != "journal"@.len());
    assert("abstract"@.len() != "booktitle"@.len());
    assert("abstract"@.len() != "year"@.len());
    assert("abstract"@.len() != "volume"@.len());
    assert("abstract"@.len() != "number"@.len());
    assert("abstract"@.len() != "pages"@.len());
    assert("abstract"@.len() != "publisher"@.len());
    assert("abstract"@.len() != "doi"@.len());
    assert("abstract"@.len() != "isbn"@.len());
    assert("abstract"@.len() != "issn"@.len());
    assert("abstract"@.len() != "url"@.len());
    assert("keywords"@.len() != "title"@.len());
    assert("keywords"@.len() != "author"@.len());
    assert("keywords"@.len() != "journal"@.len());
    assert("keywords"@.len() != "booktitle"@.len());
    assert("keywords"@.len() != "year"@.len());
    assert("keywords"@.len() != "volume"@.len());
    assert("keywords"@.len() != "number"@.len());
    assert("keywords"@.len() != "pages"@.len());
    assert("keywords"@.len() != "publisher"@.len());
    assert("keywords"@.len() != "doi"@.len());
    assert("keywords"@.len() != "isbn"@.len());
    assert("keywords"@.len() != "issn"@.len());
    assert("keywords"@.len() != "url"@.len());
    assert("keywords"@[0] != "abstract"@[0]);
    assert("note"@.len() != "title"@.len());
    assert("note"@.len() != "author"@.len());
    assert("note"@.len() != "journal"@.len());
    assert("note"@.len() != "booktitle"@.len());
    assert("note"@[0] != "year"@[0]);
    assert("note"@.len() != "volume"@.len());
    assert("note"@.len() != "number"@.len());
    assert("note"@.len() != "pages"@.len());
    assert("note"@.len() != "publisher"@.len());
    assert("note"@.len() != "doi"@.len());
    assert("note"@[0] != "isbn"@[0]);
    assert("note"@[0] != "issn"@[0]);
    assert("note"@.len() != "url"@.len());
    assert("note"@.len() != "abstract"@.len());
    assert("note"@.len() != "keywords"@.len());
    assert("language"@.len() != "title"@.len());
    assert("language"@.len() != "author"@.len());
    assert("language"@.len() != "journal"@.len());
    assert("language"@.len() != "booktitle"@.len());
    assert("language"@.len() != "year"@.len());
    assert("language"@.len() != "volume"@.len());
    assert("language"@.len() != "number"@.len());
    assert("language"@.len() != "pages"@.len());
    assert("language"@.len() != "publisher"@.len());
    assert("language"@.len() != "doi"@.len());
    assert("language"@.len() != "isbn"@.len());
    assert("language"@.len() != "issn"@.len());
    assert("language"@.len() != "url"@.len());
    assert("language"@[0] != "abstract"@[0]);
    assert("language"@[0] != "keywords"@[0]);
    assert("language"@.len() != "note"@.len());
}

/// `TY  - CODE` closes the record being read, if any, and opens a blank
/// record of the type the code names; `ER  - ` closes the record being
/// read; other lines outside a record are ignored.
pub proof fn law_ris_record_boundaries(st: RisState, raw: Seq<char>)
    requires
        is_tag_line(trim(raw)),
    ensures
        ({
            let line = trim(raw);
            let closed = match st.cur {
                Some(r) => st.refs.push(r),
                None => st.refs,
            };
            &&& line.take(2) == "TY"@ ==> ris_step(st, raw) == (RisState {
                refs: closed,
                cur: Some(blank_fields(ris_reference_type(trim(line.skip(6))))),
            })
            &&& line.take(2) == "ER"@ ==> ris_step(st, raw) == (RisState { refs: closed, cur: None })
            &&& line.take(2) != "TY"@ && line.take(2) != "ER"@ && st.cur is None ==> ris_step(st, raw) == st
        }),
{
    reveal_strlit("TY");
    reveal_strlit("ER");
    assert("TY"@[0] != "ER"@[0]);
}

/// A BibTeX value written in braces or double quotes, with or without the
/// trailing comma, is read as what stands between them.
pub proof fn law_bibtex_value_unwraps(v: Seq<char>)
    ensures
        bibtex_value(seq!['{'] + v + seq!['}']) == v,
        bibtex_value(seq!['{'] + v + seq!['}', ',']) == v,
        bibtex_value(seq!['"'] + v + seq!['"']) == v,
        bibtex_value(seq!['"'] + v + seq!['"', ',']) == v,
{
    let e = Seq::<char>::empty();
    let b = seq!['{'] + v + seq!['}'];
    let q = seq!['"'] + v + seq!['"'];
    crate::text::lemma_trim_around(e, seq!['{'] + v, seq!['}']);
    crate::text::lemma_trim_around(e, seq!['"'] + v, seq!['"']);
    assert(e + (seq!['{'] + v) + seq!['}'] =~= b);
    assert(e + (seq!['"'] + v) + seq!['"'] =~= q);
    assert(crate::text::trim_start(e) == e);
    assert(trim_end_char(b, ',') == b);
    assert(trim_end_char(q, ',') == q);
    assert((seq!['{'] + v + seq!['}', ',']).drop_last() =~= b);
    assert((seq!['"'] + v + seq!['"', ',']).drop_last() =~= q);
    assert(b.subrange(1, b.len() - 1) =~= v);
    assert(q.subrange(1, q.len() - 1) =~= v);
}

} // verus!
