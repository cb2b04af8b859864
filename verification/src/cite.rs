//! The citation manager's record model and the helpers its formatters share.

use vstd::prelude::*;
use crate::text::{
    append, append_str, chars_of, copy_chars, find_char, index_of, is_whitespace, join, join_of,
    lemma_split_ws_nonempty, slice_of, split_ws, split_ws_of, trim, trim_of, views,
};

verus! {

/// A single bibliographic reference record.
#[derive(Debug, Clone)]
pub struct Reference {
    pub id: String,
    pub reference_type: String,
    pub title: String,
    pub authors: Vec<String>,
    pub abstract_text: String,
    pub journal: String,
    pub volume: String,
    pub issue: String,
    pub pages: String,
    pub publisher: String,
    pub edition: String,
    pub doi: String,
    pub pmid: String,
    pub isbn: String,
    pub issn: String,
    pub url: String,
    pub access_date: String,
    pub language: String,
    pub tags: Vec<String>,
    pub notes: String,
    pub starred: bool,
    pub read_status: bool,
    pub pdf_path: Option<String>,
    pub year: String,
    pub date_added: String,
    pub date_modified: String,
    pub collections: Vec<String>,
}

/// A named user collection grouping reference IDs.
#[derive(Debug, Clone)]
pub struct Collection {
    pub id: String,
    pub name: String,
    pub ref_ids: Vec<String>,
}

/// A reference as the browser extension posts it to the local server.
#[derive(Debug, Clone)]
pub struct ImportPayload {
    pub title: Option<String>,
    pub authors: Option<Vec<String>>,
    pub abstract_text: Option<String>,
    pub journal: Option<String>,
    pub year: Option<String>,
    pub doi: Option<String>,
    pub url: Option<String>,
    pub source: Option<String>,
}

/// A citation as the editor hands it to the CSL formatter.
#[derive(Debug, Clone)]
pub struct CitationPayload {
    pub id: String,
    pub author: String,
    pub year: String,
    pub title: String,
    pub publisher: String,
    pub item_type: String,
    pub url: String,
}

/// The reference type of a record that does not name one.
pub fn default_ref_type() -> (s: String)
    ensures
        s@ == "Journal Article"@,
{
    String::from_str("Journal Article")
}

// ── Author names ─────────────────────────────────────────────────────────────

/// An author's name split into last name and the rest: at the first comma
/// (`Last, First`), else the last word is the last name (`First Middle
/// Last`), else the whole string is the last name.
pub open spec fn author_parts(s: Seq<char>) -> (Seq<char>, Seq<char>) {
    match index_of(s, ',') {
        Some(pos) => (trim(s.take(pos)), trim(s.skip(pos + 1))),
        None => {
            let words = split_ws(s);
            if words.len() >= 2 {
                (words.last(), join(words.drop_last(), " "@))
            } else {
                (s, seq![])
            }
        },
    }
}

/// The initials of the words of `name`, each followed by a full stop,
/// separated by spaces: `"John Ronald"` gives `"J. R."`.
pub open spec fn initials_spec(name: Seq<char>) -> Seq<char> {
    join(split_ws(name).map_values(|w: Seq<char>| seq![w[0], '.']), " "@)
}

/// Splits an author's name into (last name, first names).
pub fn parse_author(s: &[char]) -> (r: (Vec<char>, Vec<char>))
    ensures
        (r.0@, r.1@) == author_parts(s@),
{
    match find_char(s, ',') {
        Some(pos) => {
            proof {
                crate::text::lemma_find_bounds(s@, seq![',']);
                assert(seq![','].len() == 1);
                assert(crate::text::find(s@, seq![',']) == Some(pos as int));
                assert(pos < s@.len());
            }
            let before = slice_of(s, 0, pos);
            let n = s.len();
            assert(pos < n);
            let after = slice_of(s, pos + 1, n);
            assert(before@ =~= s@.take(pos as int));
            assert(after@ =~= s@.skip(pos + 1));
            (trim_of(before.as_slice()), trim_of(after.as_slice()))
        },
        None => {
            let parts = split_ws_of(s);
            if parts.len() >= 2 {
                let k = parts.len() - 1;
                let last = copy_chars(parts[k].as_slice());
                let firsts = crate::text::take_parts(&parts, k);
                assert(views(parts@).take(k as int) =~= views(parts@).drop_last());
                let sp: Vec<char> = vec![' '];
                assert(sp@ =~= " "@) by {
                    reveal_strlit(" ");
                }
                let first = join_of(&firsts, sp.as_slice());
                (last, first)
            } else {
                (copy_chars(s), Vec::new())
            }
        },
    }
}

/// The initials of the words of `name`.
pub fn initials(name: &[char]) -> (r: Vec<char>)
    ensures
        r@ == initials_spec(name@),
{
    let words = split_ws_of(name);
    proof {
        lemma_split_ws_nonempty(name@);
    }
    let ghost ws = split_ws(name@);
    let ghost target = ws.map_values(|w: Seq<char>| seq![w[0], '.']);
    let mut marks: Vec<Vec<char>> = Vec::new();
    let n = words.len();
    for i in 0..n
        invariant
            n == words@.len(),
            views(words@) == ws,
            ws == split_ws(name@),
            forall|j: int| 0 <= j < ws.len() ==> (#[trigger] ws[j]).len() > 0,
            target == ws.map_values(|w: Seq<char>| seq![w[0], '.']),
            views(marks@) == target.take(i as int),
    {
        assert(ws[i as int] == words@[i as int]@);
        let c = words[i][0];
        let m: Vec<char> = vec![c, '.'];
        let ghost before = marks@;
        marks.push(m);
        assert(views(marks@) =~= views(before).push(m@));
        assert(target.take(i + 1) =~= target.take(i as int).push(target[i as int]));
    }
    assert(target.take(n as int) =~= target);
    let sp: Vec<char> = vec![' '];
    assert(sp@ =~= " "@) by {
        reveal_strlit(" ");
    }
    join_of(&marks, sp.as_slice())
}

// ── Small text builders ──────────────────────────────────────────────────────

/// `pre + x + post` when `x` is non-empty, else nothing.
pub open spec fn wrap_nonempty(x: Seq<char>, pre: Seq<char>, post: Seq<char>) -> Seq<char> {
    if x.len() > 0 {
        pre + x + post
    } else {
        seq![]
    }
}

pub fn wrap_nonempty_of(x: &[char], pre: &str, post: &str) -> (r: Vec<char>)
    ensures
        r@ == wrap_nonempty(x@, pre@, post@),
{
    if x.len() > 0 {
        let mut out = chars_of(pre);
        append(&mut out, x);
        append_str(&mut out, post);
        out
    } else {
        Vec::new()
    }
}

/// The characters of each string.
pub fn string_chars(v: &Vec<String>) -> (r: Vec<Vec<char>>)
    ensures
        views(r@) == v@.map_values(|s: String| s@),
{
    let mut r: Vec<Vec<char>> = Vec::new();
    let n = v.len();
    for i in 0..n
        invariant
            n == v@.len(),
            views(r@) == v@.map_values(|s: String| s@).take(i as int),
    {
        let c = chars_of(v[i].as_str());
        let ghost before = r@;
        r.push(c);
        assert(views(r@) =~= views(before).push(c@));
        assert(v@.map_values(|s: String| s@).take(i + 1) =~= v@.map_values(|s: String| s@).take(
            i as int,
        ).push(v@[i as int]@));
    }
    assert(v@.map_values(|s: String| s@).take(n as int) =~= v@.map_values(|s: String| s@));
    r
}

pub open spec fn author_views(authors: Seq<String>) -> Seq<(Seq<char>, Seq<char>)> {
    authors.map_values(|a: String| author_parts(a@))
}

/// Each author's name split into (last name, first names).
pub fn parse_authors(authors: &Vec<String>) -> (r: Vec<(Vec<char>, Vec<char>)>)
    ensures
        r@.len() == authors@.len(),
        forall|i: int|
            0 <= i < authors@.len() ==> ((#[trigger] r@[i]).0@, r@[i].1@) == author_parts(
                authors@[i]@,
            ),
{
    let mut r: Vec<(Vec<char>, Vec<char>)> = Vec::new();
    let n = authors.len();
    for i in 0..n
        invariant
            n == authors@.len(),
            r@.len() == i,
            forall|j: int|
                0 <= j < i ==> ((#[trigger] r@[j]).0@, r@[j].1@) == author_parts(authors@[j]@),
    {
        let a = chars_of(authors[i].as_str());
        r.push(parse_author(a.as_slice()));
    }
    r
}

// ── Fresh records ────────────────────────────────────────────────────────────

pub open spec fn is_lower_hex(c: char) -> bool {
    ('0' <= c && c <= '9') || ('a' <= c && c <= 'f')
}

/// A version-4 UUID as `uuid` writes it: 36 characters, hyphens at 8, 13,
/// 18 and 23, lower-case hexadecimal digits elsewhere, the version digit
/// `4` at 14 and the variant digit (8, 9, a or b) at 19.
pub open spec fn is_uuid_v4(s: Seq<char>) -> bool {
    &&& s.len() == 36
    &&& forall|k: int|
        0 <= k < 36 ==> if k == 8 || k == 13 || k == 18 || k == 23 {
            #[trigger] s[k] == '-'
        } else {
            is_lower_hex(s[k])
        }
    &&& s[14] == '4'
    &&& (s[19] == '8' || s[19] == '9' || s[19] == 'a' || s[19] == 'b')
}

/// Calls `uuid::Uuid::new_v4` and formats the identifier. Which identifier
/// it is depends on chance and is not stated; the contract claims only the
/// hyphenated lower-case form that the crate writes, with the version and
/// variant bits that `new_v4` sets.
#[verifier::external_body]
pub(crate) fn new_id() -> (s: String)
    ensures
        is_uuid_v4(s@),
{
    uuid::Uuid::new_v4().to_string()
}

pub open spec fn is_digit(c: char) -> bool {
    '0' <= c && c <= '9'
}

/// The number two decimal digits write.
pub open spec fn two_digits(a: char, b: char) -> int {
    (a as int - '0' as int) * 10 + (b as int - '0' as int)
}

/// A date as `%Y-%m-%d` writes it: the year zero-padded to at least four
/// digits, with a sign when it lies outside 0 to 9999, then the month
/// (01 to 12) and the day (01 to 31), each after a hyphen.
pub open spec fn is_iso_date(s: Seq<char>) -> bool {
    let n = s.len();
    let y = n - 6;
    &&& n >= 10
    &&& s[y] == '-' && s[n - 3] == '-'
    &&& is_digit(s[y + 1]) && is_digit(s[y + 2]) && is_digit(s[n - 2]) && is_digit(s[n - 1])
    &&& 1 <= two_digits(s[y + 1], s[y + 2]) <= 12
    &&& 1 <= two_digits(s[n - 2], s[n - 1]) <= 31
    &&& (is_digit(s[0]) && y >= 4) || ((s[0] == '+' || s[0] == '-') && y >= 5)
    &&& forall|k: int| 1 <= k < y ==> is_digit(#[trigger] s[k])
}

/// Calls `chrono::Utc::now` and formats the date as `%Y-%m-%d`. Which date
/// it is depends on the clock and is not stated; the contract claims only
/// the form that chrono documents for `%Y`, `%m` and `%d`.
#[verifier::external_body]
fn today() -> (s: String)
    ensures
        is_iso_date(s@),
{
    chrono::Utc::now().format("%Y-%m-%d").to_string()
}

/// Everything a record holds but its id and its dates of addition and
/// change.
#[verifier::ext_equal]
pub ghost struct RecordFields {
    pub reference_type: Seq<char>,
    pub title: Seq<char>,
    pub authors: Seq<Seq<char>>,
    pub abstract_text: Seq<char>,
    pub journal: Seq<char>,
    pub volume: Seq<char>,
    pub issue: Seq<char>,
    pub pages: Seq<char>,
    pub publisher: Seq<char>,
    pub edition: Seq<char>,
    pub doi: Seq<char>,
    pub pmid: Seq<char>,
    pub isbn: Seq<char>,
    pub issn: Seq<char>,
    pub url: Seq<char>,
    pub access_date: Seq<char>,
    pub language: Seq<char>,
    pub tags: Seq<Seq<char>>,
    pub notes: Seq<char>,
    pub starred: bool,
    pub read_status: bool,
    pub pdf_path: Option<Seq<char>>,
    pub year: Seq<char>,
    pub collections: Seq<Seq<char>>,
}

pub open spec fn strs(v: Seq<String>) -> Seq<Seq<char>> {
    v.map_values(|s: String| s@)
}

pub open spec fn fields(r: Reference) -> RecordFields {
    RecordFields {
        reference_type: r.reference_type@,
        title: r.title@,
        authors: strs(r.authors@),
        abstract_text: r.abstract_text@,
        journal: r.journal@,
        volume: r.volume@,
        issue: r.issue@,
        pages: r.pages@,
        publisher: r.publisher@,
        edition: r.edition@,
        doi: r.doi@,
        pmid: r.pmid@,
        isbn: r.isbn@,
        issn: r.issn@,
        url: r.url@,
        access_date: r.access_date@,
        language: r.language@,
        tags: strs(r.tags@),
        notes: r.notes@,
        starred: r.starred,
        read_status: r.read_status,
        pdf_path: match r.pdf_path {
            Some(p) => Some(p@),
            None => None,
        },
        year: r.year@,
        collections: strs(r.collections@),
    }
}

/// The fields of a new record of the given type: all others empty.
pub open spec fn blank_fields(reference_type: Seq<char>) -> RecordFields {
    RecordFields {
        reference_type,
        title: seq![],
        authors: seq![],
        abstract_text: seq![],
        journal: seq![],
        volume: seq![],
        issue: seq![],
        pages: seq![],
        publisher: seq![],
        edition: seq![],
        doi: seq![],
        pmid: seq![],
        isbn: seq![],
        issn: seq![],
        url: seq![],
        access_date: seq![],
        language: seq![],
        tags: seq![],
        notes: seq![],
        starred: false,
        read_status: false,
        pdf_path: None,
        year: seq![],
        collections: seq![],
    }
}

impl Reference {
    /// A new, empty journal-article record with a fresh id, added and
    /// changed today.
    pub fn blank() -> (r: Self)
        ensures
            fields(r) == blank_fields("Journal Article"@),
            r.date_added@ == r.date_modified@,
            is_iso_date(r.date_added@),
            is_uuid_v4(r.id@),
    {
        Self::of_type(String::from_str("Journal Article"))
    }

    /// A new, empty record of the given type with a fresh id, added and
    /// changed today.
    pub fn of_type(reference_type: String) -> (r: Self)
        ensures
            fields(r) == blank_fields(reference_type@),
            r.date_added@ == r.date_modified@,
            is_iso_date(r.date_added@),
            is_uuid_v4(r.id@),
    {
        let now = today();
        let r = Reference {
            id: new_id(),
            reference_type,
            title: String::new(),
            authors: Vec::new(),
            abstract_text: String::new(),
            journal: String::new(),
            volume: String::new(),
            issue: String::new(),
            pages: String::new(),
            publisher: String::new(),
            edition: String::new(),
            doi: String::new(),
            pmid: String::new(),
            isbn: String::new(),
            issn: String::new(),
            url: String::new(),
            access_date: String::new(),
            language: String::new(),
            tags: Vec::new(),
            notes: String::new(),
            starred: false,
            read_status: false,
            pdf_path: None,
            year: String::new(),
            date_added: now.clone(),
            date_modified: now,
            collections: Vec::new(),
        };
        assert(strs(r.authors@) =~= Seq::<Seq<char>>::empty());
        assert(strs(r.tags@) =~= Seq::<Seq<char>>::empty());
        assert(strs(r.collections@) =~= Seq::<Seq<char>>::empty());
        proof {
            broadcast use vstd::string::group_string_axioms;
        }
        assert(fields(r) =~= blank_fields(reference_type@));
        r
    }

    /// Stamps today's date into `date_modified`, changing nothing else.
    pub fn touch(&mut self)
        ensures
            is_iso_date(final(self).date_modified@),
            fields(*final(self)) == fields(*old(self)),
            final(self).id == old(self).id,
            final(self).date_added == old(self).date_added,
    {
        self.date_modified = today();
    }
}

} // verus!
