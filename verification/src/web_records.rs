//! Records from the bibliographic web services: Crossref works by DOI,
//! PubMed summaries by PMID and OpenLibrary books by ISBN. Each answer is
//! given here as the values the record is read from; the request URLs are
//! built here too.

use vstd::prelude::*;
use crate::arxiv::group_one;
use crate::attributes::opt_view;
use crate::cite::{blank_fields, fields, strs, RecordFields, Reference};
use crate::cite_import::{strip_jats, tag_pattern};
use crate::pattern::{captures, compile, group_views, regex_captures, regex_compiles, regex_replace_all, replace_all};
use crate::text::{
    append_str, chars_of, decimal_of_i64, int_decimal, split_ws, split_ws_of, string_of, trim, trim_of,
};

verus! {

pub open spec fn or_empty(o: Option<String>) -> Seq<char> {
    match opt_view(o) {
        Some(s) => s,
        None => seq![],
    }
}

pub open spec fn or_text(o: Option<String>, d: Seq<char>) -> Seq<char> {
    match opt_view(o) {
        Some(s) => s,
        None => d,
    }
}

fn text_or(o: &Option<String>, d: &str) -> (r: String)
    ensures
        r@ == or_text(*o, d@),
{
    match o {
        Some(s) => s.clone(),
        None => String::from_str(d),
    }
}

/// The first element of a JSON array of strings, when it is a string.
pub open spec fn first_text(v: Seq<Option<String>>) -> Option<String> {
    if v.len() > 0 {
        v[0]
    } else {
        None
    }
}

fn first_text_of(v: &Vec<Option<String>>) -> (r: Option<String>)
    ensures
        r == first_text(v@),
{
    if v.len() > 0 {
        match &v[0] {
            Some(s) => Some(s.clone()),
            None => None,
        }
    } else {
        None
    }
}

fn prefixed(prefix: &str, middle: &[char]) -> (r: String)
    ensures
        r@ == prefix@ + middle@,
{
    let mut v = chars_of(prefix);
    crate::text::append(&mut v, middle);
    string_of(v.as_slice())
}

fn url_with(prefix: &str, middle: &[char], suffix: &str) -> (r: String)
    ensures
        r@ == prefix@ + middle@ + suffix@,
{
    let mut v = chars_of(prefix);
    crate::text::append(&mut v, middle);
    append_str(&mut v, suffix);
    string_of(v.as_slice())
}

// ── Crossref ─────────────────────────────────────────────────────────────────

#[derive(Debug, Clone, Default)]
pub struct CrossrefAuthor {
    pub given: Option<String>,
    pub family: Option<String>,
}

/// The fields of a Crossref work that a record is read from; each JSON
/// array is given element by element, a non-string element as `None`.
#[derive(Debug, Clone, Default)]
pub struct CrossrefWork {
    pub titles: Vec<Option<String>>,
    pub authors: Vec<CrossrefAuthor>,
    pub abstract_text: Option<String>,
    pub container_titles: Vec<Option<String>>,
    pub issns: Vec<Option<String>>,
    pub volume: Option<String>,
    pub issue: Option<String>,
    pub page: Option<String>,
    pub publisher: Option<String>,
    /// The `date-parts` of the issued date, a non-number part as `None`.
    pub date_parts: Vec<Vec<Option<i64>>>,
    pub url: Option<String>,
    pub work_type: Option<String>,
}

/// The query URL of a DOI.
pub fn crossref_url(doi: &str) -> (r: String)
    ensures
        r@ == "https://api.crossref.org/works/"@ + trim(doi@),
{
    let t = trim_of(chars_of(doi).as_slice());
    prefixed("https://api.crossref.org/works/", t.as_slice())
}

/// An author as the record lists it, `family, given`, or the family name
/// alone; authors without a family name are left out.
pub open spec fn crossref_author(a: CrossrefAuthor) -> Option<Seq<char>> {
    let g = or_empty(a.given);
    let f = or_empty(a.family);
    if f.len() > 0 {
        Some(
            if g.len() == 0 {
                f
            } else {
                f + ", "@ + g
            },
        )
    } else {
        None
    }
}

pub open spec fn crossref_authors(v: Seq<CrossrefAuthor>) -> Seq<Seq<char>>
    decreases v.len(),
{
    if v.len() == 0 {
        seq![]
    } else {
        let prev = crossref_authors(v.drop_last());
        match crossref_author(v.last()) {
            Some(n) => prev.push(n),
            None => prev,
        }
    }
}

/// The record type of a Crossref work type.
pub open spec fn crossref_type(t: Seq<char>) -> Seq<char> {
    if t == "book"@ {
        "Book"@
    } else if t == "book-chapter"@ {
        "Book Chapter"@
    } else if t == "proceedings-article"@ {
        "Conference Paper"@
    } else {
        "Journal Article"@
    }
}

/// The year: the first part of the first date, when it is a number.
pub open spec fn crossref_year(parts: Seq<Vec<Option<i64>>>) -> Seq<char> {
    if parts.len() > 0 && parts[0]@.len() > 0 {
        match parts[0]@[0] {
            Some(y) => int_decimal(y as int),
            None => seq![],
        }
    } else {
        seq![]
    }
}

pub open spec fn crossref_fields(doi: Seq<char>, w: CrossrefWork) -> RecordFields {
    RecordFields {
        title: or_text(first_text(w.titles@), "Untitled"@),
        authors: crossref_authors(w.authors@),
        abstract_text: trim(regex_replace_all(tag_pattern(), or_empty(w.abstract_text), ""@)),
        journal: or_empty(first_text(w.container_titles@)),
        volume: or_empty(w.volume),
        issue: or_empty(w.issue),
        pages: or_empty(w.page),
        publisher: or_empty(w.publisher),
        doi,
        issn: or_empty(first_text(w.issns@)),
        url: or_empty(w.url),
        year: crossref_year(w.date_parts@),
        ..blank_fields(crossref_type(or_text(w.work_type, "journal-article"@)))
    }
}

fn crossref_authors_of(v: &Vec<CrossrefAuthor>) -> (r: Vec<String>)
    ensures
        strs(r@) == crossref_authors(v@),
{
    let mut out: Vec<String> = Vec::new();
    let n = v.len();
    for i in 0..n
        invariant
            n == v@.len(),
            strs(out@) == crossref_authors(v@.take(i as int)),
    {
        proof {
            assert(v@.take(i + 1).drop_last() =~= v@.take(i as int));
            reveal_strlit(", ");
        }
        let g = text_or(&v[i].given, "");
        let f = text_or(&v[i].family, "");
        proof {
            reveal_strlit("");
        }
        let fv = chars_of(f.as_str());
        if fv.len() > 0 {
            let gv = chars_of(g.as_str());
            let name = if gv.len() == 0 {
                f
            } else {
                url_with("", fv.as_slice(), ", ").concat(g.as_str())
            };
            let ghost before = strs(out@);
            out.push(name);
            proof {
                assert(strs(out@) =~= before.push(name@));
            }
        }
        proof {
            assert(strs(out@) =~= crossref_authors(v@.take(i + 1)));
        }
    }
    proof {
        assert(v@.take(n as int) =~= v@);
    }
    out
}

/// Reads the record of a Crossref work fetched for `doi`, with a fresh id,
/// added today. `None` only when the pattern that strips tags from the
/// abstract does not compile.
pub fn reference_from_crossref(doi: &str, work: &CrossrefWork) -> (r: Option<Reference>)
    ensures
        r is Some <==> regex_compiles(tag_pattern()),
        r matches Some(x) ==> fields(x) == crossref_fields(doi@, *work) && x.date_added@ == x.date_modified@,
{
    let abstract_raw = text_or(&work.abstract_text, "");
    proof {
        reveal_strlit("");
        assert(abstract_raw@ =~= or_empty(work.abstract_text));
    }
    let abstract_text = match strip_jats(abstract_raw.as_str()) {
        Some(a) => a,
        None => return None,
    };
    let kind = text_or(&work.work_type, "journal-article");
    let kv = chars_of(kind.as_str());
    proof {
        reveal_strlit("book");
        reveal_strlit("book-chapter");
        reveal_strlit("proceedings-article");
    }
    let ref_type = if crate::text::eq_str(kv.as_slice(), "book") {
        "Book"
    } else if crate::text::eq_str(kv.as_slice(), "book-chapter") {
        "Book Chapter"
    } else if crate::text::eq_str(kv.as_slice(), "proceedings-article") {
        "Conference Paper"
    } else {
        "Journal Article"
    };
    let year = if work.date_parts.len() > 0 && work.date_parts[0].len() > 0 {
        match work.date_parts[0][0] {
            Some(y) => string_of(decimal_of_i64(y).as_slice()),
            None => String::new(),
        }
    } else {
        String::new()
    };
    let mut r = Reference::of_type(String::from_str(ref_type));
    r.title = text_or(&first_text_of(&work.titles), "Untitled");
    r.authors = crossref_authors_of(&work.authors);
    r.abstract_text = abstract_text;
    r.journal = text_or(&first_text_of(&work.container_titles), "");
    r.volume = text_or(&work.volume, "");
    r.issue = text_or(&work.issue, "");
    r.pages = text_or(&work.page, "");
    r.publisher = text_or(&work.publisher, "");
    r.doi = String::from_str(doi);
    r.issn = text_or(&first_text_of(&work.issns), "");
    r.url = text_or(&work.url, "");
    r.year = year;
    proof {
        let f = crossref_fields(doi@, *work);
        assert(r.reference_type@ == f.reference_type);
        assert(r.title@ == f.title);
        assert(strs(r.authors@) == f.authors);
        assert(r.abstract_text@ == f.abstract_text);
        assert(r.journal@ == f.journal);
        assert(r.issn@ == f.issn);
        assert(r.year@ == f.year);
        assert(fields(r) =~= crossref_fields(doi@, *work));
    }
    Some(r)
}

// ── PubMed ───────────────────────────────────────────────────────────────────

#[derive(Debug, Clone, Default)]
pub struct PubmedAuthor {
    pub authtype: Option<String>,
    pub name: Option<String>,
}

#[derive(Debug, Clone, Default)]
pub struct PubmedArticleId {
    pub idtype: Option<String>,
    pub value: Option<String>,
}

/// The fields of a PubMed summary that a record is read from.
#[derive(Debug, Clone, Default)]
pub struct PubmedSummary {
    pub title: Option<String>,
    pub source: Option<String>,
    pub volume: Option<String>,
    pub issue: Option<String>,
    pub pages: Option<String>,
    pub issn: Option<String>,
    pub pubdate: Option<String>,
    pub authors: Vec<PubmedAuthor>,
    pub article_ids: Vec<PubmedArticleId>,
}

/// The summary query URL of a PMID.
pub fn pubmed_summary_url(pmid: &str) -> (r: String)
    ensures
        r@ == "https://eutils.ncbi.nlm.nih.gov/entrez/eutils/esummary.fcgi?db=pubmed&retmode=json&id="@ + trim(pmid@),
{
    let t = trim_of(chars_of(pmid).as_slice());
    prefixed("https://eutils.ncbi.nlm.nih.gov/entrez/eutils/esummary.fcgi?db=pubmed&retmode=json&id=", t.as_slice())
}

/// The abstract query URL of a PMID.
pub fn pubmed_abstract_url(pmid: &str) -> (r: String)
    ensures
        r@ == "https://eutils.ncbi.nlm.nih.gov/entrez/eutils/efetch.fcgi?db=pubmed&id="@ + trim(pmid@)
            + "&rettype=xml&retmode=xml"@,
{
    let t = trim_of(chars_of(pmid).as_slice());
    url_with("https://eutils.ncbi.nlm.nih.gov/entrez/eutils/efetch.fcgi?db=pubmed&id=", t.as_slice(), "&rettype=xml&retmode=xml")
}

pub open spec fn abstract_pattern() -> Seq<char> {
    "<AbstractText[^>]*>([\\s\\S]*?)</AbstractText>"@
}

/// The first `<AbstractText>` of a PubMed record, its tags stripped and
/// trimmed.
pub open spec fn pubmed_abstract_text(xml: Seq<char>) -> Option<Seq<char>> {
    if !regex_compiles(abstract_pattern()) {
        None
    } else {
        match regex_captures(abstract_pattern(), xml) {
            Some(g) => match group_one(g) {
                Some(m) => if regex_compiles(tag_pattern()) {
                    Some(trim(regex_replace_all(tag_pattern(), m, ""@)))
                } else {
                    None
                },
                None => None,
            },
            None => None,
        }
    }
}

/// Reads the abstract out of a PubMed XML record.
pub fn pubmed_abstract(xml: &str) -> (r: Option<String>)
    ensures
        opt_view(r) == pubmed_abstract_text(xml@),
{
    let p = match compile("<AbstractText[^>]*>([\\s\\S]*?)</AbstractText>") {
        Some(p) => p,
        None => return None,
    };
    let groups = match captures(&p, xml) {
        Some(g) => g,
        None => return None,
    };
    if groups.len() < 2 {
        return None;
    }
    let raw = match &groups[1] {
        Some(m) => m,
        None => return None,
    };
    assert(group_one(group_views(groups@)) == Some(raw@));
    match strip_jats(raw.as_str()) {
        Some(t) => Some(t),
        None => None,
    }
}

/// `s` without its trailing `c`s, as `str::trim_end_matches` leaves it.
pub open spec fn strip_trailing(s: Seq<char>, c: char) -> Seq<char>
    decreases s.len(),
{
    if s.len() > 0 && s.last() == c {
        strip_trailing(s.drop_last(), c)
    } else {
        s
    }
}

fn strip_trailing_of(s: &[char], c: char) -> (r: Vec<char>)
    ensures
        r@ == strip_trailing(s@, c),
{
    let mut k = s.len();
    assert(s@.take(s@.len() as int) =~= s@);
    while k > 0 && s[k - 1] == c
        invariant
            k <= s@.len(),
            strip_trailing(s@.take(k as int), c) == strip_trailing(s@, c),
        decreases k,
    {
        assert(s@.take(k as int).drop_last() =~= s@.take(k - 1));
        k = k - 1;
    }
    crate::text::slice_of(s, 0, k)
}

/// The authors listed as such, by name.
pub open spec fn pubmed_authors(v: Seq<PubmedAuthor>) -> Seq<Seq<char>>
    decreases v.len(),
{
    if v.len() == 0 {
        seq![]
    } else {
        let prev = pubmed_authors(v.drop_last());
        let a = v.last();
        if opt_view(a.authtype) == Some("Author"@) && a.name is Some {
            prev.push(or_empty(a.name))
        } else {
            prev
        }
    }
}

/// The value of the first article id of type `doi`, or nothing.
pub open spec fn pubmed_doi(v: Seq<PubmedArticleId>) -> Seq<char>
    decreases v.len(),
{
    if v.len() == 0 {
        seq![]
    } else if opt_view(v[0].idtype) == Some("doi"@) {
        or_empty(v[0].value)
    } else {
        pubmed_doi(v.drop_first())
    }
}

pub open spec fn first_word(s: Seq<char>) -> Seq<char> {
    let w = split_ws(s);
    if w.len() > 0 {
        w[0]
    } else {
        seq![]
    }
}

pub open spec fn last_word(s: Seq<char>) -> Seq<char> {
    let w = split_ws(s);
    if w.len() > 0 {
        w.last()
    } else {
        seq![]
    }
}

pub open spec fn pubmed_fields(pmid: Seq<char>, s: PubmedSummary, abstract_text: Seq<char>) -> RecordFields {
    RecordFields {
        title: strip_trailing(or_text(s.title, "Untitled"@), '.'),
        authors: pubmed_authors(s.authors@),
        abstract_text,
        journal: or_empty(s.source),
        volume: or_empty(s.volume),
        issue: or_empty(s.issue),
        pages: or_empty(s.pages),
        doi: pubmed_doi(s.article_ids@),
        pmid: trim(pmid),
        issn: or_empty(s.issn),
        year: first_word(or_empty(s.pubdate)),
        ..blank_fields("Journal Article"@)
    }
}

fn is_text(o: &Option<String>, t: &str) -> (r: bool)
    ensures
        r == (opt_view(*o) == Some(t@)),
{
    match o {
        Some(s) => {
            let v = chars_of(s.as_str());
            crate::text::eq_str(v.as_slice(), t)
        },
        None => false,
    }
}

fn pubmed_authors_of(v: &Vec<PubmedAuthor>) -> (r: Vec<String>)
    ensures
        strs(r@) == pubmed_authors(v@),
{
    let mut out: Vec<String> = Vec::new();
    let n = v.len();
    for i in 0..n
        invariant
            n == v@.len(),
            strs(out@) == pubmed_authors(v@.take(i as int)),
    {
        proof {
            assert(v@.take(i + 1).drop_last() =~= v@.take(i as int));
        }
        if is_text(&v[i].authtype, "Author") {
            match &v[i].name {
                Some(name) => {
                    let ghost before = strs(out@);
                    out.push(name.clone());
                    proof {
                        assert(strs(out@) =~= before.push(name@));
                    }
                },
                None => {},
            }
        }
        proof {
            assert(strs(out@) =~= pubmed_authors(v@.take(i + 1)));
        }
    }
    proof {
        assert(v@.take(n as int) =~= v@);
    }
    out
}

fn pubmed_doi_of(v: &Vec<PubmedArticleId>) -> (r: String)
    ensures
        r@ == pubmed_doi(v@),
{
    let n = v.len();
    let mut i: usize = 0;
    assert(v@.skip(0) =~= v@);
    while i < n
        invariant
            n == v@.len(),
            i <= n,
            pubmed_doi(v@.skip(i as int)) == pubmed_doi(v@),
        decreases n - i,
    {
        assert(v@.skip(i as int)[0] == v@[i as int]);
        if is_text(&v[i].idtype, "doi") {
            proof {
                reveal_strlit("");
            }
            return text_or(&v[i].value, "");
        }
        assert(v@.skip(i as int).drop_first() =~= v@.skip(i + 1));
        i = i + 1;
    }
    String::new()
}

fn first_word_of(s: &str) -> (r: String)
    ensures
        r@ == first_word(s@),
{
    let w = split_ws_of(chars_of(s).as_slice());
    if w.len() > 0 {
        string_of(w[0].as_slice())
    } else {
        String::new()
    }
}

fn last_word_of(s: &str) -> (r: String)
    ensures
        r@ == last_word(s@),
{
    let w = split_ws_of(chars_of(s).as_slice());
    if w.len() > 0 {
        string_of(w[w.len() - 1].as_slice())
    } else {
        String::new()
    }
}

/// Reads the record of a PubMed summary fetched for `pmid`, with the
/// abstract fetched beside it, as a journal article with a fresh id, added
/// today; without a summary record the PMID is reported unknown.
pub fn reference_from_pubmed(pmid: &str, summary: Option<&PubmedSummary>, abstract_text: String) -> (r: Result<
    Reference,
    String,
>)
    ensures
        match summary {
            None => r matches Err(m) && m@ == "PubMed: no record for PMID "@ + trim(pmid@),
            Some(s) => r matches Ok(x) && fields(x) == pubmed_fields(pmid@, *s, abstract_text@)
                && x.date_added@ == x.date_modified@,
        },
{
    let id = trim_of(chars_of(pmid).as_slice());
    let s = match summary {
        Some(s) => s,
        None => return Err(prefixed("PubMed: no record for PMID ", id.as_slice())),
    };
    proof {
        reveal_strlit("");
    }
    let title_raw = text_or(&s.title, "Untitled");
    let title = strip_trailing_of(chars_of(title_raw.as_str()).as_slice(), '.');
    let pubdate = text_or(&s.pubdate, "");
    let mut r = Reference::of_type(String::from_str("Journal Article"));
    r.title = string_of(title.as_slice());
    r.authors = pubmed_authors_of(&s.authors);
    r.abstract_text = abstract_text;
    r.journal = text_or(&s.source, "");
    r.volume = text_or(&s.volume, "");
    r.issue = text_or(&s.issue, "");
    r.pages = text_or(&s.pages, "");
    r.doi = pubmed_doi_of(&s.article_ids);
    r.pmid = string_of(id.as_slice());
    r.issn = text_or(&s.issn, "");
    r.year = first_word_of(pubdate.as_str());
    proof {
        assert(fields(r) =~= pubmed_fields(pmid@, *s, abstract_text@));
    }
    Ok(r)
}

// ── OpenLibrary ──────────────────────────────────────────────────────────────

/// The fields of an OpenLibrary book that a record is read from: the name
/// of each publisher and each author, `None` where it is not a string.
#[derive(Debug, Clone, Default)]
pub struct OpenLibraryBook {
    pub title: Option<String>,
    pub publishers: Vec<Option<String>>,
    pub publish_date: Option<String>,
    pub authors: Vec<Option<String>>,
}

/// An ISBN as typed, trimmed and without hyphens or spaces.
pub open spec fn isbn_digits(raw: Seq<char>) -> Seq<char> {
    without_separators(trim(raw))
}

/// `s` without its hyphens and spaces.
pub open spec fn without_separators(s: Seq<char>) -> Seq<char>
    decreases s.len(),
{
    if s.len() == 0 {
        seq![]
    } else {
        let prev = without_separators(s.drop_last());
        if s.last() != '-' && s.last() != ' ' {
            prev.push(s.last())
        } else {
            prev
        }
    }
}

pub fn normalize_isbn(raw: &str) -> (r: String)
    ensures
        r@ == isbn_digits(raw@),
{
    let t = trim_of(chars_of(raw).as_slice());
    let mut out: Vec<char> = Vec::new();
    let n = t.len();
    for i in 0..n
        invariant
            n == t@.len(),
            out@ == without_separators(t@.take(i as int)),
    {
        proof {
            assert(t@.take(i + 1).drop_last() =~= t@.take(i as int));
        }
        if t[i] != '-' && t[i] != ' ' {
            out.push(t[i]);
        }
        proof {
            assert(out@ =~= without_separators(t@.take(i + 1)));
        }
    }
    proof {
        assert(t@.take(n as int) =~= t@);
    }
    string_of(out.as_slice())
}

/// The query URL of an ISBN.
pub fn openlibrary_url(raw: &str) -> (r: String)
    ensures
        r@ == "https://openlibrary.org/api/books?bibkeys=ISBN:"@ + isbn_digits(raw@) + "&format=json&jscmd=data"@,
{
    let isbn = normalize_isbn(raw);
    url_with("https://openlibrary.org/api/books?bibkeys=ISBN:", chars_of(isbn.as_str()).as_slice(), "&format=json&jscmd=data")
}

/// The key under which the answer lists the book.
pub fn openlibrary_key(raw: &str) -> (r: String)
    ensures
        r@ == "ISBN:"@ + isbn_digits(raw@),
{
    let isbn = normalize_isbn(raw);
    prefixed("ISBN:", chars_of(isbn.as_str()).as_slice())
}

pub open spec fn present_names(v: Seq<Option<String>>) -> Seq<Seq<char>>
    decreases v.len(),
{
    if v.len() == 0 {
        seq![]
    } else {
        let prev = present_names(v.drop_last());
        match opt_view(v.last()) {
            Some(n) => prev.push(n),
            None => prev,
        }
    }
}

pub open spec fn openlibrary_fields(raw: Seq<char>, b: OpenLibraryBook) -> RecordFields {
    RecordFields {
        title: or_text(b.title, "Untitled"@),
        authors: present_names(b.authors@),
        year: last_word(or_empty(b.publish_date)),
        publisher: or_empty(first_text(b.publishers@)),
        isbn: isbn_digits(raw),
        ..blank_fields("Book"@)
    }
}

fn present_names_of(v: &Vec<Option<String>>) -> (r: Vec<String>)
    ensures
        strs(r@) == present_names(v@),
{
    let mut out: Vec<String> = Vec::new();
    let n = v.len();
    for i in 0..n
        invariant
            n == v@.len(),
            strs(out@) == present_names(v@.take(i as int)),
    {
        proof {
            assert(v@.take(i + 1).drop_last() =~= v@.take(i as int));
        }
        match &v[i] {
            Some(name) => {
                let ghost before = strs(out@);
                out.push(name.clone());
                proof {
                    assert(strs(out@) =~= before.push(name@));
                }
            },
            None => {},
        }
        proof {
            assert(strs(out@) =~= present_names(v@.take(i + 1)));
        }
    }
    proof {
        assert(v@.take(n as int) =~= v@);
    }
    out
}

/// Reads the record of the OpenLibrary answer for an ISBN, as a book with
/// a fresh id, added today; without a record for the key the ISBN is
/// reported unknown.
pub fn reference_from_openlibrary(raw: &str, book: Option<&OpenLibraryBook>) -> (r: Result<Reference, String>)
    ensures
        match book {
            None => r matches Err(m) && m@ == "No record found for ISBN "@ + isbn_digits(raw@),
            Some(b) => r matches Ok(x) && fields(x) == openlibrary_fields(raw@, *b) && x.date_added@
                == x.date_modified@,
        },
{
    let isbn = normalize_isbn(raw);
    let b = match book {
        Some(b) => b,
        None => return Err(prefixed("No record found for ISBN ", chars_of(isbn.as_str()).as_slice())),
    };
    proof {
        reveal_strlit("");
    }
    let date = text_or(&b.publish_date, "");
    let mut r = Reference::of_type(String::from_str("Book"));
    r.title = text_or(&b.title, "Untitled");
    r.authors = present_names_of(&b.authors);
    r.year = last_word_of(date.as_str());
    r.publisher = text_or(&first_text_of(&b.publishers), "");
    r.isbn = isbn;
    proof {
        assert(fields(r) =~= openlibrary_fields(raw@, *b));
    }
    Ok(r)
}

} // verus!
