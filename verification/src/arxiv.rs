//! Records from the arXiv API: the identifier a user types, the query URL,
//! and the reference read out of the Atom feed that the query returns.

use vstd::prelude::*;
use crate::cite::{blank_fields, fields, strs, RecordFields, Reference};
use crate::pattern::{captures, captures_all, compile, group_views, regex_captures, regex_captures_all, regex_compiles, Pattern};
use crate::text::{append_str, chars_of, replace, replace_str, slice_of, starts_with, starts_with_str, string_of, trim, trim_of};

verus! {

/// `s` with every leading occurrence of `p` removed, as
/// `str::trim_start_matches` does.
pub open spec fn strip_leading(s: Seq<char>, p: Seq<char>) -> Seq<char>
    decreases s.len(),
{
    if p.len() > 0 && starts_with(s, p) {
        strip_leading(s.skip(p.len() as int), p)
    } else {
        s
    }
}

pub(crate) fn strip_leading_of(s: &[char], p: &str) -> (r: Vec<char>)
    ensures
        r@ == strip_leading(s@, p@),
{
    let pv = chars_of(p);
    let mut cur: Vec<char> = slice_of(s, 0, s.len());
    assert(s@.subrange(0, s@.len() as int) =~= s@);
    while pv.len() > 0 && starts_with_str(cur.as_slice(), p)
        invariant
            pv@ == p@,
            strip_leading(cur@, p@) == strip_leading(s@, p@),
        decreases cur@.len(),
    {
        cur = slice_of(cur.as_slice(), pv.len(), cur.len());
    }
    cur
}

/// The arXiv identifier in what a user typed: trimmed, without a leading
/// abstract-page URL or `arxiv:` prefix.
pub open spec fn arxiv_id(raw: Seq<char>) -> Seq<char> {
    strip_leading(strip_leading(trim(raw), "https://arxiv.org/abs/"@), "arxiv:"@)
}

pub fn normalize_arxiv_id(raw: &str) -> (r: String)
    ensures
        r@ == arxiv_id(raw@),
{
    let t = trim_of(chars_of(raw).as_slice());
    let a = strip_leading_of(t.as_slice(), "https://arxiv.org/abs/");
    let b = strip_leading_of(a.as_slice(), "arxiv:");
    string_of(b.as_slice())
}

/// The API query for an identifier.
pub fn arxiv_query_url(raw: &str) -> (r: String)
    ensures
        r@ == "https://export.arxiv.org/api/query?id_list="@ + arxiv_id(raw@),
{
    let mut v = chars_of("https://export.arxiv.org/api/query?id_list=");
    let id = normalize_arxiv_id(raw);
    append_str(&mut v, id.as_str());
    string_of(v.as_slice())
}

pub open spec fn title_pattern() -> Seq<char> {
    "<title>([^<]+)</title>"@
}

pub open spec fn author_pattern() -> Seq<char> {
    "<name>([^<]+)</name>"@
}

pub open spec fn summary_pattern() -> Seq<char> {
    "<summary[^>]*>([\\s\\S]*?)</summary>"@
}

pub open spec fn published_pattern() -> Seq<char> {
    "<published>(\\d{4})"@
}

pub open spec fn doi_pattern() -> Seq<char> {
    "<arxiv:doi[^>]*>([^<]+)</arxiv:doi>"@
}

pub open spec fn feed_patterns_compile() -> bool {
    &&& regex_compiles(title_pattern())
    &&& regex_compiles(author_pattern())
    &&& regex_compiles(summary_pattern())
    &&& regex_compiles(published_pattern())
    &&& regex_compiles(doi_pattern())
}

/// The first group of a match, when there is one.
pub open spec fn group_one(groups: Seq<Option<Seq<char>>>) -> Option<Seq<char>> {
    if groups.len() > 1 {
        groups[1]
    } else {
        None
    }
}

/// The first group of the first match of `pattern`, trimmed, or nothing.
pub open spec fn extracted(pattern: Seq<char>, hay: Seq<char>) -> Seq<char> {
    match regex_captures(pattern, hay) {
        Some(g) => match group_one(g) {
            Some(m) => trim(m),
            None => seq![],
        },
        None => seq![],
    }
}

/// The first groups of successive matches, where they took part.
pub open spec fn first_groups(matches: Seq<Seq<Option<Seq<char>>>>) -> Seq<Seq<char>>
    decreases matches.len(),
{
    if matches.len() == 0 {
        seq![]
    } else {
        let prev = first_groups(matches.drop_last());
        match group_one(matches.last()) {
            Some(m) => prev.push(m),
            None => prev,
        }
    }
}

/// The entry title: the second `<title>` of the feed (the first is the
/// feed's own), else the first, with line breaks made spaces.
pub open spec fn feed_title(xml: Seq<char>) -> Seq<char> {
    let titles = first_groups(regex_captures_all(title_pattern(), xml));
    replace(
        if titles.len() > 1 {
            trim(titles[1])
        } else {
            extracted(title_pattern(), xml)
        },
        "\n"@,
        " "@,
    )
}

/// The fields of the record read from a feed for the identifier `raw`.
pub open spec fn arxiv_fields(raw: Seq<char>, xml: Seq<char>) -> RecordFields {
    RecordFields {
        title: feed_title(xml),
        authors: first_groups(regex_captures_all(author_pattern(), xml)).map_values(|a: Seq<char>| trim(a)),
        abstract_text: trim(replace(extracted(summary_pattern(), xml), "\n"@, " "@)),
        year: extracted(published_pattern(), xml),
        doi: extracted(doi_pattern(), xml),
        url: "https://arxiv.org/abs/"@ + arxiv_id(raw),
        journal: "arXiv"@,
        ..blank_fields("Preprint"@)
    }
}

fn first_group_of(groups: &Vec<Option<String>>) -> (r: Option<String>)
    ensures
        match r {
            Some(s) => group_one(group_views(groups@)) == Some(s@),
            None => group_one(group_views(groups@)) is None,
        },
{
    if groups.len() > 1 {
        match &groups[1] {
            Some(s) => Some(s.clone()),
            None => None,
        }
    } else {
        None
    }
}

fn extract(p: &Pattern, hay: &str) -> (r: Vec<char>)
    ensures
        r@ == extracted(p.source(), hay@),
{
    match captures(p, hay) {
        Some(g) => match first_group_of(&g) {
            Some(m) => trim_of(chars_of(m.as_str()).as_slice()),
            None => Vec::new(),
        },
        None => Vec::new(),
    }
}

fn first_groups_of(p: &Pattern, hay: &str) -> (r: Vec<String>)
    ensures
        strs(r@) == first_groups(regex_captures_all(p.source(), hay@)),
{
    let all = captures_all(p, hay);
    let ghost ms = regex_captures_all(p.source(), hay@);
    let mut out: Vec<String> = Vec::new();
    let n = all.len();
    for i in 0..n
        invariant
            n == all@.len() == ms.len(),
            forall|j: int| 0 <= j < n ==> group_views(#[trigger] all@[j]@) == ms[j],
            strs(out@) == first_groups(ms.take(i as int)),
    {
        proof {
            assert(ms.take(i + 1).drop_last() =~= ms.take(i as int));
            assert(ms.take(i + 1).last() == ms[i as int]);
        }
        match first_group_of(&all[i]) {
            Some(m) => {
                out.push(m);
                proof {
                    assert(strs(out@) =~= first_groups(ms.take(i + 1)));
                }
            },
            None => {},
        }
    }
    proof {
        assert(ms.take(n as int) =~= ms);
    }
    out
}

/// Reads the record of an arXiv Atom feed fetched for the identifier
/// `raw`: the entry title, the authors, the summary, the year of
/// publication and the DOI, as a preprint of the journal "arXiv" with a
/// fresh id, added today. `None` only when one of the patterns it reads
/// with does not compile.
pub fn reference_from_arxiv(raw: &str, xml: &str) -> (r: Option<Reference>)
    ensures
        r is Some <==> feed_patterns_compile(),
        r matches Some(x) ==> fields(x) == arxiv_fields(raw@, xml@) && x.date_added@ == x.date_modified@,
{
    proof {
        reveal_strlit("\n");
    }
    let pt = match compile("<title>([^<]+)</title>") {
        Some(p) => p,
        None => return None,
    };
    let pa = match compile("<name>([^<]+)</name>") {
        Some(p) => p,
        None => return None,
    };
    let ps = match compile("<summary[^>]*>([\\s\\S]*?)</summary>") {
        Some(p) => p,
        None => return None,
    };
    let pp = match compile("<published>(\\d{4})") {
        Some(p) => p,
        None => return None,
    };
    let pd = match compile("<arxiv:doi[^>]*>([^<]+)</arxiv:doi>") {
        Some(p) => p,
        None => return None,
    };
    let titles = first_groups_of(&pt, xml);
    let title_raw = if titles.len() > 1 {
        trim_of(chars_of(titles[1].as_str()).as_slice())
    } else {
        extract(&pt, xml)
    };
    let title = replace_str(title_raw.as_slice(), "\n", " ");
    let summary = extract(&ps, xml);
    let summary_line = replace_str(summary.as_slice(), "\n", " ");
    let abstract_text = trim_of(summary_line.as_slice());
    let year = extract(&pp, xml);
    let doi = extract(&pd, xml);
    let names = first_groups_of(&pa, xml);
    let mut authors: Vec<String> = Vec::new();
    let n = names.len();
    for i in 0..n
        invariant
            n == names@.len(),
            strs(authors@) == strs(names@).take(i as int).map_values(|a: Seq<char>| trim(a)),
    {
        let t = trim_of(chars_of(names[i].as_str()).as_slice());
        let a = string_of(t.as_slice());
        assert(a@ == trim(strs(names@)[i as int]));
        let ghost before = strs(authors@);
        authors.push(a);
        proof {
            assert(strs(authors@) =~= before.push(a@));
            assert(strs(names@).take(i + 1) =~= strs(names@).take(i as int).push(strs(names@)[i as int]));
            assert(strs(authors@) =~= strs(names@).take(i + 1).map_values(|a: Seq<char>| trim(a)));
        }
    }
    proof {
        assert(strs(names@).take(n as int) =~= strs(names@));
    }
    let mut url = chars_of("https://arxiv.org/abs/");
    let id = normalize_arxiv_id(raw);
    append_str(&mut url, id.as_str());
    let mut r = Reference::of_type(String::from_str("Preprint"));
    r.title = string_of(title.as_slice());
    r.authors = authors;
    r.abstract_text = string_of(abstract_text.as_slice());
    r.year = string_of(year.as_slice());
    r.doi = string_of(doi.as_slice());
    r.url = string_of(url.as_slice());
    r.journal = String::from_str("arXiv");
    proof {
        assert(fields(r) =~= arxiv_fields(raw@, xml@));
    }
    Some(r)
}

} // verus!
