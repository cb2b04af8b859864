//! Citation formatting (APA 7, MLA 9, Chicago 17 author-date, Vancouver,
//! IEEE) and export to RIS and BibTeX.

use vstd::prelude::*;
use crate::cite::{
    author_parts, author_views, initials, initials_spec, parse_authors, string_chars,
    wrap_nonempty, wrap_nonempty_of, Reference,
};
use crate::text::{
    contains_text, is_ws, lemma_contains_middle, lemma_trim_around, trim_start,
    append, append_str, chars_of, copy_chars, find_char, index_of, join, join_of, replace,
    replace_str, seq_eq, skip_parts, slice_of, string_of, take_parts, trim, trim_of, views,
};
use crate::unicode::{char_is_alphanumeric, lowercase, to_lowercase, unicode_alphanumeric};

verus! {

// ── APA 7 ────────────────────────────────────────────────────────────────────

pub open spec fn apa_name(p: (Seq<char>, Seq<char>)) -> Seq<char> {
    p.0 + ", "@ + initials_spec(p.1)
}

/// The author list of an APA reference: `Last, F.` names, `&` before the
/// last, and after six names an ellipsis and the last name.
pub open spec fn apa_authors_spec(authors: Seq<String>) -> Seq<char> {
    let fmt = author_views(authors).map_values(|p: (Seq<char>, Seq<char>)| apa_name(p));
    if fmt.len() == 0 {
        seq![]
    } else if fmt.len() == 1 {
        fmt[0]
    } else if fmt.len() == 2 {
        fmt[0] + ", & "@ + fmt[1]
    } else if fmt.len() <= 7 {
        join(fmt.drop_last(), ", "@) + ", & "@ + fmt.last()
    } else {
        join(fmt.take(6), ", "@) + ", ... "@ + fmt.last()
    }
}

pub open spec fn apa_vol_issue(r: Reference) -> Seq<char> {
    if r.volume@.len() > 0 && r.issue@.len() > 0 {
        ", *"@ + r.volume@ + "*("@ + r.issue@ + ")"@
    } else if r.volume@.len() > 0 {
        ", *"@ + r.volume@ + "*"@
    } else {
        seq![]
    }
}

pub open spec fn apa_journal(r: Reference) -> Seq<char> {
    let doi_part = wrap_nonempty(r.doi@, " https://doi.org/"@, seq![]);
    if r.journal@.len() > 0 {
        " *"@ + r.journal@ + "*"@ + apa_vol_issue(r) + wrap_nonempty(r.pages@, ", "@, seq![]) + "."@
            + doi_part
    } else {
        doi_part
    }
}

pub open spec fn format_apa_spec(r: Reference) -> Seq<char> {
    let year = if r.year@.len() == 0 {
        "n.d."@
    } else {
        r.year@
    };
    trim(apa_authors_spec(r.authors@) + " ("@ + year + ").  "@ + r.title@ + ". "@ + apa_journal(r))
}

/// Each author's name formatted by `name_of`, over the parsed names.
fn apa_names(authors: &Vec<String>) -> (r: Vec<Vec<char>>)
    ensures
        views(r@) == author_views(authors@).map_values(
            |p: (Seq<char>, Seq<char>)| apa_name(p),
        ),
{
    let parsed = parse_authors(authors);
    let ghost target = author_views(authors@).map_values(|p: (Seq<char>, Seq<char>)| apa_name(p));
    let mut out: Vec<Vec<char>> = Vec::new();
    let n = parsed.len();
    for i in 0..n
        invariant
            n == parsed@.len() == authors@.len(),
            forall|j: int|
                0 <= j < authors@.len() ==> ((#[trigger] parsed@[j]).0@, parsed@[j].1@)
                    == author_parts(authors@[j]@),
            target == author_views(authors@).map_values(|p: (Seq<char>, Seq<char>)| apa_name(p)),
            views(out@) == target.take(i as int),
    {
        let mut s = copy_chars(parsed[i].0.as_slice());
        append_str(&mut s, ", ");
        let ini = initials(parsed[i].1.as_slice());
        append(&mut s, ini.as_slice());
        let ghost before = out@;
        out.push(s);
        assert(views(out@) =~= views(before).push(s@));
        assert(target.take(i + 1) =~= target.take(i as int).push(target[i as int]));
    }
    assert(target.take(n as int) =~= target);
    out
}

fn comma_sep() -> (r: Vec<char>)
    ensures
        r@ == ", "@,
{
    chars_of(", ")
}

fn apa_authors(authors: &Vec<String>) -> (r: Vec<char>)
    ensures
        r@ == apa_authors_spec(authors@),
{
    let fmt = apa_names(authors);
    let n = fmt.len();
    if n == 0 {
        Vec::new()
    } else if n == 1 {
        copy_chars(fmt[0].as_slice())
    } else if n == 2 {
        let mut out = copy_chars(fmt[0].as_slice());
        append_str(&mut out, ", & ");
        append(&mut out, fmt[1].as_slice());
        out
    } else if n <= 7 {
        let rest = take_parts(&fmt, n - 1);
        assert(views(fmt@).take(n - 1) =~= views(fmt@).drop_last());
        let sep = comma_sep();
        let mut out = join_of(&rest, sep.as_slice());
        append_str(&mut out, ", & ");
        append(&mut out, fmt[n - 1].as_slice());
        out
    } else {
        let first6 = take_parts(&fmt, 6);
        let sep = comma_sep();
        let mut out = join_of(&first6, sep.as_slice());
        append_str(&mut out, ", ... ");
        append(&mut out, fmt[n - 1].as_slice());
        out
    }
}

fn apa_vol_issue_of(r: &Reference) -> (out: Vec<char>)
    ensures
        out@ == apa_vol_issue(*r),
{
    let vol = chars_of(r.volume.as_str());
    let iss = chars_of(r.issue.as_str());
    let mut out: Vec<char> = Vec::new();
    if vol.len() > 0 && iss.len() > 0 {
        append_str(&mut out, ", *");
        append(&mut out, vol.as_slice());
        append_str(&mut out, "*(");
        append(&mut out, iss.as_slice());
        append_str(&mut out, ")");
    } else if vol.len() > 0 {
        append_str(&mut out, ", *");
        append(&mut out, vol.as_slice());
        append_str(&mut out, "*");
    }
    out
}

fn apa_journal_of(r: &Reference) -> (out: Vec<char>)
    ensures
        out@ == apa_journal(*r),
{
    proof {
        reveal_strlit("");
    }
    let doi = chars_of(r.doi.as_str());
    let doi_part = wrap_nonempty_of(doi.as_slice(), " https://doi.org/", "");
    let journal = chars_of(r.journal.as_str());
    if journal.len() > 0 {
        let mut out = chars_of(" *");
        append(&mut out, journal.as_slice());
        append_str(&mut out, "*");
        let vi = apa_vol_issue_of(r);
        append(&mut out, vi.as_slice());
        let pages = chars_of(r.pages.as_str());
        let pp = wrap_nonempty_of(pages.as_slice(), ", ", "");
        append(&mut out, pp.as_slice());
        append_str(&mut out, ".");
        append(&mut out, doi_part.as_slice());
        assert(out@ =~= " *"@ + r.journal@ + "*"@ + apa_vol_issue(*r) + wrap_nonempty(
            r.pages@,
            ", "@,
            seq![],
        ) + "."@ + wrap_nonempty(r.doi@, " https://doi.org/"@, seq![]));
        out
    } else {
        doi_part
    }
}

/// An APA 7 reference.
pub fn format_apa(r: &Reference) -> (s: String)
    ensures
        s@ == format_apa_spec(*r),
{
    let mut out = apa_authors(&r.authors);
    append_str(&mut out, " (");
    if chars_of(r.year.as_str()).len() == 0 {
        append_str(&mut out, "n.d.");
    } else {
        append_str(&mut out, r.year.as_str());
    }
    append_str(&mut out, ").  ");
    append_str(&mut out, r.title.as_str());
    append_str(&mut out, ". ");
    let j = apa_journal_of(r);
    append(&mut out, j.as_slice());
    string_of(trim_of(out.as_slice()).as_slice())
}

// ── MLA 9 ────────────────────────────────────────────────────────────────────

pub open spec fn full_name(p: (Seq<char>, Seq<char>)) -> Seq<char> {
    if p.1.len() == 0 {
        p.0
    } else {
        p.0 + ", "@ + p.1
    }
}

/// The author list of an MLA reference: the first author, and `et al.`
/// when there are more.
pub open spec fn mla_authors_spec(authors: Seq<String>) -> Seq<char> {
    let ps = author_views(authors);
    if ps.len() == 0 {
        seq![]
    } else if ps.len() == 1 {
        full_name(ps[0])
    } else {
        full_name(ps[0]) + ", et al."@
    }
}

pub open spec fn format_mla_spec(r: Reference) -> Seq<char> {
    let a = mla_authors_spec(r.authors@);
    let lead = if a.len() == 0 {
        seq![]
    } else {
        a + "."@
    };
    trim(lead + " \""@ + r.title@ + "\" *"@ + r.journal@ + "*, "@ + wrap_nonempty(
        r.volume@,
        "vol. "@,
        ", "@,
    ) + wrap_nonempty(r.issue@, "no. "@, ", "@) + r.year@ + ", "@ + wrap_nonempty(
        r.pages@,
        "pp. "@,
        seq![],
    ) + wrap_nonempty(r.doi@, ", doi:"@, seq![]) + "."@)
}

fn full_name_of(last: &Vec<char>, first: &Vec<char>) -> (r: Vec<char>)
    ensures
        r@ == full_name((last@, first@)),
{
    let mut out = copy_chars(last.as_slice());
    if first.len() > 0 {
        append_str(&mut out, ", ");
        append(&mut out, first.as_slice());
    }
    out
}

fn mla_authors(authors: &Vec<String>) -> (r: Vec<char>)
    ensures
        r@ == mla_authors_spec(authors@),
{
    let parsed = parse_authors(authors);
    if parsed.len() == 0 {
        Vec::new()
    } else {
        assert(author_views(authors@)[0] == author_parts(authors@[0]@));
        let mut out = full_name_of(&parsed[0].0, &parsed[0].1);
        if parsed.len() > 1 {
            append_str(&mut out, ", et al.");
        }
        out
    }
}

/// An MLA 9 reference.
pub fn format_mla(r: &Reference) -> (s: String)
    ensures
        s@ == format_mla_spec(*r),
{
    proof {
        reveal_strlit("");
    }
    let a = mla_authors(&r.authors);
    let mut out: Vec<char> = Vec::new();
    if a.len() > 0 {
        append(&mut out, a.as_slice());
        append_str(&mut out, ".");
    }
    append_str(&mut out, " \"");
    append_str(&mut out, r.title.as_str());
    append_str(&mut out, "\" *");
    append_str(&mut out, r.journal.as_str());
    append_str(&mut out, "*, ");
    let vol = chars_of(r.volume.as_str());
    let v = wrap_nonempty_of(vol.as_slice(), "vol. ", ", ");
    append(&mut out, v.as_slice());
    let iss = chars_of(r.issue.as_str());
    let i = wrap_nonempty_of(iss.as_slice(), "no. ", ", ");
    append(&mut out, i.as_slice());
    append_str(&mut out, r.year.as_str());
    append_str(&mut out, ", ");
    let pages = chars_of(r.pages.as_str());
    let p = wrap_nonempty_of(pages.as_slice(), "pp. ", "");
    append(&mut out, p.as_slice());
    let doi = chars_of(r.doi.as_str());
    let d = wrap_nonempty_of(doi.as_slice(), ", doi:", "");
    append(&mut out, d.as_slice());
    append_str(&mut out, ".");
    let ghost lead = if a@.len() == 0 {
        seq![]
    } else {
        a@ + "."@
    };
    assert(out@ =~= lead + " \""@ + r.title@ + "\" *"@ + r.journal@ + "*, "@ + wrap_nonempty(
        r.volume@,
        "vol. "@,
        ", "@,
    ) + wrap_nonempty(r.issue@, "no. "@, ", "@) + r.year@ + ", "@ + wrap_nonempty(
        r.pages@,
        "pp. "@,
        seq![],
    ) + wrap_nonempty(r.doi@, ", doi:"@, seq![]) + "."@);
    string_of(trim_of(out.as_slice()).as_slice())
}

// ── Chicago 17 (author-date) ─────────────────────────────────────────────────

pub open spec fn given_first(p: (Seq<char>, Seq<char>)) -> Seq<char> {
    if p.1.len() == 0 {
        p.0
    } else {
        p.1 + " "@ + p.0
    }
}

/// The author list of a Chicago reference: the first author inverted, the
/// others given name first, joined by `, and`.
pub open spec fn chicago_authors_spec(authors: Seq<String>) -> Seq<char> {
    let ps = author_views(authors);
    if ps.len() == 0 {
        seq![]
    } else if ps.len() == 1 {
        full_name(ps[0])
    } else {
        ps[0].0 + ", "@ + ps[0].1 + ", and "@ + join(
            ps.skip(1).map_values(|p: (Seq<char>, Seq<char>)| given_first(p)),
            ", and "@,
        )
    }
}

pub open spec fn chicago_vol_issue(r: Reference) -> Seq<char> {
    if r.volume@.len() > 0 && r.issue@.len() > 0 {
        " "@ + r.volume@ + " ("@ + r.issue@ + ")"@
    } else if r.volume@.len() > 0 {
        " "@ + r.volume@
    } else {
        seq![]
    }
}

pub open spec fn format_chicago_spec(r: Reference) -> Seq<char> {
    trim(chicago_authors_spec(r.authors@) + " "@ + r.year@ + " \""@ + r.title@ + "\" *"@
        + r.journal@ + "*"@ + chicago_vol_issue(r) + wrap_nonempty(r.pages@, ": "@, seq![]) + "."@
        + wrap_nonempty(r.doi@, " https://doi.org/"@, seq![]))
}

fn chicago_authors(authors: &Vec<String>) -> (r: Vec<char>)
    ensures
        r@ == chicago_authors_spec(authors@),
{
    let parsed = parse_authors(authors);
    let n = parsed.len();
    let ghost ps = author_views(authors@);
    if n == 0 {
        return Vec::new();
    }
    assert(ps[0] == author_parts(authors@[0]@));
    if n == 1 {
        return full_name_of(&parsed[0].0, &parsed[0].1);
    }
    let ghost target = ps.skip(1).map_values(|p: (Seq<char>, Seq<char>)| given_first(p));
    let mut rest: Vec<Vec<char>> = Vec::new();
    let mut i: usize = 1;
    while i < n
        invariant
            n == parsed@.len() == authors@.len(),
            1 <= i <= n,
            ps == author_views(authors@),
            forall|j: int|
                0 <= j < authors@.len() ==> ((#[trigger] parsed@[j]).0@, parsed@[j].1@)
                    == author_parts(authors@[j]@),
            target == ps.skip(1).map_values(|p: (Seq<char>, Seq<char>)| given_first(p)),
            views(rest@) == target.take(i - 1),
        decreases n - i,
    {
        let last = &parsed[i].0;
        let first = &parsed[i].1;
        let mut s: Vec<char> = Vec::new();
        if first.len() == 0 {
            append(&mut s, last.as_slice());
        } else {
            append(&mut s, first.as_slice());
            append_str(&mut s, " ");
            append(&mut s, last.as_slice());
        }
        assert(ps[i as int] == author_parts(authors@[i as int]@));
        assert(target[i - 1] == given_first(ps[i as int]));
        let ghost before = rest@;
        rest.push(s);
        assert(views(rest@) =~= views(before).push(s@));
        assert(target.take(i as int) =~= target.take(i - 1).push(target[i - 1]));
        i += 1;
    }
    assert(target.take(n - 1) =~= target);
    let mut out = copy_chars(parsed[0].0.as_slice());
    append_str(&mut out, ", ");
    append(&mut out, parsed[0].1.as_slice());
    append_str(&mut out, ", and ");
    let sep = chars_of(", and ");
    let joined = join_of(&rest, sep.as_slice());
    append(&mut out, joined.as_slice());
    out
}

/// A Chicago 17 author-date reference.
pub fn format_chicago(r: &Reference) -> (s: String)
    ensures
        s@ == format_chicago_spec(*r),
{
    proof {
        reveal_strlit("");
    }
    let mut out = chicago_authors(&r.authors);
    append_str(&mut out, " ");
    append_str(&mut out, r.year.as_str());
    append_str(&mut out, " \"");
    append_str(&mut out, r.title.as_str());
    append_str(&mut out, "\" *");
    append_str(&mut out, r.journal.as_str());
    append_str(&mut out, "*");
    let vol = chars_of(r.volume.as_str());
    let iss = chars_of(r.issue.as_str());
    if vol.len() > 0 && iss.len() > 0 {
        append_str(&mut out, " ");
        append(&mut out, vol.as_slice());
        append_str(&mut out, " (");
        append(&mut out, iss.as_slice());
        append_str(&mut out, ")");
    } else if vol.len() > 0 {
        append_str(&mut out, " ");
        append(&mut out, vol.as_slice());
    }
    let pages = chars_of(r.pages.as_str());
    let p = wrap_nonempty_of(pages.as_slice(), ": ", "");
    append(&mut out, p.as_slice());
    append_str(&mut out, ".");
    let doi = chars_of(r.doi.as_str());
    let d = wrap_nonempty_of(doi.as_slice(), " https://doi.org/", "");
    append(&mut out, d.as_slice());
    assert(out@ =~= chicago_authors_spec(r.authors@) + " "@ + r.year@ + " \""@ + r.title@
        + "\" *"@ + r.journal@ + "*"@ + chicago_vol_issue(*r) + wrap_nonempty(r.pages@, ": "@, seq![])
        + "."@ + wrap_nonempty(r.doi@, " https://doi.org/"@, seq![]));
    string_of(trim_of(out.as_slice()).as_slice())
}

// ── Vancouver ────────────────────────────────────────────────────────────────

/// `s` without its full stops and spaces.
pub open spec fn without_dots_spaces(s: Seq<char>) -> Seq<char>
    decreases s.len(),
{
    if s.len() == 0 {
        seq![]
    } else {
        let rest = without_dots_spaces(s.drop_last());
        if s.last() == '.' || s.last() == ' ' {
            rest
        } else {
            rest.push(s.last())
        }
    }
}

fn without_dots_spaces_of(s: &[char]) -> (r: Vec<char>)
    ensures
        r@ == without_dots_spaces(s@),
{
    let mut out: Vec<char> = Vec::new();
    let n = s.len();
    for i in 0..n
        invariant
            n == s@.len(),
            out@ == without_dots_spaces(s@.take(i as int)),
    {
        assert(s@.take(i + 1).drop_last() =~= s@.take(i as int));
        if s[i] != '.' && s[i] != ' ' {
            out.push(s[i]);
        }
    }
    assert(s@.take(n as int) =~= s@);
    out
}

pub open spec fn vancouver_name(p: (Seq<char>, Seq<char>)) -> Seq<char> {
    p.0 + " "@ + without_dots_spaces(initials_spec(p.1))
}

pub open spec fn vancouver_vol_issue(r: Reference) -> Seq<char> {
    if r.volume@.len() > 0 && r.issue@.len() > 0 {
        r.year@ + ";"@ + r.volume@ + "("@ + r.issue@ + ")"@
    } else if r.volume@.len() > 0 {
        r.year@ + ";"@ + r.volume@
    } else {
        r.year@
    }
}

/// A Vancouver reference: up to six `Last FM` names, then `et al.`.
pub open spec fn format_vancouver_spec(r: Reference) -> Seq<char> {
    let names = author_views(r.authors@).map_values(|p: (Seq<char>, Seq<char>)| vancouver_name(p));
    let author_str = if names.len() > 6 {
        join(names.take(6), ", "@) + ", et al."@
    } else {
        join(names, ", "@)
    };
    trim(author_str + ". "@ + r.title@ + ". "@ + r.journal@ + ". "@ + vancouver_vol_issue(r)
        + wrap_nonempty(r.pages@, ":"@, seq![]) + "."@)
}

fn vancouver_names(authors: &Vec<String>) -> (r: Vec<Vec<char>>)
    ensures
        views(r@) == author_views(authors@).map_values(
            |p: (Seq<char>, Seq<char>)| vancouver_name(p),
        ),
{
    let parsed = parse_authors(authors);
    let ghost target = author_views(authors@).map_values(
        |p: (Seq<char>, Seq<char>)| vancouver_name(p),
    );
    let mut out: Vec<Vec<char>> = Vec::new();
    let n = parsed.len();
    for i in 0..n
        invariant
            n == parsed@.len() == authors@.len(),
            forall|j: int|
                0 <= j < authors@.len() ==> ((#[trigger] parsed@[j]).0@, parsed@[j].1@)
                    == author_parts(authors@[j]@),
            target == author_views(authors@).map_values(
                |p: (Seq<char>, Seq<char>)| vancouver_name(p),
            ),
            views(out@) == target.take(i as int),
    {
        let mut s = copy_chars(parsed[i].0.as_slice());
        append_str(&mut s, " ");
        let ini = initials(parsed[i].1.as_slice());
        let compact = without_dots_spaces_of(ini.as_slice());
        append(&mut s, compact.as_slice());
        let ghost before = out@;
        out.push(s);
        assert(views(out@) =~= views(before).push(s@));
        assert(target.take(i + 1) =~= target.take(i as int).push(target[i as int]));
    }
    assert(target.take(n as int) =~= target);
    out
}

/// A Vancouver reference.
pub fn format_vancouver(r: &Reference) -> (s: String)
    ensures
        s@ == format_vancouver_spec(*r),
{
    proof {
        reveal_strlit("");
    }
    let names = vancouver_names(&r.authors);
    let sep = comma_sep();
    let mut out = if names.len() > 6 {
        let first6 = take_parts(&names, 6);
        let mut a = join_of(&first6, sep.as_slice());
        append_str(&mut a, ", et al.");
        a
    } else {
        join_of(&names, sep.as_slice())
    };
    let ghost author_str = out@;
    append_str(&mut out, ". ");
    append_str(&mut out, r.title.as_str());
    append_str(&mut out, ". ");
    append_str(&mut out, r.journal.as_str());
    append_str(&mut out, ". ");
    let vol = chars_of(r.volume.as_str());
    let iss = chars_of(r.issue.as_str());
    let year = chars_of(r.year.as_str());
    append(&mut out, year.as_slice());
    if vol.len() > 0 && iss.len() > 0 {
        append_str(&mut out, ";");
        append(&mut out, vol.as_slice());
        append_str(&mut out, "(");
        append(&mut out, iss.as_slice());
        append_str(&mut out, ")");
    } else if vol.len() > 0 {
        append_str(&mut out, ";");
        append(&mut out, vol.as_slice());
    }
    let pages = chars_of(r.pages.as_str());
    let p = wrap_nonempty_of(pages.as_slice(), ":", "");
    append(&mut out, p.as_slice());
    append_str(&mut out, ".");
    assert(out@ =~= author_str + ". "@ + r.title@ + ". "@ + r.journal@ + ". "@
        + vancouver_vol_issue(*r) + wrap_nonempty(r.pages@, ":"@, seq![]) + "."@);
    string_of(trim_of(out.as_slice()).as_slice())
}

// ── IEEE ─────────────────────────────────────────────────────────────────────

pub open spec fn ieee_name(p: (Seq<char>, Seq<char>)) -> Seq<char> {
    initials_spec(p.1) + " "@ + p.0
}

/// An IEEE reference: one or two `F. Last` names, or the first and `et al.`.
pub open spec fn format_ieee_spec(r: Reference) -> Seq<char> {
    let names = author_views(r.authors@).map_values(|p: (Seq<char>, Seq<char>)| ieee_name(p));
    let author_str = if names.len() == 0 {
        seq![]
    } else if names.len() == 1 {
        names[0]
    } else if names.len() == 2 {
        names[0] + " and "@ + names[1]
    } else {
        names[0] + " et al."@
    };
    trim(author_str + ", \""@ + r.title@ + "\", *"@ + r.journal@ + "*"@ + wrap_nonempty(
        r.volume@,
        ", vol. "@,
        seq![],
    ) + wrap_nonempty(r.issue@, ", no. "@, seq![]) + wrap_nonempty(r.pages@, ", pp. "@, seq![])
        + ", "@ + r.year@ + wrap_nonempty(r.doi@, ", doi: "@, seq![]))
}

fn ieee_names(authors: &Vec<String>) -> (r: Vec<Vec<char>>)
    ensures
        views(r@) == author_views(authors@).map_values(|p: (Seq<char>, Seq<char>)| ieee_name(p)),
{
    let parsed = parse_authors(authors);
    let ghost target = author_views(authors@).map_values(|p: (Seq<char>, Seq<char>)| ieee_name(p));
    let mut out: Vec<Vec<char>> = Vec::new();
    let n = parsed.len();
    for i in 0..n
        invariant
            n == parsed@.len() == authors@.len(),
            forall|j: int|
                0 <= j < authors@.len() ==> ((#[trigger] parsed@[j]).0@, parsed@[j].1@)
                    == author_parts(authors@[j]@),
            target == author_views(authors@).map_values(
                |p: (Seq<char>, Seq<char>)| ieee_name(p),
            ),
            views(out@) == target.take(i as int),
    {
        let mut s = initials(parsed[i].1.as_slice());
        append_str(&mut s, " ");
        append(&mut s, parsed[i].0.as_slice());
        let ghost before = out@;
        out.push(s);
        assert(views(out@) =~= views(before).push(s@));
        assert(target.take(i + 1) =~= target.take(i as int).push(target[i as int]));
    }
    assert(target.take(n as int) =~= target);
    out
}

/// An IEEE reference.
pub fn format_ieee(r: &Reference) -> (s: String)
    ensures
        s@ == format_ieee_spec(*r),
{
    proof {
        reveal_strlit("");
    }
    let names = ieee_names(&r.authors);
    let mut out: Vec<char> = Vec::new();
    if names.len() == 1 {
        append(&mut out, names[0].as_slice());
    } else if names.len() == 2 {
        append(&mut out, names[0].as_slice());
        append_str(&mut out, " and ");
        append(&mut out, names[1].as_slice());
    } else if names.len() > 2 {
        append(&mut out, names[0].as_slice());
        append_str(&mut out, " et al.");
    }
    let ghost author_str = out@;
    append_str(&mut out, ", \"");
    append_str(&mut out, r.title.as_str());
    append_str(&mut out, "\", *");
    append_str(&mut out, r.journal.as_str());
    append_str(&mut out, "*");
    let vol = chars_of(r.volume.as_str());
    let v = wrap_nonempty_of(vol.as_slice(), ", vol. ", "");
    append(&mut out, v.as_slice());
    let iss = chars_of(r.issue.as_str());
    let i = wrap_nonempty_of(iss.as_slice(), ", no. ", "");
    append(&mut out, i.as_slice());
    let pages = chars_of(r.pages.as_str());
    let p = wrap_nonempty_of(pages.as_slice(), ", pp. ", "");
    append(&mut out, p.as_slice());
    append_str(&mut out, ", ");
    append_str(&mut out, r.year.as_str());
    let doi = chars_of(r.doi.as_str());
    let d = wrap_nonempty_of(doi.as_slice(), ", doi: ", "");
    append(&mut out, d.as_slice());
    assert(out@ =~= author_str + ", \""@ + r.title@ + "\", *"@ + r.journal@ + "*"@ + wrap_nonempty(
        r.volume@,
        ", vol. "@,
        seq![],
    ) + wrap_nonempty(r.issue@, ", no. "@, seq![]) + wrap_nonempty(r.pages@, ", pp. "@, seq![])
        + ", "@ + r.year@ + wrap_nonempty(r.doi@, ", doi: "@, seq![]));
    string_of(trim_of(out.as_slice()).as_slice())
}

// ── Style dispatch ───────────────────────────────────────────────────────────

/// The citation of `r` in the style named `style` (case-insensitively), or
/// the error for an unknown style.
pub open spec fn citation_text(r: Reference, style: Seq<char>) -> Result<Seq<char>, Seq<char>> {
    let s = lowercase(style);
    if s == "apa"@ {
        Ok(format_apa_spec(r))
    } else if s == "mla"@ {
        Ok(format_mla_spec(r))
    } else if s == "chicago"@ {
        Ok(format_chicago_spec(r))
    } else if s == "vancouver"@ {
        Ok(format_vancouver_spec(r))
    } else if s == "ieee"@ {
        Ok(format_ieee_spec(r))
    } else {
        Err("Unknown citation style: "@ + s)
    }
}

/// Formats `reference` in the named style: `apa`, `mla`, `chicago`,
/// `vancouver` or `ieee`, in any letter case.
pub fn format_citation(reference: Reference, style: String) -> (r: Result<String, String>)
    ensures
        match r {
            Ok(t) => citation_text(reference, style@) == Ok::<Seq<char>, Seq<char>>(t@),
            Err(e) => citation_text(reference, style@) == Err::<Seq<char>, Seq<char>>(e@),
        },
{
    let lower = to_lowercase(style.as_str());
    let l = chars_of(lower.as_str());
    if crate::text::eq_str(l.as_slice(), "apa") {
        Ok(format_apa(&reference))
    } else if crate::text::eq_str(l.as_slice(), "mla") {
        Ok(format_mla(&reference))
    } else if crate::text::eq_str(l.as_slice(), "chicago") {
        Ok(format_chicago(&reference))
    } else if crate::text::eq_str(l.as_slice(), "vancouver") {
        Ok(format_vancouver(&reference))
    } else if crate::text::eq_str(l.as_slice(), "ieee") {
        Ok(format_ieee(&reference))
    } else {
        let mut m = chars_of("Unknown citation style: ");
        append(&mut m, l.as_slice());
        Err(string_of(m.as_slice()))
    }
}

// ── Laws ─────────────────────────────────────────────────────────────────────

/// The names, each followed by `sep`.
pub open spec fn each_followed_by(names: Seq<Seq<char>>, sep: Seq<char>) -> Seq<char>
    decreases names.len(),
{
    if names.len() == 0 {
        seq![]
    } else {
        each_followed_by(names.drop_last(), sep) + names.last() + sep
    }
}

proof fn lemma_join_then_sep(names: Seq<Seq<char>>, sep: Seq<char>)
    requires
        names.len() >= 1,
    ensures
        join(names, sep) + sep == each_followed_by(names, sep),
    decreases names.len(),
{
    if names.len() == 1 {
        assert(names.drop_last() =~= Seq::<Seq<char>>::empty());
        assert(each_followed_by(names.drop_last(), sep) == Seq::<char>::empty());
        assert(each_followed_by(names, sep) =~= names[0] + sep);
    } else {
        lemma_join_then_sep(names.drop_last(), sep);
        assert(join(names, sep) + sep =~= (join(names.drop_last(), sep) + sep) + names.last() + sep);
    }
}

/// An author as APA names them: the family name, a comma and the initials.
pub open spec fn apa_author(a: String) -> Seq<char> {
    author_parts(a@).0 + ", "@ + initials_spec(author_parts(a@).1)
}

/// The APA author list names the authors in order, each as `Last, I.`: one
/// author alone; two to seven authors each followed by `, ` but the last,
/// which comes after `& `; more than seven the first six each followed by
/// `, `, then `... ` and the last. No author between is left out.
pub proof fn law_apa_author_list(authors: Seq<String>)
    ensures
        authors.len() == 1 ==> apa_authors_spec(authors) == apa_author(authors[0]),
        2 <= authors.len() <= 7 ==> apa_authors_spec(authors) == each_followed_by(
            authors.drop_last().map_values(|a: String| apa_author(a)),
            ", "@,
        ) + "& "@ + apa_author(authors.last()),
        authors.len() > 7 ==> apa_authors_spec(authors) == each_followed_by(
            authors.take(6).map_values(|a: String| apa_author(a)),
            ", "@,
        ) + "... "@ + apa_author(authors.last()),
{
    reveal_strlit(", ");
    reveal_strlit(", & ");
    reveal_strlit("& ");
    reveal_strlit(", ... ");
    reveal_strlit("... ");
    let fmt = author_views(authors).map_values(|p: (Seq<char>, Seq<char>)| apa_name(p));
    let n = authors.len();
    assert forall|i: int| 0 <= i < n implies #[trigger] fmt[i] == apa_author(authors[i]) by {}
    assert(", & "@ =~= ", "@ + "& "@);
    assert(", ... "@ =~= ", "@ + "... "@);
    if n >= 2 && n <= 7 {
        let names = authors.drop_last().map_values(|a: String| apa_author(a));
        assert(fmt.drop_last() =~= names);
        lemma_join_then_sep(names, ", "@);
        if n == 2 {
            assert(join(names, ", "@) == names[0]);
        }
    }
    if n > 7 {
        let names = authors.take(6).map_values(|a: String| apa_author(a));
        assert(fmt.take(6) =~= names);
        lemma_join_then_sep(names, ", "@);
    }
}

proof fn lemma_visible_middle(p: Seq<char>, t: Seq<char>, q: Seq<char>)
    requires
        t.len() > 0,
        !is_ws(t[0]),
        q.len() > 0,
        !is_ws(q.last()),
    ensures
        contains_text(trim(p + t + q), t),
{
    lemma_trim_around(p, t, q);
    lemma_contains_middle(trim_start(p), t, q);
}

proof fn lemma_mla_fields(r: Reference)
    ensures
        r.volume@.len() > 0 && r.issue@.len() > 0 ==> contains_text(
            format_mla_spec(r),
            "vol. "@ + r.volume@ + ", "@ + ("no. "@ + r.issue@ + ", "@),
        ),
        r.pages@.len() > 0 ==> contains_text(format_mla_spec(r), "pp. "@ + r.pages@),
{
    reveal_strlit("vol. ");
    reveal_strlit("no. ");
    reveal_strlit(", ");
    reveal_strlit(".");
    reveal_strlit("pp. ");
    reveal_strlit(" (");
    reveal_strlit(")");
    reveal_strlit(";");
    reveal_strlit("(");
    reveal_strlit("*");
    reveal_strlit(", *");
    reveal_strlit("*(");
    reveal_strlit(", vol. ");
    reveal_strlit(", no. ");
    reveal_strlit("");
    let a = mla_authors_spec(r.authors@);
    let lead = if a.len() == 0 {
        seq![]
    } else {
        a + "."@
    };
    let mla_p = lead + " \""@ + r.title@ + "\" *"@ + r.journal@ + "*, "@;
    let wp = wrap_nonempty(r.pages@, "pp. "@, seq![]);
    let wd = wrap_nonempty(r.doi@, ", doi:"@, seq![]);
    if r.volume@.len() > 0 && r.issue@.len() > 0 {
        let t = "vol. "@ + r.volume@ + ", "@ + ("no. "@ + r.issue@ + ", "@);
        let q = r.year@ + ", "@ + wp + wd + "."@;
        assert(mla_p + wrap_nonempty(r.volume@, "vol. "@, ", "@) + wrap_nonempty(r.issue@, "no. "@, ", "@)
            + r.year@ + ", "@ + wp + wd + "."@ =~= mla_p + t + q);
        lemma_visible_middle(mla_p, t, q);
    }
    if r.pages@.len() > 0 {
        let pre = mla_p + wrap_nonempty(r.volume@, "vol. "@, ", "@) + wrap_nonempty(r.issue@, "no. "@, ", "@)
            + r.year@ + ", "@;
        let t = "pp. "@ + r.pages@;
        let q = wd + "."@;
        assert(pre + wp + wd + "."@ =~= pre + t + q);
        lemma_visible_middle(pre, t, q);
    }
}

proof fn lemma_chicago_fields(r: Reference)
    ensures
        r.volume@.len() > 0 && !is_ws(r.volume@[0]) && r.issue@.len() > 0 && r.doi@.len() == 0
            ==> contains_text(format_chicago_spec(r), r.volume@ + " ("@ + r.issue@ + ")"@),
{
    reveal_strlit("vol. ");
    reveal_strlit("no. ");
    reveal_strlit(", ");
    reveal_strlit(".");
    reveal_strlit("pp. ");
    reveal_strlit(" (");
    reveal_strlit(")");
    reveal_strlit(";");
    reveal_strlit("(");
    reveal_strlit("*");
    reveal_strlit(", *");
    reveal_strlit("*(");
    reveal_strlit(", vol. ");
    reveal_strlit(", no. ");
    reveal_strlit("");
    if r.volume@.len() > 0 && !is_ws(r.volume@[0]) && r.issue@.len() > 0 && r.doi@.len() == 0 {
        let pre = chicago_authors_spec(r.authors@) + " "@ + r.year@ + " \""@ + r.title@ + "\" *"@ + r.journal@
            + "*"@;
        let t = r.volume@ + " ("@ + r.issue@ + ")"@;
        let q = wrap_nonempty(r.pages@, ": "@, seq![]) + "."@;
        assert(pre + chicago_vol_issue(r) + wrap_nonempty(r.pages@, ": "@, seq![]) + "."@ + wrap_nonempty(
            r.doi@,
            " https://doi.org/"@,
            seq![],
        ) =~= (pre + " "@) + t + q);
        lemma_visible_middle(pre + " "@, t, q);
    }
}

proof fn lemma_vancouver_fields(r: Reference)
    ensures
        r.volume@.len() > 0 && r.issue@.len() > 0 ==> contains_text(
            format_vancouver_spec(r),
            ";"@ + r.volume@ + "("@ + r.issue@ + ")"@,
        ),
{
    reveal_strlit("vol. ");
    reveal_strlit("no. ");
    reveal_strlit(", ");
    reveal_strlit(".");
    reveal_strlit("pp. ");
    reveal_strlit(" (");
    reveal_strlit(")");
    reveal_strlit(";");
    reveal_strlit("(");
    reveal_strlit("*");
    reveal_strlit(", *");
    reveal_strlit("*(");
    reveal_strlit(", vol. ");
    reveal_strlit(", no. ");
    reveal_strlit("");
    if r.volume@.len() > 0 && r.issue@.len() > 0 {
        let names = author_views(r.authors@).map_values(|p: (Seq<char>, Seq<char>)| vancouver_name(p));
        let author_str = if names.len() > 6 {
            join(names.take(6), ", "@) + ", et al."@
        } else {
            join(names, ", "@)
        };
        let pre = author_str + ". "@ + r.title@ + ". "@ + r.journal@ + ". "@ + r.year@;
        let t = ";"@ + r.volume@ + "("@ + r.issue@ + ")"@;
        let q = wrap_nonempty(r.pages@, ":"@, seq![]) + "."@;
        assert(author_str + ". "@ + r.title@ + ". "@ + r.journal@ + ". "@ + vancouver_vol_issue(r)
            + wrap_nonempty(r.pages@, ":"@, seq![]) + "."@ =~= pre + t + q);
        lemma_visible_middle(pre, t, q);
    }
}

proof fn lemma_apa_fields(r: Reference)
    ensures
        r.journal@.len() > 0 && r.volume@.len() > 0 && r.issue@.len() > 0 && r.doi@.len() == 0
            ==> contains_text(
            format_apa_spec(r),
            "*"@ + r.journal@ + "*"@ + (", *"@ + r.volume@ + "*("@ + r.issue@ + ")"@),
        ),
{
    reveal_strlit("vol. ");
    reveal_strlit("no. ");
    reveal_strlit(", ");
    reveal_strlit(".");
    reveal_strlit("pp. ");
    reveal_strlit(" (");
    reveal_strlit(")");
    reveal_strlit(";");
    reveal_strlit("(");
    reveal_strlit("*");
    reveal_strlit(", *");
    reveal_strlit("*(");
    reveal_strlit(", vol. ");
    reveal_strlit(", no. ");
    reveal_strlit("");
    if r.journal@.len() > 0 && r.volume@.len() > 0 && r.issue@.len() > 0 && r.doi@.len() == 0 {
        let year = if r.year@.len() == 0 {
            "n.d."@
        } else {
            r.year@
        };
        let pre = apa_authors_spec(r.authors@) + " ("@ + year + ").  "@ + r.title@ + ". "@ + " "@;
        let t = "*"@ + r.journal@ + "*"@ + (", *"@ + r.volume@ + "*("@ + r.issue@ + ")"@);
        let q = wrap_nonempty(r.pages@, ", "@, seq![]) + "."@;
        reveal_strlit(" *");
        reveal_strlit(" ");
        assert(" *"@ =~= " "@ + "*"@);
        assert(apa_authors_spec(r.authors@) + " ("@ + year + ").  "@ + r.title@ + ". "@ + apa_journal(r) =~= pre
            + t + q);
        lemma_visible_middle(pre, t, q);
    }
}

proof fn lemma_ieee_fields(r: Reference)
    ensures
        r.volume@.len() > 0 && r.issue@.len() > 0 && r.year@.len() > 0 && !is_ws(r.year@.last())
            && r.doi@.len() == 0 ==> contains_text(
            format_ieee_spec(r),
            ", vol. "@ + r.volume@ + ", no. "@ + r.issue@,
        ),
{
    reveal_strlit("vol. ");
    reveal_strlit("no. ");
    reveal_strlit(", ");
    reveal_strlit(".");
    reveal_strlit("pp. ");
    reveal_strlit(" (");
    reveal_strlit(")");
    reveal_strlit(";");
    reveal_strlit("(");
    reveal_strlit("*");
    reveal_strlit(", *");
    reveal_strlit("*(");
    reveal_strlit(", vol. ");
    reveal_strlit(", no. ");
    reveal_strlit("");
    if r.volume@.len() > 0 && r.issue@.len() > 0 && r.year@.len() > 0 && !is_ws(r.year@.last())
        && r.doi@.len() == 0 {
        let names = author_views(r.authors@).map_values(|p: (Seq<char>, Seq<char>)| ieee_name(p));
        let author_str = if names.len() == 0 {
            seq![]
        } else if names.len() == 1 {
            names[0]
        } else if names.len() == 2 {
            names[0] + " and "@ + names[1]
        } else {
            names[0] + " et al."@
        };
        let pre = author_str + ", \""@ + r.title@ + "\", *"@ + r.journal@ + "*"@;
        let t = ", vol. "@ + r.volume@ + ", no. "@ + r.issue@;
        let q = wrap_nonempty(r.pages@, ", pp. "@, seq![]) + ", "@ + r.year@;
        assert(pre + wrap_nonempty(r.volume@, ", vol. "@, seq![]) + wrap_nonempty(r.issue@, ", no. "@, seq![])
            + wrap_nonempty(r.pages@, ", pp. "@, seq![]) + ", "@ + r.year@ + wrap_nonempty(
            r.doi@,
            ", doi: "@,
            seq![],
        ) =~= pre + t + q);
        lemma_visible_middle(pre, t, q);
    }
}

/// Each style puts the volume and the issue where it belongs and in its
/// own form: MLA `vol. V, no. I, ` and `pp. P`; Chicago `V (I)`; Vancouver
/// `;V(I)`; APA `*Journal*, *V*(I)` (without a DOI); IEEE `, vol. V, no. I`
/// (with a year and without a DOI). The volume is never written where the
/// issue belongs, nor the other way round.
pub proof fn law_styles_place_volume_and_issue(r: Reference)
    ensures
        r.volume@.len() > 0 && r.issue@.len() > 0 ==> contains_text(
            format_mla_spec(r),
            "vol. "@ + r.volume@ + ", "@ + ("no. "@ + r.issue@ + ", "@),
        ),
        r.pages@.len() > 0 ==> contains_text(format_mla_spec(r), "pp. "@ + r.pages@),
        r.volume@.len() > 0 && !is_ws(r.volume@[0]) && r.issue@.len() > 0 && r.doi@.len() == 0
            ==> contains_text(format_chicago_spec(r), r.volume@ + " ("@ + r.issue@ + ")"@),
        r.volume@.len() > 0 && r.issue@.len() > 0 ==> contains_text(
            format_vancouver_spec(r),
            ";"@ + r.volume@ + "("@ + r.issue@ + ")"@,
        ),
        r.journal@.len() > 0 && r.volume@.len() > 0 && r.issue@.len() > 0 && r.doi@.len() == 0
            ==> contains_text(
            format_apa_spec(r),
            "*"@ + r.journal@ + "*"@ + (", *"@ + r.volume@ + "*("@ + r.issue@ + ")"@),
        ),
        r.volume@.len() > 0 && r.issue@.len() > 0 && r.year@.len() > 0 && !is_ws(r.year@.last())
            && r.doi@.len() == 0 ==> contains_text(
            format_ieee_spec(r),
            ", vol. "@ + r.volume@ + ", no. "@ + r.issue@,
        ),
{
    lemma_mla_fields(r);
    lemma_chicago_fields(r);
    lemma_vancouver_fields(r);
    lemma_apa_fields(r);
    lemma_ieee_fields(r);
}

/// An MLA author list is the first author, family name first, alone or
/// followed by `, et al.` when there are others; a Chicago list of two is
/// the first author inverted, `, and `, and the second given name first.
pub proof fn law_mla_chicago_author_lists(authors: Seq<String>)
    ensures
        authors.len() == 1 ==> mla_authors_spec(authors) == full_name(author_parts(authors[0]@)),
        authors.len() >= 2 ==> mla_authors_spec(authors) == full_name(author_parts(authors[0]@)) + ", et al."@,
        authors.len() == 2 ==> chicago_authors_spec(authors) == author_parts(authors[0]@).0 + ", "@ + author_parts(
            authors[0]@,
        ).1 + ", and "@ + given_first(author_parts(authors[1]@)),
{
    if authors.len() == 2 {
        let ps = author_views(authors);
        let rest = ps.skip(1).map_values(|p: (Seq<char>, Seq<char>)| given_first(p));
        assert(rest.len() == 1);
        assert(rest[0] == given_first(author_parts(authors[1]@)));
    }
}

/// Each style name, in lower or upper case, selects its own style.
pub proof fn law_style_names_select_their_style(r: Reference)
    ensures
        citation_text(r, "apa"@) == Ok::<Seq<char>, Seq<char>>(format_apa_spec(r)),
        citation_text(r, "APA"@) == Ok::<Seq<char>, Seq<char>>(format_apa_spec(r)),
        citation_text(r, "mla"@) == Ok::<Seq<char>, Seq<char>>(format_mla_spec(r)),
        citation_text(r, "MLA"@) == Ok::<Seq<char>, Seq<char>>(format_mla_spec(r)),
        citation_text(r, "chicago"@) == Ok::<Seq<char>, Seq<char>>(format_chicago_spec(r)),
        citation_text(r, "CHICAGO"@) == Ok::<Seq<char>, Seq<char>>(format_chicago_spec(r)),
        citation_text(r, "vancouver"@) == Ok::<Seq<char>, Seq<char>>(format_vancouver_spec(r)),
        citation_text(r, "VANCOUVER"@) == Ok::<Seq<char>, Seq<char>>(format_vancouver_spec(r)),
        citation_text(r, "ieee"@) == Ok::<Seq<char>, Seq<char>>(format_ieee_spec(r)),
        citation_text(r, "IEEE"@) == Ok::<Seq<char>, Seq<char>>(format_ieee_spec(r)),
{
    reveal_strlit("apa");
    reveal_strlit("APA");
    reveal_strlit("mla");
    reveal_strlit("MLA");
    reveal_strlit("chicago");
    reveal_strlit("CHICAGO");
    reveal_strlit("vancouver");
    reveal_strlit("VANCOUVER");
    reveal_strlit("ieee");
    reveal_strlit("IEEE");
    assert("mla"@[0] != "apa"@[0]);
    assert("chicago"@.len() != "apa"@.len());
    assert("chicago"@.len() != "mla"@.len());
    assert("vancouver"@.len() != "apa"@.len());
    assert("vancouver"@.len() != "mla"@.len());
    assert("vancouver"@.len() != "chicago"@.len());
    assert("ieee"@.len() != "apa"@.len());
    assert("ieee"@.len() != "mla"@.len());
    assert("ieee"@.len() != "chicago"@.len());
    assert("ieee"@.len() != "vancouver"@.len());
    assert(lowercase("APA"@) =~= "apa"@);
    assert(lowercase("apa"@) =~= "apa"@);
    assert(lowercase("MLA"@) =~= "mla"@);
    assert(lowercase("mla"@) =~= "mla"@);
    assert(lowercase("CHICAGO"@) =~= "chicago"@);
    assert(lowercase("chicago"@) =~= "chicago"@);
    assert(lowercase("VANCOUVER"@) =~= "vancouver"@);
    assert(lowercase("vancouver"@) =~= "vancouver"@);
    assert(lowercase("IEEE"@) =~= "ieee"@);
    assert(lowercase("ieee"@) =~= "ieee"@);
}

} // verus!
