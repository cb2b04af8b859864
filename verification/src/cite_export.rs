//! Export of reference records to RIS and BibTeX, and the small text
//! clean-ups the importers apply.

use vstd::prelude::*;
use crate::cite::{wrap_nonempty, wrap_nonempty_of, Reference};
use crate::pattern::{compile, regex_compiles, regex_replace_all, replace_all};
use crate::text::{
    append, append_str, chars_of, contains_text, copy_chars, lemma_contains_left, lemma_contains_middle,
    lemma_contains_refl, lemma_contains_right, lemma_contains_trans, ends_with, find_char, index_of, join, join_of,
    replace, replace_of, replace_str, slice_of, starts_with, string_of, trim, trim_of, trim_str,
    views,
};
use crate::unicode::{char_is_alphanumeric, unicode_alphanumeric};

verus! {

// ── RIS ──────────────────────────────────────────────────────────────────────

/// The RIS `TY` code of a reference type.
pub open spec fn ris_type(t: Seq<char>) -> Seq<char> {
    if t == "Journal Article"@ {
        "JOUR"@
    } else if t == "Book"@ {
        "BOOK"@
    } else if t == "Book Chapter"@ {
        "CHAP"@
    } else if t == "Conference Paper"@ {
        "CONF"@
    } else if t == "Thesis"@ {
        "THES"@
    } else if t == "Report"@ {
        "RPRT"@
    } else if t == "Website"@ {
        "ELEC"@
    } else if t == "Preprint"@ {
        "JOUR"@
    } else {
        "GEN"@
    }
}

/// One `tag + item + newline` line per item.
pub open spec fn tagged_lines(tag: Seq<char>, items: Seq<String>) -> Seq<char>
    decreases items.len(),
{
    if items.len() == 0 {
        seq![]
    } else {
        tagged_lines(tag, items.drop_last()) + tag + items.last()@ + "\n"@
    }
}

pub open spec fn ris_head(r: Reference) -> Seq<char> {
    "TY  - "@ + ris_type(r.reference_type@) + "\n"@ + "T1  - "@ + r.title@ + "\n"@ + tagged_lines(
        "AU  - "@,
        r.authors@,
    )
}

pub open spec fn ris_fields(r: Reference) -> Seq<char> {
    ris_fields_front(r) + ris_fields_back(r)
}

pub open spec fn ris_fields_front(r: Reference) -> Seq<char> {
    wrap_nonempty(r.abstract_text@, "AB  - "@, "\n"@) + wrap_nonempty(r.journal@, "JO  - "@, "\n"@)
        + wrap_nonempty(r.year@, "PY  - "@, "\n"@) + wrap_nonempty(r.volume@, "VL  - "@, "\n"@)
        + wrap_nonempty(r.issue@, "IS  - "@, "\n"@) + wrap_nonempty(r.pages@, "SP  - "@, "\n"@)
}

pub open spec fn ris_fields_back(r: Reference) -> Seq<char> {
    wrap_nonempty(r.publisher@, "PB  - "@, "\n"@) + wrap_nonempty(r.doi@, "DO  - "@, "\n"@)
        + wrap_nonempty(r.url@, "UR  - "@, "\n"@) + wrap_nonempty(r.issn@, "SN  - "@, "\n"@)
        + wrap_nonempty(r.isbn@, "SN  - "@, "\n"@) + wrap_nonempty(r.language@, "LA  - "@, "\n"@)
}

pub open spec fn ris_tail(r: Reference) -> Seq<char> {
    tagged_lines("KW  - "@, r.tags@) + wrap_nonempty(r.notes@, "N1  - "@, "\n"@) + "ER  - \n\n"@
}

/// The RIS record of one reference: type, title and authors, each
/// non-empty field on a tagged line, keywords and notes, and `ER  - ` and a
/// blank line to close it.
pub open spec fn ris_entry(r: Reference) -> Seq<char> {
    ris_head(r) + ris_fields(r) + ris_tail(r)
}

/// The RIS records of `refs`, one after another.
pub open spec fn ris_export(refs: Seq<Reference>) -> Seq<char>
    decreases refs.len(),
{
    if refs.len() == 0 {
        seq![]
    } else {
        ris_export(refs.drop_last()) + ris_entry(refs.last())
    }
}

fn ris_type_of(t: &str) -> (r: &'static str)
    ensures
        r@ == ris_type(t@),
{
    let v = chars_of(t);
    let s = v.as_slice();
    if crate::text::eq_str(s, "Journal Article") {
        "JOUR"
    } else if crate::text::eq_str(s, "Book") {
        "BOOK"
    } else if crate::text::eq_str(s, "Book Chapter") {
        "CHAP"
    } else if crate::text::eq_str(s, "Conference Paper") {
        "CONF"
    } else if crate::text::eq_str(s, "Thesis") {
        "THES"
    } else if crate::text::eq_str(s, "Report") {
        "RPRT"
    } else if crate::text::eq_str(s, "Website") {
        "ELEC"
    } else if crate::text::eq_str(s, "Preprint") {
        "JOUR"
    } else {
        "GEN"
    }
}

fn push_tagged_lines(out: &mut Vec<char>, tag: &str, items: &Vec<String>)
    ensures
        final(out)@ == old(out)@ + tagged_lines(tag@, items@),
{
    let ghost start = out@;
    let n = items.len();
    for i in 0..n
        invariant
            n == items@.len(),
            out@ == start + tagged_lines(tag@, items@.take(i as int)),
    {
        assert(items@.take(i + 1).drop_last() =~= items@.take(i as int));
        append_str(out, tag);
        append_str(out, items[i].as_str());
        append_str(out, "\n");
        assert(out@ =~= start + tagged_lines(tag@, items@.take(i + 1)));
    }
    assert(items@.take(n as int) =~= items@);
}

fn push_field(out: &mut Vec<char>, value: &String, pre: &str, post: &str)
    ensures
        final(out)@ == old(out)@ + wrap_nonempty(value@, pre@, post@),
{
    let v = chars_of(value.as_str());
    let w = wrap_nonempty_of(v.as_slice(), pre, post);
    append(out, w.as_slice());
}

fn push_ris_head(out: &mut Vec<char>, r: &Reference)
    ensures
        final(out)@ == old(out)@ + ris_head(*r),
{
    let ghost start = out@;
    append_str(out, "TY  - ");
    append_str(out, ris_type_of(r.reference_type.as_str()));
    append_str(out, "\n");
    append_str(out, "T1  - ");
    append_str(out, r.title.as_str());
    append_str(out, "\n");
    push_tagged_lines(out, "AU  - ", &r.authors);
    assert(out@ =~= start + ris_head(*r));
}

fn push_ris_fields(out: &mut Vec<char>, r: &Reference)
    ensures
        final(out)@ == old(out)@ + ris_fields(*r),
{
    let ghost start = out@;
    push_field(out, &r.abstract_text, "AB  - ", "\n");
    push_field(out, &r.journal, "JO  - ", "\n");
    push_field(out, &r.year, "PY  - ", "\n");
    push_field(out, &r.volume, "VL  - ", "\n");
    push_field(out, &r.issue, "IS  - ", "\n");
    push_field(out, &r.pages, "SP  - ", "\n");
    assert(out@ =~= start + ris_fields_front(*r));
    let ghost mid = out@;
    push_field(out, &r.publisher, "PB  - ", "\n");
    push_field(out, &r.doi, "DO  - ", "\n");
    push_field(out, &r.url, "UR  - ", "\n");
    push_field(out, &r.issn, "SN  - ", "\n");
    push_field(out, &r.isbn, "SN  - ", "\n");
    push_field(out, &r.language, "LA  - ", "\n");
    assert(out@ =~= mid + ris_fields_back(*r));
    assert(out@ =~= start + ris_fields(*r));
}

fn push_ris_entry(out: &mut Vec<char>, r: &Reference)
    ensures
        final(out)@ == old(out)@ + ris_entry(*r),
{
    let ghost start = out@;
    push_ris_head(out, r);
    push_ris_fields(out, r);
    let ghost mid = out@;
    push_tagged_lines(out, "KW  - ", &r.tags);
    push_field(out, &r.notes, "N1  - ", "\n");
    append_str(out, "ER  - \n\n");
    assert(out@ =~= mid + ris_tail(*r));
    assert(out@ =~= start + ris_entry(*r));
}

/// The references as RIS records.
pub fn export_ris(references: Vec<Reference>) -> (r: Result<String, String>)
    ensures
        r matches Ok(s) && s@ == ris_export(references@),
{
    let mut out: Vec<char> = Vec::new();
    let n = references.len();
    for i in 0..n
        invariant
            n == references@.len(),
            out@ == ris_export(references@.take(i as int)),
    {
        assert(references@.take(i + 1).drop_last() =~= references@.take(i as int));
        push_ris_entry(&mut out, &references[i]);
    }
    assert(references@.take(n as int) =~= references@);
    Ok(string_of(out.as_slice()))
}

// ── BibTeX ───────────────────────────────────────────────────────────────────

/// The BibTeX entry type of a reference type.
pub open spec fn bib_type(t: Seq<char>) -> Seq<char> {
    if t == "Journal Article"@ {
        "article"@
    } else if t == "Book"@ {
        "book"@
    } else if t == "Book Chapter"@ {
        "incollection"@
    } else if t == "Conference Paper"@ {
        "inproceedings"@
    } else if t == "Thesis"@ {
        "phdthesis"@
    } else if t == "Report"@ {
        "techreport"@
    } else {
        "misc"@
    }
}

/// The part of `a` before its first comma.
pub open spec fn before_comma(a: Seq<char>) -> Seq<char> {
    match index_of(a, ',') {
        Some(p) => a.take(p),
        None => a,
    }
}

/// `s` without its spaces.
pub open spec fn without_spaces(s: Seq<char>) -> Seq<char>
    decreases s.len(),
{
    if s.len() == 0 {
        seq![]
    } else if s.last() == ' ' {
        without_spaces(s.drop_last())
    } else {
        without_spaces(s.drop_last()).push(s.last())
    }
}

/// The alphanumeric characters of `s`.
pub open spec fn alnum_only(s: Seq<char>) -> Seq<char>
    decreases s.len(),
{
    if s.len() == 0 {
        seq![]
    } else if unicode_alphanumeric(s.last()) {
        alnum_only(s.drop_last()).push(s.last())
    } else {
        alnum_only(s.drop_last())
    }
}

/// The citation key: the first author's last name (before any comma, spaces
/// removed, `Unknown` when there is no author), letters and digits only,
/// followed by the year.
pub open spec fn bib_key(r: Reference) -> Seq<char> {
    let key_author = if r.authors@.len() > 0 {
        without_spaces(trim(before_comma(r.authors@[0]@)))
    } else {
        "Unknown"@
    };
    alnum_only(key_author) + r.year@
}

pub open spec fn string_views(v: Seq<String>) -> Seq<Seq<char>> {
    v.map_values(|s: String| s@)
}

pub open spec fn bib_head(r: Reference) -> Seq<char> {
    "@"@ + bib_type(r.reference_type@) + "{"@ + bib_key(r) + ",\n"@ + "  title     = {"@ + r.title@
        + "},\n"@ + wrap_nonempty(join(string_views(r.authors@), " and "@), "  author    = {"@, "},\n"@)
}

pub open spec fn bib_fields_front(r: Reference) -> Seq<char> {
    wrap_nonempty(r.journal@, "  journal   = {"@, "},\n"@) + wrap_nonempty(
        r.year@,
        "  year      = {"@,
        "},\n"@,
    ) + wrap_nonempty(r.volume@, "  volume    = {"@, "},\n"@) + wrap_nonempty(
        r.issue@,
        "  number    = {"@,
        "},\n"@,
    ) + if r.pages@.len() > 0 {
        "  pages     = {"@ + replace(r.pages@, "-"@, "--"@) + "},\n"@
    } else {
        seq![]
    }
}

pub open spec fn bib_fields_back(r: Reference) -> Seq<char> {
    wrap_nonempty(r.publisher@, "  publisher = {"@, "},\n"@) + wrap_nonempty(
        r.doi@,
        "  doi       = {"@,
        "},\n"@,
    ) + wrap_nonempty(r.isbn@, "  isbn      = {"@, "},\n"@) + wrap_nonempty(
        r.abstract_text@,
        "  abstract  = {"@,
        "},\n"@,
    ) + if r.tags@.len() > 0 {
        "  keywords  = {"@ + join(string_views(r.tags@), ", "@) + "},\n"@
    } else {
        seq![]
    }
}

/// The BibTeX entry of one reference: type and key, title, each non-empty
/// field (page ranges with `--`), keywords, and a closing brace and blank
/// line.
pub open spec fn bib_entry(r: Reference) -> Seq<char> {
    bib_head(r) + bib_fields_front(r) + bib_fields_back(r) + "}\n\n"@
}

/// The BibTeX entries of `refs`, one after another.
pub open spec fn bib_export(refs: Seq<Reference>) -> Seq<char>
    decreases refs.len(),
{
    if refs.len() == 0 {
        seq![]
    } else {
        bib_export(refs.drop_last()) + bib_entry(refs.last())
    }
}

fn bib_type_of(t: &str) -> (r: &'static str)
    ensures
        r@ == bib_type(t@),
{
    let v = chars_of(t);
    let s = v.as_slice();
    if crate::text::eq_str(s, "Journal Article") {
        "article"
    } else if crate::text::eq_str(s, "Book") {
        "book"
    } else if crate::text::eq_str(s, "Book Chapter") {
        "incollection"
    } else if crate::text::eq_str(s, "Conference Paper") {
        "inproceedings"
    } else if crate::text::eq_str(s, "Thesis") {
        "phdthesis"
    } else if crate::text::eq_str(s, "Report") {
        "techreport"
    } else {
        "misc"
    }
}

fn without_spaces_of(s: &[char]) -> (r: Vec<char>)
    ensures
        r@ == without_spaces(s@),
{
    let mut out: Vec<char> = Vec::new();
    let n = s.len();
    for i in 0..n
        invariant
            n == s@.len(),
            out@ == without_spaces(s@.take(i as int)),
    {
        assert(s@.take(i + 1).drop_last() =~= s@.take(i as int));
        if s[i] != ' ' {
            out.push(s[i]);
        }
    }
    assert(s@.take(n as int) =~= s@);
    out
}

fn alnum_only_of(s: &[char]) -> (r: Vec<char>)
    ensures
        r@ == alnum_only(s@),
{
    let mut out: Vec<char> = Vec::new();
    let n = s.len();
    for i in 0..n
        invariant
            n == s@.len(),
            out@ == alnum_only(s@.take(i as int)),
    {
        assert(s@.take(i + 1).drop_last() =~= s@.take(i as int));
        if char_is_alphanumeric(s[i]) {
            out.push(s[i]);
        }
    }
    assert(s@.take(n as int) =~= s@);
    out
}

fn bib_key_of(r: &Reference) -> (k: Vec<char>)
    ensures
        k@ == bib_key(*r),
{
    let key_author: Vec<char> = if r.authors.len() > 0 {
        let a = chars_of(r.authors[0].as_str());
        let head: Vec<char> = match find_char(a.as_slice(), ',') {
            Some(p) => {
                proof {
                    crate::text::lemma_find_bounds(a@, seq![',']);
                    assert(seq![','].len() == 1);
                    assert(crate::text::find(a@, seq![',']) == Some(p as int));
                }
                let h = slice_of(a.as_slice(), 0, p);
                assert(h@ =~= a@.take(p as int));
                h
            },
            None => copy_chars(a.as_slice()),
        };
        let t = trim_of(head.as_slice());
        without_spaces_of(t.as_slice())
    } else {
        chars_of("Unknown")
    };
    let mut k = alnum_only_of(key_author.as_slice());
    append_str(&mut k, r.year.as_str());
    k
}

fn joined_strings(v: &Vec<String>, sep: &str) -> (r: Vec<char>)
    ensures
        r@ == join(string_views(v@), sep@),
{
    let parts = crate::cite::string_chars(v);
    let sp = chars_of(sep);
    let r = join_of(&parts, sp.as_slice());
    assert(views(parts@) =~= string_views(v@));
    r
}

fn push_bib_head(out: &mut Vec<char>, r: &Reference)
    ensures
        final(out)@ == old(out)@ + bib_head(*r),
{
    let ghost start = out@;
    append_str(out, "@");
    append_str(out, bib_type_of(r.reference_type.as_str()));
    append_str(out, "{");
    let key = bib_key_of(r);
    append(out, key.as_slice());
    append_str(out, ",\n");
    append_str(out, "  title     = {");
    append_str(out, r.title.as_str());
    append_str(out, "},\n");
    let authors_bib = joined_strings(&r.authors, " and ");
    let w = wrap_nonempty_of(authors_bib.as_slice(), "  author    = {", "},\n");
    append(out, w.as_slice());
    assert(out@ =~= start + bib_head(*r));
}

fn push_bib_fields_front(out: &mut Vec<char>, r: &Reference)
    ensures
        final(out)@ == old(out)@ + bib_fields_front(*r),
{
    let ghost start = out@;
    push_field(out, &r.journal, "  journal   = {", "},\n");
    push_field(out, &r.year, "  year      = {", "},\n");
    push_field(out, &r.volume, "  volume    = {", "},\n");
    push_field(out, &r.issue, "  number    = {", "},\n");
    let pages = chars_of(r.pages.as_str());
    if pages.len() > 0 {
        append_str(out, "  pages     = {");
        proof {
            reveal_strlit("-");
        }
        let dashed = replace_str(pages.as_slice(), "-", "--");
        append(out, dashed.as_slice());
        append_str(out, "},\n");
    }
    assert(out@ =~= start + bib_fields_front(*r));
}

fn push_bib_fields_back(out: &mut Vec<char>, r: &Reference)
    ensures
        final(out)@ == old(out)@ + bib_fields_back(*r),
{
    let ghost start = out@;
    push_field(out, &r.publisher, "  publisher = {", "},\n");
    push_field(out, &r.doi, "  doi       = {", "},\n");
    push_field(out, &r.isbn, "  isbn      = {", "},\n");
    push_field(out, &r.abstract_text, "  abstract  = {", "},\n");
    if r.tags.len() > 0 {
        append_str(out, "  keywords  = {");
        let kw = joined_strings(&r.tags, ", ");
        append(out, kw.as_slice());
        append_str(out, "},\n");
    }
    assert(out@ =~= start + bib_fields_back(*r));
}

/// The references as BibTeX entries.
pub fn export_bibtex(references: Vec<Reference>) -> (r: Result<String, String>)
    ensures
        r matches Ok(s) && s@ == bib_export(references@),
{
    let mut out: Vec<char> = Vec::new();
    let n = references.len();
    for i in 0..n
        invariant
            n == references@.len(),
            out@ == bib_export(references@.take(i as int)),
    {
        assert(references@.take(i + 1).drop_last() =~= references@.take(i as int));
        let ghost start = out@;
        push_bib_head(&mut out, &references[i]);
        push_bib_fields_front(&mut out, &references[i]);
        push_bib_fields_back(&mut out, &references[i]);
        append_str(&mut out, "}\n\n");
        assert(out@ =~= start + bib_entry(references@[i as int]));
    }
    assert(references@.take(n as int) =~= references@);
    Ok(string_of(out.as_slice()))
}

// ── Laws ─────────────────────────────────────────────────────────────────────

proof fn lemma_ris_entry_in_export(refs: Seq<Reference>, k: int)
    requires
        0 <= k < refs.len(),
    ensures
        contains_text(ris_export(refs), ris_entry(refs[k])),
    decreases refs.len(),
{
    let rest = refs.drop_last();
    if k == refs.len() - 1 {
        assert(ris_export(refs) =~= ris_export(rest) + ris_entry(refs[k]) + Seq::<char>::empty());
        lemma_contains_middle(ris_export(rest), ris_entry(refs[k]), Seq::<char>::empty());
    } else {
        lemma_ris_entry_in_export(rest, k);
        assert(rest[k] == refs[k]);
        assert(ris_export(refs) =~= Seq::<char>::empty() + ris_export(rest) + ris_entry(refs.last()));
        lemma_contains_middle(Seq::<char>::empty(), ris_export(rest), ris_entry(refs.last()));
        lemma_contains_trans(ris_export(refs), ris_export(rest), ris_entry(refs[k]));
    }
}

proof fn lemma_ris_abstract_text_line(r: Reference)
    requires
        r.abstract_text@.len() > 0,
    ensures
        contains_text(ris_entry(r), "AB  - "@ + r.abstract_text@ + "\n"@),
{
    lemma_contains_refl(wrap_nonempty(r.abstract_text@, "AB  - "@, "\n"@));
    assert((((((wrap_nonempty(r.abstract_text@, "AB  - "@, "\n"@) + wrap_nonempty(r.journal@, "JO  - "@, "\n"@)) + wrap_nonempty(r.year@, "PY  - "@, "\n"@)) + wrap_nonempty(r.volume@, "VL  - "@, "\n"@)) + wrap_nonempty(r.issue@, "IS  - "@, "\n"@)) + wrap_nonempty(r.pages@, "SP  - "@, "\n"@)) == ris_fields_front(r));
    lemma_contains_left(wrap_nonempty(r.abstract_text@, "AB  - "@, "\n"@), wrap_nonempty(r.journal@, "JO  - "@, "\n"@));
    lemma_contains_trans((wrap_nonempty(r.abstract_text@, "AB  - "@, "\n"@) + wrap_nonempty(r.journal@, "JO  - "@, "\n"@)), wrap_nonempty(r.abstract_text@, "AB  - "@, "\n"@), wrap_nonempty(r.abstract_text@, "AB  - "@, "\n"@));
    lemma_contains_left((wrap_nonempty(r.abstract_text@, "AB  - "@, "\n"@) + wrap_nonempty(r.journal@, "JO  - "@, "\n"@)), wrap_nonempty(r.year@, "PY  - "@, "\n"@));
    lemma_contains_trans(((wrap_nonempty(r.abstract_text@, "AB  - "@, "\n"@) + wrap_nonempty(r.journal@, "JO  - "@, "\n"@)) + wrap_nonempty(r.year@, "PY  - "@, "\n"@)), (wrap_nonempty(r.abstract_text@, "AB  - "@, "\n"@) + wrap_nonempty(r.journal@, "JO  - "@, "\n"@)), wrap_nonempty(r.abstract_text@, "AB  - "@, "\n"@));
    lemma_contains_left(((wrap_nonempty(r.abstract_text@, "AB  - "@, "\n"@) + wrap_nonempty(r.journal@, "JO  - "@, "\n"@)) + wrap_nonempty(r.year@, "PY  - "@, "\n"@)), wrap_nonempty(r.volume@, "VL  - "@, "\n"@));
    lemma_contains_trans((((wrap_nonempty(r.abstract_text@, "AB  - "@, "\n"@) + wrap_nonempty(r.journal@, "JO  - "@, "\n"@)) + wrap_nonempty(r.year@, "PY  - "@, "\n"@)) + wrap_nonempty(r.volume@, "VL  - "@, "\n"@)), ((wrap_nonempty(r.abstract_text@, "AB  - "@, "\n"@) + wrap_nonempty(r.journal@, "JO  - "@, "\n"@)) + wrap_nonempty(r.year@, "PY  - "@, "\n"@)), wrap_nonempty(r.abstract_text@, "AB  - "@, "\n"@));
    lemma_contains_left((((wrap_nonempty(r.abstract_text@, "AB  - "@, "\n"@) + wrap_nonempty(r.journal@, "JO  - "@, "\n"@)) + wrap_nonempty(r.year@, "PY  - "@, "\n"@)) + wrap_nonempty(r.volume@, "VL  - "@, "\n"@)), wrap_nonempty(r.issue@, "IS  - "@, "\n"@));
    lemma_contains_trans(((((wrap_nonempty(r.abstract_text@, "AB  - "@, "\n"@) + wrap_nonempty(r.journal@, "JO  - "@, "\n"@)) + wrap_nonempty(r.year@, "PY  - "@, "\n"@)) + wrap_nonempty(r.volume@, "VL  - "@, "\n"@)) + wrap_nonempty(r.issue@, "IS  - "@, "\n"@)), (((wrap_nonempty(r.abstract_text@, "AB  - "@, "\n"@) + wrap_nonempty(r.journal@, "JO  - "@, "\n"@)) + wrap_nonempty(r.year@, "PY  - "@, "\n"@)) + wrap_nonempty(r.volume@, "VL  - "@, "\n"@)), wrap_nonempty(r.abstract_text@, "AB  - "@, "\n"@));
    lemma_contains_left(((((wrap_nonempty(r.abstract_text@, "AB  - "@, "\n"@) + wrap_nonempty(r.journal@, "JO  - "@, "\n"@)) + wrap_nonempty(r.year@, "PY  - "@, "\n"@)) + wrap_nonempty(r.volume@, "VL  - "@, "\n"@)) + wrap_nonempty(r.issue@, "IS  - "@, "\n"@)), wrap_nonempty(r.pages@, "SP  - "@, "\n"@));
    lemma_contains_trans((((((wrap_nonempty(r.abstract_text@, "AB  - "@, "\n"@) + wrap_nonempty(r.journal@, "JO  - "@, "\n"@)) + wrap_nonempty(r.year@, "PY  - "@, "\n"@)) + wrap_nonempty(r.volume@, "VL  - "@, "\n"@)) + wrap_nonempty(r.issue@, "IS  - "@, "\n"@)) + wrap_nonempty(r.pages@, "SP  - "@, "\n"@)), ((((wrap_nonempty(r.abstract_text@, "AB  - "@, "\n"@) + wrap_nonempty(r.journal@, "JO  - "@, "\n"@)) + wrap_nonempty(r.year@, "PY  - "@, "\n"@)) + wrap_nonempty(r.volume@, "VL  - "@, "\n"@)) + wrap_nonempty(r.issue@, "IS  - "@, "\n"@)), wrap_nonempty(r.abstract_text@, "AB  - "@, "\n"@));
    lemma_contains_left(ris_fields_front(r), ris_fields_back(r));
    lemma_contains_trans(ris_fields(r), ris_fields_front(r), wrap_nonempty(r.abstract_text@, "AB  - "@, "\n"@));
    lemma_contains_right(ris_head(r), ris_fields(r));
    lemma_contains_trans(ris_head(r) + ris_fields(r), ris_fields(r), wrap_nonempty(r.abstract_text@, "AB  - "@, "\n"@));
    lemma_contains_left(ris_head(r) + ris_fields(r), ris_tail(r));
    lemma_contains_trans(ris_entry(r), ris_head(r) + ris_fields(r), wrap_nonempty(r.abstract_text@, "AB  - "@, "\n"@));
}

proof fn lemma_ris_journal_line(r: Reference)
    requires
        r.journal@.len() > 0,
    ensures
        contains_text(ris_entry(r), "JO  - "@ + r.journal@ + "\n"@),
{
    assert((((((wrap_nonempty(r.abstract_text@, "AB  - "@, "\n"@) + wrap_nonempty(r.journal@, "JO  - "@, "\n"@)) + wrap_nonempty(r.year@, "PY  - "@, "\n"@)) + wrap_nonempty(r.volume@, "VL  - "@, "\n"@)) + wrap_nonempty(r.issue@, "IS  - "@, "\n"@)) + wrap_nonempty(r.pages@, "SP  - "@, "\n"@)) == ris_fields_front(r));
    lemma_contains_right(wrap_nonempty(r.abstract_text@, "AB  - "@, "\n"@), wrap_nonempty(r.journal@, "JO  - "@, "\n"@));
    lemma_contains_left((wrap_nonempty(r.abstract_text@, "AB  - "@, "\n"@) + wrap_nonempty(r.journal@, "JO  - "@, "\n"@)), wrap_nonempty(r.year@, "PY  - "@, "\n"@));
    lemma_contains_trans(((wrap_nonempty(r.abstract_text@, "AB  - "@, "\n"@) + wrap_nonempty(r.journal@, "JO  - "@, "\n"@)) + wrap_nonempty(r.year@, "PY  - "@, "\n"@)), (wrap_nonempty(r.abstract_text@, "AB  - "@, "\n"@) + wrap_nonempty(r.journal@, "JO  - "@, "\n"@)), wrap_nonempty(r.journal@, "JO  - "@, "\n"@));
    lemma_contains_left(((wrap_nonempty(r.abstract_text@, "AB  - "@, "\n"@) + wrap_nonempty(r.journal@, "JO  - "@, "\n"@)) + wrap_nonempty(r.year@, "PY  - "@, "\n"@)), wrap_nonempty(r.volume@, "VL  - "@, "\n"@));
    lemma_contains_trans((((wrap_nonempty(r.abstract_text@, "AB  - "@, "\n"@) + wrap_nonempty(r.journal@, "JO  - "@, "\n"@)) + wrap_nonempty(r.year@, "PY  - "@, "\n"@)) + wrap_nonempty(r.volume@, "VL  - "@, "\n"@)), ((wrap_nonempty(r.abstract_text@, "AB  - "@, "\n"@) + wrap_nonempty(r.journal@, "JO  - "@, "\n"@)) + wrap_nonempty(r.year@, "PY  - "@, "\n"@)), wrap_nonempty(r.journal@, "JO  - "@, "\n"@));
    lemma_contains_left((((wrap_nonempty(r.abstract_text@, "AB  - "@, "\n"@) + wrap_nonempty(r.journal@, "JO  - "@, "\n"@)) + wrap_nonempty(r.year@, "PY  - "@, "\n"@)) + wrap_nonempty(r.volume@, "VL  - "@, "\n"@)), wrap_nonempty(r.issue@, "IS  - "@, "\n"@));
    lemma_contains_trans(((((wrap_nonempty(r.abstract_text@, "AB  - "@, "\n"@) + wrap_nonempty(r.journal@, "JO  - "@, "\n"@)) + wrap_nonempty(r.year@, "PY  - "@, "\n"@)) + wrap_nonempty(r.volume@, "VL  - "@, "\n"@)) + wrap_nonempty(r.issue@, "IS  - "@, "\n"@)), (((wrap_nonempty(r.abstract_text@, "AB  - "@, "\n"@) + wrap_nonempty(r.journal@, "JO  - "@, "\n"@)) + wrap_nonempty(r.year@, "PY  - "@, "\n"@)) + wrap_nonempty(r.volume@, "VL  - "@, "\n"@)), wrap_nonempty(r.journal@, "JO  - "@, "\n"@));
    lemma_contains_left(((((wrap_nonempty(r.abstract_text@, "AB  - "@, "\n"@) + wrap_nonempty(r.journal@, "JO  - "@, "\n"@)) + wrap_nonempty(r.year@, "PY  - "@, "\n"@)) + wrap_nonempty(r.volume@, "VL  - "@, "\n"@)) + wrap_nonempty(r.issue@, "IS  - "@, "\n"@)), wrap_nonempty(r.pages@, "SP  - "@, "\n"@));
    lemma_contains_trans((((((wrap_nonempty(r.abstract_text@, "AB  - "@, "\n"@) + wrap_nonempty(r.journal@, "JO  - "@, "\n"@)) + wrap_nonempty(r.year@, "PY  - "@, "\n"@)) + wrap_nonempty(r.volume@, "VL  - "@, "\n"@)) + wrap_nonempty(r.issue@, "IS  - "@, "\n"@)) + wrap_nonempty(r.pages@, "SP  - "@, "\n"@)), ((((wrap_nonempty(r.abstract_text@, "AB  - "@, "\n"@) + wrap_nonempty(r.journal@, "JO  - "@, "\n"@)) + wrap_nonempty(r.year@, "PY  - "@, "\n"@)) + wrap_nonempty(r.volume@, "VL  - "@, "\n"@)) + wrap_nonempty(r.issue@, "IS  - "@, "\n"@)), wrap_nonempty(r.journal@, "JO  - "@, "\n"@));
    lemma_contains_left(ris_fields_front(r), ris_fields_back(r));
    lemma_contains_trans(ris_fields(r), ris_fields_front(r), wrap_nonempty(r.journal@, "JO  - "@, "\n"@));
    lemma_contains_right(ris_head(r), ris_fields(r));
    lemma_contains_trans(ris_head(r) + ris_fields(r), ris_fields(r), wrap_nonempty(r.journal@, "JO  - "@, "\n"@));
    lemma_contains_left(ris_head(r) + ris_fields(r), ris_tail(r));
    lemma_contains_trans(ris_entry(r), ris_head(r) + ris_fields(r), wrap_nonempty(r.journal@, "JO  - "@, "\n"@));
}

proof fn lemma_ris_year_line(r: Reference)
    requires
        r.year@.len() > 0,
    ensures
        contains_text(ris_entry(r), "PY  - "@ + r.year@ + "\n"@),
{
    assert((((((wrap_nonempty(r.abstract_text@, "AB  - "@, "\n"@) + wrap_nonempty(r.journal@, "JO  - "@, "\n"@)) + wrap_nonempty(r.year@, "PY  - "@, "\n"@)) + wrap_nonempty(r.volume@, "VL  - "@, "\n"@)) + wrap_nonempty(r.issue@, "IS  - "@, "\n"@)) + wrap_nonempty(r.pages@, "SP  - "@, "\n"@)) == ris_fields_front(r));
    lemma_contains_right((wrap_nonempty(r.abstract_text@, "AB  - "@, "\n"@) + wrap_nonempty(r.journal@, "JO  - "@, "\n"@)), wrap_nonempty(r.year@, "PY  - "@, "\n"@));
    lemma_contains_left(((wrap_nonempty(r.abstract_text@, "AB  - "@, "\n"@) + wrap_nonempty(r.journal@, "JO  - "@, "\n"@)) + wrap_nonempty(r.year@, "PY  - "@, "\n"@)), wrap_nonempty(r.volume@, "VL  - "@, "\n"@));
    lemma_contains_trans((((wrap_nonempty(r.abstract_text@, "AB  - "@, "\n"@) + wrap_nonempty(r.journal@, "JO  - "@, "\n"@)) + wrap_nonempty(r.year@, "PY  - "@, "\n"@)) + wrap_nonempty(r.volume@, "VL  - "@, "\n"@)), ((wrap_nonempty(r.abstract_text@, "AB  - "@, "\n"@) + wrap_nonempty(r.journal@, "JO  - "@, "\n"@)) + wrap_nonempty(r.year@, "PY  - "@, "\n"@)), wrap_nonempty(r.year@, "PY  - "@, "\n"@));
    lemma_contains_left((((wrap_nonempty(r.abstract_text@, "AB  - "@, "\n"@) + wrap_nonempty(r.journal@, "JO  - "@, "\n"@)) + wrap_nonempty(r.year@, "PY  - "@, "\n"@)) + wrap_nonempty(r.volume@, "VL  - "@, "\n"@)), wrap_nonempty(r.issue@, "IS  - "@, "\n"@));
    lemma_contains_trans(((((wrap_nonempty(r.abstract_text@, "AB  - "@, "\n"@) + wrap_nonempty(r.journal@, "JO  - "@, "\n"@)) + wrap_nonempty(r.year@, "PY  - "@, "\n"@)) + wrap_nonempty(r.volume@, "VL  - "@, "\n"@)) + wrap_nonempty(r.issue@, "IS  - "@, "\n"@)), (((wrap_nonempty(r.abstract_text@, "AB  - "@, "\n"@) + wrap_nonempty(r.journal@, "JO  - "@, "\n"@)) + wrap_nonempty(r.year@, "PY  - "@, "\n"@)) + wrap_nonempty(r.volume@, "VL  - "@, "\n"@)), wrap_nonempty(r.year@, "PY  - "@, "\n"@));
    lemma_contains_left(((((wrap_nonempty(r.abstract_text@, "AB  - "@, "\n"@) + wrap_nonempty(r.journal@, "JO  - "@, "\n"@)) + wrap_nonempty(r.year@, "PY  - "@, "\n"@)) + wrap_nonempty(r.volume@, "VL  - "@, "\n"@)) + wrap_nonempty(r.issue@, "IS  - "@, "\n"@)), wrap_nonempty(r.pages@, "SP  - "@, "\n"@));
    lemma_contains_trans((((((wrap_nonempty(r.abstract_text@, "AB  - "@, "\n"@) + wrap_nonempty(r.journal@, "JO  - "@, "\n"@)) + wrap_nonempty(r.year@, "PY  - "@, "\n"@)) + wrap_nonempty(r.volume@, "VL  - "@, "\n"@)) + wrap_nonempty(r.issue@, "IS  - "@, "\n"@)) + wrap_nonempty(r.pages@, "SP  - "@, "\n"@)), ((((wrap_nonempty(r.abstract_text@, "AB  - "@, "\n"@) + wrap_nonempty(r.journal@, "JO  - "@, "\n"@)) + wrap_nonempty(r.year@, "PY  - "@, "\n"@)) + wrap_nonempty(r.volume@, "VL  - "@, "\n"@)) + wrap_nonempty(r.issue@, "IS  - "@, "\n"@)), wrap_nonempty(r.year@, "PY  - "@, "\n"@));
    lemma_contains_left(ris_fields_front(r), ris_fields_back(r));
    lemma_contains_trans(ris_fields(r), ris_fields_front(r), wrap_nonempty(r.year@, "PY  - "@, "\n"@));
    lemma_contains_right(ris_head(r), ris_fields(r));
    lemma_contains_trans(ris_head(r) + ris_fields(r), ris_fields(r), wrap_nonempty(r.year@, "PY  - "@, "\n"@));
    lemma_contains_left(ris_head(r) + ris_fields(r), ris_tail(r));
    lemma_contains_trans(ris_entry(r), ris_head(r) + ris_fields(r), wrap_nonempty(r.year@, "PY  - "@, "\n"@));
}

proof fn lemma_ris_volume_line(r: Reference)
    requires
        r.volume@.len() > 0,
    ensures
        contains_text(ris_entry(r), "VL  - "@ + r.volume@ + "\n"@),
{
    assert((((((wrap_nonempty(r.abstract_text@, "AB  - "@, "\n"@) + wrap_nonempty(r.journal@, "JO  - "@, "\n"@)) + wrap_nonempty(r.year@, "PY  - "@, "\n"@)) + wrap_nonempty(r.volume@, "VL  - "@, "\n"@)) + wrap_nonempty(r.issue@, "IS  - "@, "\n"@)) + wrap_nonempty(r.pages@, "SP  - "@, "\n"@)) == ris_fields_front(r));
    lemma_contains_right(((wrap_nonempty(r.abstract_text@, "AB  - "@, "\n"@) + wrap_nonempty(r.journal@, "JO  - "@, "\n"@)) + wrap_nonempty(r.year@, "PY  - "@, "\n"@)), wrap_nonempty(r.volume@, "VL  - "@, "\n"@));
    lemma_contains_left((((wrap_nonempty(r.abstract_text@, "AB  - "@, "\n"@) + wrap_nonempty(r.journal@, "JO  - "@, "\n"@)) + wrap_nonempty(r.year@, "PY  - "@, "\n"@)) + wrap_nonempty(r.volume@, "VL  - "@, "\n"@)), wrap_nonempty(r.issue@, "IS  - "@, "\n"@));
    lemma_contains_trans(((((wrap_nonempty(r.abstract_text@, "AB  - "@, "\n"@) + wrap_nonempty(r.journal@, "JO  - "@, "\n"@)) + wrap_nonempty(r.year@, "PY  - "@, "\n"@)) + wrap_nonempty(r.volume@, "VL  - "@, "\n"@)) + wrap_nonempty(r.issue@, "IS  - "@, "\n"@)), (((wrap_nonempty(r.abstract_text@, "AB  - "@, "\n"@) + wrap_nonempty(r.journal@, "JO  - "@, "\n"@)) + wrap_nonempty(r.year@, "PY  - "@, "\n"@)) + wrap_nonempty(r.volume@, "VL  - "@, "\n"@)), wrap_nonempty(r.volume@, "VL  - "@, "\n"@));
    lemma_contains_left(((((wrap_nonempty(r.abstract_text@, "AB  - "@, "\n"@) + wrap_nonempty(r.journal@, "JO  - "@, "\n"@)) + wrap_nonempty(r.year@, "PY  - "@, "\n"@)) + wrap_nonempty(r.volume@, "VL  - "@, "\n"@)) + wrap_nonempty(r.issue@, "IS  - "@, "\n"@)), wrap_nonempty(r.pages@, "SP  - "@, "\n"@));
    lemma_contains_trans((((((wrap_nonempty(r.abstract_text@, "AB  - "@, "\n"@) + wrap_nonempty(r.journal@, "JO  - "@, "\n"@)) + wrap_nonempty(r.year@, "PY  - "@, "\n"@)) + wrap_nonempty(r.volume@, "VL  - "@, "\n"@)) + wrap_nonempty(r.issue@, "IS  - "@, "\n"@)) + wrap_nonempty(r.pages@, "SP  - "@, "\n"@)), ((((wrap_nonempty(r.abstract_text@, "AB  - "@, "\n"@) + wrap_nonempty(r.journal@, "JO  - "@, "\n"@)) + wrap_nonempty(r.year@, "PY  - "@, "\n"@)) + wrap_nonempty(r.volume@, "VL  - "@, "\n"@)) + wrap_nonempty(r.issue@, "IS  - "@, "\n"@)), wrap_nonempty(r.volume@, "VL  - "@, "\n"@));
    lemma_contains_left(ris_fields_front(r), ris_fields_back(r));
    lemma_contains_trans(ris_fields(r), ris_fields_front(r), wrap_nonempty(r.volume@, "VL  - "@, "\n"@));
    lemma_contains_right(ris_head(r), ris_fields(r));
    lemma_contains_trans(ris_head(r) + ris_fields(r), ris_fields(r), wrap_nonempty(r.volume@, "VL  - "@, "\n"@));
    lemma_contains_left(ris_head(r) + ris_fields(r), ris_tail(r));
    lemma_contains_trans(ris_entry(r), ris_head(r) + ris_fields(r), wrap_nonempty(r.volume@, "VL  - "@, "\n"@));
}

proof fn lemma_ris_issue_line(r: Reference)
    requires
        r.issue@.len() > 0,
    ensures
        contains_text(ris_entry(r), "IS  - "@ + r.issue@ + "\n"@),
{
    assert((((((wrap_nonempty(r.abstract_text@, "AB  - "@, "\n"@) + wrap_nonempty(r.journal@, "JO  - "@, "\n"@)) + wrap_nonempty(r.year@, "PY  - "@, "\n"@)) + wrap_nonempty(r.volume@, "VL  - "@, "\n"@)) + wrap_nonempty(r.issue@, "IS  - "@, "\n"@)) + wrap_nonempty(r.pages@, "SP  - "@, "\n"@)) == ris_fields_front(r));
    lemma_contains_right((((wrap_nonempty(r.abstract_text@, "AB  - "@, "\n"@) + wrap_nonempty(r.journal@, "JO  - "@, "\n"@)) + wrap_nonempty(r.year@, "PY  - "@, "\n"@)) + wrap_nonempty(r.volume@, "VL  - "@, "\n"@)), wrap_nonempty(r.issue@, "IS  - "@, "\n"@));
    lemma_contains_left(((((wrap_nonempty(r.abstract_text@, "AB  - "@, "\n"@) + wrap_nonempty(r.journal@, "JO  - "@, "\n"@)) + wrap_nonempty(r.year@, "PY  - "@, "\n"@)) + wrap_nonempty(r.volume@, "VL  - "@, "\n"@)) + wrap_nonempty(r.issue@, "IS  - "@, "\n"@)), wrap_nonempty(r.pages@, "SP  - "@, "\n"@));
    lemma_contains_trans((((((wrap_nonempty(r.abstract_text@, "AB  - "@, "\n"@) + wrap_nonempty(r.journal@, "JO  - "@, "\n"@)) + wrap_nonempty(r.year@, "PY  - "@, "\n"@)) + wrap_nonempty(r.volume@, "VL  - "@, "\n"@)) + wrap_nonempty(r.issue@, "IS  - "@, "\n"@)) + wrap_nonempty(r.pages@, "SP  - "@, "\n"@)), ((((wrap_nonempty(r.abstract_text@, "AB  - "@, "\n"@) + wrap_nonempty(r.journal@, "JO  - "@, "\n"@)) + wrap_nonempty(r.year@, "PY  - "@, "\n"@)) + wrap_nonempty(r.volume@, "VL  - "@, "\n"@)) + wrap_nonempty(r.issue@, "IS  - "@, "\n"@)), wrap_nonempty(r.issue@, "IS  - "@, "\n"@));
    lemma_contains_left(ris_fields_front(r), ris_fields_back(r));
    lemma_contains_trans(ris_fields(r), ris_fields_front(r), wrap_nonempty(r.issue@, "IS  - "@, "\n"@));
    lemma_contains_right(ris_head(r), ris_fields(r));
    lemma_contains_trans(ris_head(r) + ris_fields(r), ris_fields(r), wrap_nonempty(r.issue@, "IS  - "@, "\n"@));
    lemma_contains_left(ris_head(r) + ris_fields(r), ris_tail(r));
    lemma_contains_trans(ris_entry(r), ris_head(r) + ris_fields(r), wrap_nonempty(r.issue@, "IS  - "@, "\n"@));
}

proof fn lemma_ris_pages_line(r: Reference)
    requires
        r.pages@.len() > 0,
    ensures
        contains_text(ris_entry(r), "SP  - "@ + r.pages@ + "\n"@),
{
    assert((((((wrap_nonempty(r.abstract_text@, "AB  - "@, "\n"@) + wrap_nonempty(r.journal@, "JO  - "@, "\n"@)) + wrap_nonempty(r.year@, "PY  - "@, "\n"@)) + wrap_nonempty(r.volume@, "VL  - "@, "\n"@)) + wrap_nonempty(r.issue@, "IS  - "@, "\n"@)) + wrap_nonempty(r.pages@, "SP  - "@, "\n"@)) == ris_fields_front(r));
    lemma_contains_right(((((wrap_nonempty(r.abstract_text@, "AB  - "@, "\n"@) + wrap_nonempty(r.journal@, "JO  - "@, "\n"@)) + wrap_nonempty(r.year@, "PY  - "@, "\n"@)) + wrap_nonempty(r.volume@, "VL  - "@, "\n"@)) + wrap_nonempty(r.issue@, "IS  - "@, "\n"@)), wrap_nonempty(r.pages@, "SP  - "@, "\n"@));
    lemma_contains_left(ris_fields_front(r), ris_fields_back(r));
    lemma_contains_trans(ris_fields(r), ris_fields_front(r), wrap_nonempty(r.pages@, "SP  - "@, "\n"@));
    lemma_contains_right(ris_head(r), ris_fields(r));
    lemma_contains_trans(ris_head(r) + ris_fields(r), ris_fields(r), wrap_nonempty(r.pages@, "SP  - "@, "\n"@));
    lemma_contains_left(ris_head(r) + ris_fields(r), ris_tail(r));
    lemma_contains_trans(ris_entry(r), ris_head(r) + ris_fields(r), wrap_nonempty(r.pages@, "SP  - "@, "\n"@));
}

proof fn lemma_ris_publisher_line(r: Reference)
    requires
        r.publisher@.len() > 0,
    ensures
        contains_text(ris_entry(r), "PB  - "@ + r.publisher@ + "\n"@),
{
    lemma_contains_refl(wrap_nonempty(r.publisher@, "PB  - "@, "\n"@));
    assert((((((wrap_nonempty(r.publisher@, "PB  - "@, "\n"@) + wrap_nonempty(r.doi@, "DO  - "@, "\n"@)) + wrap_nonempty(r.url@, "UR  - "@, "\n"@)) + wrap_nonempty(r.issn@, "SN  - "@, "\n"@)) + wrap_nonempty(r.isbn@, "SN  - "@, "\n"@)) + wrap_nonempty(r.language@, "LA  - "@, "\n"@)) == ris_fields_back(r));
    lemma_contains_left(wrap_nonempty(r.publisher@, "PB  - "@, "\n"@), wrap_nonempty(r.doi@, "DO  - "@, "\n"@));
    lemma_contains_trans((wrap_nonempty(r.publisher@, "PB  - "@, "\n"@) + wrap_nonempty(r.doi@, "DO  - "@, "\n"@)), wrap_nonempty(r.publisher@, "PB  - "@, "\n"@), wrap_nonempty(r.publisher@, "PB  - "@, "\n"@));
    lemma_contains_left((wrap_nonempty(r.publisher@, "PB  - "@, "\n"@) + wrap_nonempty(r.doi@, "DO  - "@, "\n"@)), wrap_nonempty(r.url@, "UR  - "@, "\n"@));
    lemma_contains_trans(((wrap_nonempty(r.publisher@, "PB  - "@, "\n"@) + wrap_nonempty(r.doi@, "DO  - "@, "\n"@)) + wrap_nonempty(r.url@, "UR  - "@, "\n"@)), (wrap_nonempty(r.publisher@, "PB  - "@, "\n"@) + wrap_nonempty(r.doi@, "DO  - "@, "\n"@)), wrap_nonempty(r.publisher@, "PB  - "@, "\n"@));
    lemma_contains_left(((wrap_nonempty(r.publisher@, "PB  - "@, "\n"@) + wrap_nonempty(r.doi@, "DO  - "@, "\n"@)) + wrap_nonempty(r.url@, "UR  - "@, "\n"@)), wrap_nonempty(r.issn@, "SN  - "@, "\n"@));
    lemma_contains_trans((((wrap_nonempty(r.publisher@, "PB  - "@, "\n"@) + wrap_nonempty(r.doi@, "DO  - "@, "\n"@)) + wrap_nonempty(r.url@, "UR  - "@, "\n"@)) + wrap_nonempty(r.issn@, "SN  - "@, "\n"@)), ((wrap_nonempty(r.publisher@, "PB  - "@, "\n"@) + wrap_nonempty(r.doi@, "DO  - "@, "\n"@)) + wrap_nonempty(r.url@, "UR  - "@, "\n"@)), wrap_nonempty(r.publisher@, "PB  - "@, "\n"@));
    lemma_contains_left((((wrap_nonempty(r.publisher@, "PB  - "@, "\n"@) + wrap_nonempty(r.doi@, "DO  - "@, "\n"@)) + wrap_nonempty(r.url@, "UR  - "@, "\n"@)) + wrap_nonempty(r.issn@, "SN  - "@, "\n"@)), wrap_nonempty(r.isbn@, "SN  - "@, "\n"@));
    lemma_contains_trans(((((wrap_nonempty(r.publisher@, "PB  - "@, "\n"@) + wrap_nonempty(r.doi@, "DO  - "@, "\n"@)) + wrap_nonempty(r.url@, "UR  - "@, "\n"@)) + wrap_nonempty(r.issn@, "SN  - "@, "\n"@)) + wrap_nonempty(r.isbn@, "SN  - "@, "\n"@)), (((wrap_nonempty(r.publisher@, "PB  - "@, "\n"@) + wrap_nonempty(r.doi@, "DO  - "@, "\n"@)) + wrap_nonempty(r.url@, "UR  - "@, "\n"@)) + wrap_nonempty(r.issn@, "SN  - "@, "\n"@)), wrap_nonempty(r.publisher@, "PB  - "@, "\n"@));
    lemma_contains_left(((((wrap_nonempty(r.publisher@, "PB  - "@, "\n"@) + wrap_nonempty(r.doi@, "DO  - "@, "\n"@)) + wrap_nonempty(r.url@, "UR  - "@, "\n"@)) + wrap_nonempty(r.issn@, "SN  - "@, "\n"@)) + wrap_nonempty(r.isbn@, "SN  - "@, "\n"@)), wrap_nonempty(r.language@, "LA  - "@, "\n"@));
    lemma_contains_trans((((((wrap_nonempty(r.publisher@, "PB  - "@, "\n"@) + wrap_nonempty(r.doi@, "DO  - "@, "\n"@)) + wrap_nonempty(r.url@, "UR  - "@, "\n"@)) + wrap_nonempty(r.issn@, "SN  - "@, "\n"@)) + wrap_nonempty(r.isbn@, "SN  - "@, "\n"@)) + wrap_nonempty(r.language@, "LA  - "@, "\n"@)), ((((wrap_nonempty(r.publisher@, "PB  - "@, "\n"@) + wrap_nonempty(r.doi@, "DO  - "@, "\n"@)) + wrap_nonempty(r.url@, "UR  - "@, "\n"@)) + wrap_nonempty(r.issn@, "SN  - "@, "\n"@)) + wrap_nonempty(r.isbn@, "SN  - "@, "\n"@)), wrap_nonempty(r.publisher@, "PB  - "@, "\n"@));
    lemma_contains_right(ris_fields_front(r), ris_fields_back(r));
    lemma_contains_trans(ris_fields(r), ris_fields_back(r), wrap_nonempty(r.publisher@, "PB  - "@, "\n"@));
    lemma_contains_right(ris_head(r), ris_fields(r));
    lemma_contains_trans(ris_head(r) + ris_fields(r), ris_fields(r), wrap_nonempty(r.publisher@, "PB  - "@, "\n"@));
    lemma_contains_left(ris_head(r) + ris_fields(r), ris_tail(r));
    lemma_contains_trans(ris_entry(r), ris_head(r) + ris_fields(r), wrap_nonempty(r.publisher@, "PB  - "@, "\n"@));
}

proof fn lemma_ris_doi_line(r: Reference)
    requires
        r.doi@.len() > 0,
    ensures
        contains_text(ris_entry(r), "DO  - "@ + r.doi@ + "\n"@),
{
    assert((((((wrap_nonempty(r.publisher@, "PB  - "@, "\n"@) + wrap_nonempty(r.doi@, "DO  - "@, "\n"@)) + wrap_nonempty(r.url@, "UR  - "@, "\n"@)) + wrap_nonempty(r.issn@, "SN  - "@, "\n"@)) + wrap_nonempty(r.isbn@, "SN  - "@, "\n"@)) + wrap_nonempty(r.language@, "LA  - "@, "\n"@)) == ris_fields_back(r));
    lemma_contains_right(wrap_nonempty(r.publisher@, "PB  - "@, "\n"@), wrap_nonempty(r.doi@, "DO  - "@, "\n"@));
    lemma_contains_left((wrap_nonempty(r.publisher@, "PB  - "@, "\n"@) + wrap_nonempty(r.doi@, "DO  - "@, "\n"@)), wrap_nonempty(r.url@, "UR  - "@, "\n"@));
    lemma_contains_trans(((wrap_nonempty(r.publisher@, "PB  - "@, "\n"@) + wrap_nonempty(r.doi@, "DO  - "@, "\n"@)) + wrap_nonempty(r.url@, "UR  - "@, "\n"@)), (wrap_nonempty(r.publisher@, "PB  - "@, "\n"@) + wrap_nonempty(r.doi@, "DO  - "@, "\n"@)), wrap_nonempty(r.doi@, "DO  - "@, "\n"@));
    lemma_contains_left(((wrap_nonempty(r.publisher@, "PB  - "@, "\n"@) + wrap_nonempty(r.doi@, "DO  - "@, "\n"@)) + wrap_nonempty(r.url@, "UR  - "@, "\n"@)), wrap_nonempty(r.issn@, "SN  - "@, "\n"@));
    lemma_contains_trans((((wrap_nonempty(r.publisher@, "PB  - "@, "\n"@) + wrap_nonempty(r.doi@, "DO  - "@, "\n"@)) + wrap_nonempty(r.url@, "UR  - "@, "\n"@)) + wrap_nonempty(r.issn@, "SN  - "@, "\n"@)), ((wrap_nonempty(r.publisher@, "PB  - "@, "\n"@) + wrap_nonempty(r.doi@, "DO  - "@, "\n"@)) + wrap_nonempty(r.url@, "UR  - "@, "\n"@)), wrap_nonempty(r.doi@, "DO  - "@, "\n"@));
    lemma_contains_left((((wrap_nonempty(r.publisher@, "PB  - "@, "\n"@) + wrap_nonempty(r.doi@, "DO  - "@, "\n"@)) + wrap_nonempty(r.url@, "UR  - "@, "\n"@)) + wrap_nonempty(r.issn@, "SN  - "@, "\n"@)), wrap_nonempty(r.isbn@, "SN  - "@, "\n"@));
    lemma_contains_trans(((((wrap_nonempty(r.publisher@, "PB  - "@, "\n"@) + wrap_nonempty(r.doi@, "DO  - "@, "\n"@)) + wrap_nonempty(r.url@, "UR  - "@, "\n"@)) + wrap_nonempty(r.issn@, "SN  - "@, "\n"@)) + wrap_nonempty(r.isbn@, "SN  - "@, "\n"@)), (((wrap_nonempty(r.publisher@, "PB  - "@, "\n"@) + wrap_nonempty(r.doi@, "DO  - "@, "\n"@)) + wrap_nonempty(r.url@, "UR  - "@, "\n"@)) + wrap_nonempty(r.issn@, "SN  - "@, "\n"@)), wrap_nonempty(r.doi@, "DO  - "@, "\n"@));
    lemma_contains_left(((((wrap_nonempty(r.publisher@, "PB  - "@, "\n"@) + wrap_nonempty(r.doi@, "DO  - "@, "\n"@)) + wrap_nonempty(r.url@, "UR  - "@, "\n"@)) + wrap_nonempty(r.issn@, "SN  - "@, "\n"@)) + wrap_nonempty(r.isbn@, "SN  - "@, "\n"@)), wrap_nonempty(r.language@, "LA  - "@, "\n"@));
    lemma_contains_trans((((((wrap_nonempty(r.publisher@, "PB  - "@, "\n"@) + wrap_nonempty(r.doi@, "DO  - "@, "\n"@)) + wrap_nonempty(r.url@, "UR  - "@, "\n"@)) + wrap_nonempty(r.issn@, "SN  - "@, "\n"@)) + wrap_nonempty(r.isbn@, "SN  - "@, "\n"@)) + wrap_nonempty(r.language@, "LA  - "@, "\n"@)), ((((wrap_nonempty(r.publisher@, "PB  - "@, "\n"@) + wrap_nonempty(r.doi@, "DO  - "@, "\n"@)) + wrap_nonempty(r.url@, "UR  - "@, "\n"@)) + wrap_nonempty(r.issn@, "SN  - "@, "\n"@)) + wrap_nonempty(r.isbn@, "SN  - "@, "\n"@)), wrap_nonempty(r.doi@, "DO  - "@, "\n"@));
    lemma_contains_right(ris_fields_front(r), ris_fields_back(r));
    lemma_contains_trans(ris_fields(r), ris_fields_back(r), wrap_nonempty(r.doi@, "DO  - "@, "\n"@));
    lemma_contains_right(ris_head(r), ris_fields(r));
    lemma_contains_trans(ris_head(r) + ris_fields(r), ris_fields(r), wrap_nonempty(r.doi@, "DO  - "@, "\n"@));
    lemma_contains_left(ris_head(r) + ris_fields(r), ris_tail(r));
    lemma_contains_trans(ris_entry(r), ris_head(r) + ris_fields(r), wrap_nonempty(r.doi@, "DO  - "@, "\n"@));
}

proof fn lemma_ris_url_line(r: Reference)
    requires
        r.url@.len() > 0,
    ensures
        contains_text(ris_entry(r), "UR  - "@ + r.url@ + "\n"@),
{
    assert((((((wrap_nonempty(r.publisher@, "PB  - "@, "\n"@) + wrap_nonempty(r.doi@, "DO  - "@, "\n"@)) + wrap_nonempty(r.url@, "UR  - "@, "\n"@)) + wrap_nonempty(r.issn@, "SN  - "@, "\n"@)) + wrap_nonempty(r.isbn@, "SN  - "@, "\n"@)) + wrap_nonempty(r.language@, "LA  - "@, "\n"@)) == ris_fields_back(r));
    lemma_contains_right((wrap_nonempty(r.publisher@, "PB  - "@, "\n"@) + wrap_nonempty(r.doi@, "DO  - "@, "\n"@)), wrap_nonempty(r.url@, "UR  - "@, "\n"@));
    lemma_contains_left(((wrap_nonempty(r.publisher@, "PB  - "@, "\n"@) + wrap_nonempty(r.doi@, "DO  - "@, "\n"@)) + wrap_nonempty(r.url@, "UR  - "@, "\n"@)), wrap_nonempty(r.issn@, "SN  - "@, "\n"@));
    lemma_contains_trans((((wrap_nonempty(r.publisher@, "PB  - "@, "\n"@) + wrap_nonempty(r.doi@, "DO  - "@, "\n"@)) + wrap_nonempty(r.url@, "UR  - "@, "\n"@)) + wrap_nonempty(r.issn@, "SN  - "@, "\n"@)), ((wrap_nonempty(r.publisher@, "PB  - "@, "\n"@) + wrap_nonempty(r.doi@, "DO  - "@, "\n"@)) + wrap_nonempty(r.url@, "UR  - "@, "\n"@)), wrap_nonempty(r.url@, "UR  - "@, "\n"@));
    lemma_contains_left((((wrap_nonempty(r.publisher@, "PB  - "@, "\n"@) + wrap_nonempty(r.doi@, "DO  - "@, "\n"@)) + wrap_nonempty(r.url@, "UR  - "@, "\n"@)) + wrap_nonempty(r.issn@, "SN  - "@, "\n"@)), wrap_nonempty(r.isbn@, "SN  - "@, "\n"@));
    lemma_contains_trans(((((wrap_nonempty(r.publisher@, "PB  - "@, "\n"@) + wrap_nonempty(r.doi@, "DO  - "@, "\n"@)) + wrap_nonempty(r.url@, "UR  - "@, "\n"@)) + wrap_nonempty(r.issn@, "SN  - "@, "\n"@)) + wrap_nonempty(r.isbn@, "SN  - "@, "\n"@)), (((wrap_nonempty(r.publisher@, "PB  - "@, "\n"@) + wrap_nonempty(r.doi@, "DO  - "@, "\n"@)) + wrap_nonempty(r.url@, "UR  - "@, "\n"@)) + wrap_nonempty(r.issn@, "SN  - "@, "\n"@)), wrap_nonempty(r.url@, "UR  - "@, "\n"@));
    lemma_contains_left(((((wrap_nonempty(r.publisher@, "PB  - "@, "\n"@) + wrap_nonempty(r.doi@, "DO  - "@, "\n"@)) + wrap_nonempty(r.url@, "UR  - "@, "\n"@)) + wrap_nonempty(r.issn@, "SN  - "@, "\n"@)) + wrap_nonempty(r.isbn@, "SN  - "@, "\n"@)), wrap_nonempty(r.language@, "LA  - "@, "\n"@));
    lemma_contains_trans((((((wrap_nonempty(r.publisher@, "PB  - "@, "\n"@) + wrap_nonempty(r.doi@, "DO  - "@, "\n"@)) + wrap_nonempty(r.url@, "UR  - "@, "\n"@)) + wrap_nonempty(r.issn@, "SN  - "@, "\n"@)) + wrap_nonempty(r.isbn@, "SN  - "@, "\n"@)) + wrap_nonempty(r.language@, "LA  - "@, "\n"@)), ((((wrap_nonempty(r.publisher@, "PB  - "@, "\n"@) + wrap_nonempty(r.doi@, "DO  - "@, "\n"@)) + wrap_nonempty(r.url@, "UR  - "@, "\n"@)) + wrap_nonempty(r.issn@, "SN  - "@, "\n"@)) + wrap_nonempty(r.isbn@, "SN  - "@, "\n"@)), wrap_nonempty(r.url@, "UR  - "@, "\n"@));
    lemma_contains_right(ris_fields_front(r), ris_fields_back(r));
    lemma_contains_trans(ris_fields(r), ris_fields_back(r), wrap_nonempty(r.url@, "UR  - "@, "\n"@));
    lemma_contains_right(ris_head(r), ris_fields(r));
    lemma_contains_trans(ris_head(r) + ris_fields(r), ris_fields(r), wrap_nonempty(r.url@, "UR  - "@, "\n"@));
    lemma_contains_left(ris_head(r) + ris_fields(r), ris_tail(r));
    lemma_contains_trans(ris_entry(r), ris_head(r) + ris_fields(r), wrap_nonempty(r.url@, "UR  - "@, "\n"@));
}

proof fn lemma_ris_issn_line(r: Reference)
    requires
        r.issn@.len() > 0,
    ensures
        contains_text(ris_entry(r), "SN  - "@ + r.issn@ + "\n"@),
{
    assert((((((wrap_nonempty(r.publisher@, "PB  - "@, "\n"@) + wrap_nonempty(r.doi@, "DO  - "@, "\n"@)) + wrap_nonempty(r.url@, "UR  - "@, "\n"@)) + wrap_nonempty(r.issn@, "SN  - "@, "\n"@)) + wrap_nonempty(r.isbn@, "SN  - "@, "\n"@)) + wrap_nonempty(r.language@, "LA  - "@, "\n"@)) == ris_fields_back(r));
    lemma_contains_right(((wrap_nonempty(r.publisher@, "PB  - "@, "\n"@) + wrap_nonempty(r.doi@, "DO  - "@, "\n"@)) + wrap_nonempty(r.url@, "UR  - "@, "\n"@)), wrap_nonempty(r.issn@, "SN  - "@, "\n"@));
    lemma_contains_left((((wrap_nonempty(r.publisher@, "PB  - "@, "\n"@) + wrap_nonempty(r.doi@, "DO  - "@, "\n"@)) + wrap_nonempty(r.url@, "UR  - "@, "\n"@)) + wrap_nonempty(r.issn@, "SN  - "@, "\n"@)), wrap_nonempty(r.isbn@, "SN  - "@, "\n"@));
    lemma_contains_trans(((((wrap_nonempty(r.publisher@, "PB  - "@, "\n"@) + wrap_nonempty(r.doi@, "DO  - "@, "\n"@)) + wrap_nonempty(r.url@, "UR  - "@, "\n"@)) + wrap_nonempty(r.issn@, "SN  - "@, "\n"@)) + wrap_nonempty(r.isbn@, "SN  - "@, "\n"@)), (((wrap_nonempty(r.publisher@, "PB  - "@, "\n"@) + wrap_nonempty(r.doi@, "DO  - "@, "\n"@)) + wrap_nonempty(r.url@, "UR  - "@, "\n"@)) + wrap_nonempty(r.issn@, "SN  - "@, "\n"@)), wrap_nonempty(r.issn@, "SN  - "@, "\n"@));
    lemma_contains_left(((((wrap_nonempty(r.publisher@, "PB  - "@, "\n"@) + wrap_nonempty(r.doi@, "DO  - "@, "\n"@)) + wrap_nonempty(r.url@, "UR  - "@, "\n"@)) + wrap_nonempty(r.issn@, "SN  - "@, "\n"@)) + wrap_nonempty(r.isbn@, "SN  - "@, "\n"@)), wrap_nonempty(r.language@, "LA  - "@, "\n"@));
    lemma_contains_trans((((((wrap_nonempty(r.publisher@, "PB  - "@, "\n"@) + wrap_nonempty(r.doi@, "DO  - "@, "\n"@)) + wrap_nonempty(r.url@, "UR  - "@, "\n"@)) + wrap_nonempty(r.issn@, "SN  - "@, "\n"@)) + wrap_nonempty(r.isbn@, "SN  - "@, "\n"@)) + wrap_nonempty(r.language@, "LA  - "@, "\n"@)), ((((wrap_nonempty(r.publisher@, "PB  - "@, "\n"@) + wrap_nonempty(r.doi@, "DO  - "@, "\n"@)) + wrap_nonempty(r.url@, "UR  - "@, "\n"@)) + wrap_nonempty(r.issn@, "SN  - "@, "\n"@)) + wrap_nonempty(r.isbn@, "SN  - "@, "\n"@)), wrap_nonempty(r.issn@, "SN  - "@, "\n"@));
    lemma_contains_right(ris_fields_front(r), ris_fields_back(r));
    lemma_contains_trans(ris_fields(r), ris_fields_back(r), wrap_nonempty(r.issn@, "SN  - "@, "\n"@));
    lemma_contains_right(ris_head(r), ris_fields(r));
    lemma_contains_trans(ris_head(r) + ris_fields(r), ris_fields(r), wrap_nonempty(r.issn@, "SN  - "@, "\n"@));
    lemma_contains_left(ris_head(r) + ris_fields(r), ris_tail(r));
    lemma_contains_trans(ris_entry(r), ris_head(r) + ris_fields(r), wrap_nonempty(r.issn@, "SN  - "@, "\n"@));
}

proof fn lemma_ris_isbn_line(r: Reference)
    requires
        r.isbn@.len() > 0,
    ensures
        contains_text(ris_entry(r), "SN  - "@ + r.isbn@ + "\n"@),
{
    assert((((((wrap_nonempty(r.publisher@, "PB  - "@, "\n"@) + wrap_nonempty(r.doi@, "DO  - "@, "\n"@)) + wrap_nonempty(r.url@, "UR  - "@, "\n"@)) + wrap_nonempty(r.issn@, "SN  - "@, "\n"@)) + wrap_nonempty(r.isbn@, "SN  - "@, "\n"@)) + wrap_nonempty(r.language@, "LA  - "@, "\n"@)) == ris_fields_back(r));
    lemma_contains_right((((wrap_nonempty(r.publisher@, "PB  - "@, "\n"@) + wrap_nonempty(r.doi@, "DO  - "@, "\n"@)) + wrap_nonempty(r.url@, "UR  - "@, "\n"@)) + wrap_nonempty(r.issn@, "SN  - "@, "\n"@)), wrap_nonempty(r.isbn@, "SN  - "@, "\n"@));
    lemma_contains_left(((((wrap_nonempty(r.publisher@, "PB  - "@, "\n"@) + wrap_nonempty(r.doi@, "DO  - "@, "\n"@)) + wrap_nonempty(r.url@, "UR  - "@, "\n"@)) + wrap_nonempty(r.issn@, "SN  - "@, "\n"@)) + wrap_nonempty(r.isbn@, "SN  - "@, "\n"@)), wrap_nonempty(r.language@, "LA  - "@, "\n"@));
    lemma_contains_trans((((((wrap_nonempty(r.publisher@, "PB  - "@, "\n"@) + wrap_nonempty(r.doi@, "DO  - "@, "\n"@)) + wrap_nonempty(r.url@, "UR  - "@, "\n"@)) + wrap_nonempty(r.issn@, "SN  - "@, "\n"@)) + wrap_nonempty(r.isbn@, "SN  - "@, "\n"@)) + wrap_nonempty(r.language@, "LA  - "@, "\n"@)), ((((wrap_nonempty(r.publisher@, "PB  - "@, "\n"@) + wrap_nonempty(r.doi@, "DO  - "@, "\n"@)) + wrap_nonempty(r.url@, "UR  - "@, "\n"@)) + wrap_nonempty(r.issn@, "SN  - "@, "\n"@)) + wrap_nonempty(r.isbn@, "SN  - "@, "\n"@)), wrap_nonempty(r.isbn@, "SN  - "@, "\n"@));
    lemma_contains_right(ris_fields_front(r), ris_fields_back(r));
    lemma_contains_trans(ris_fields(r), ris_fields_back(r), wrap_nonempty(r.isbn@, "SN  - "@, "\n"@));
    lemma_contains_right(ris_head(r), ris_fields(r));
    lemma_contains_trans(ris_head(r) + ris_fields(r), ris_fields(r), wrap_nonempty(r.isbn@, "SN  - "@, "\n"@));
    lemma_contains_left(ris_head(r) + ris_fields(r), ris_tail(r));
    lemma_contains_trans(ris_entry(r), ris_head(r) + ris_fields(r), wrap_nonempty(r.isbn@, "SN  - "@, "\n"@));
}

proof fn lemma_ris_language_line(r: Reference)
    requires
        r.language@.len() > 0,
    ensures
        contains_text(ris_entry(r), "LA  - "@ + r.language@ + "\n"@),
{
    assert((((((wrap_nonempty(r.publisher@, "PB  - "@, "\n"@) + wrap_nonempty(r.doi@, "DO  - "@, "\n"@)) + wrap_nonempty(r.url@, "UR  - "@, "\n"@)) + wrap_nonempty(r.issn@, "SN  - "@, "\n"@)) + wrap_nonempty(r.isbn@, "SN  - "@, "\n"@)) + wrap_nonempty(r.language@, "LA  - "@, "\n"@)) == ris_fields_back(r));
    lemma_contains_right(((((wrap_nonempty(r.publisher@, "PB  - "@, "\n"@) + wrap_nonempty(r.doi@, "DO  - "@, "\n"@)) + wrap_nonempty(r.url@, "UR  - "@, "\n"@)) + wrap_nonempty(r.issn@, "SN  - "@, "\n"@)) + wrap_nonempty(r.isbn@, "SN  - "@, "\n"@)), wrap_nonempty(r.language@, "LA  - "@, "\n"@));
    lemma_contains_right(ris_fields_front(r), ris_fields_back(r));
    lemma_contains_trans(ris_fields(r), ris_fields_back(r), wrap_nonempty(r.language@, "LA  - "@, "\n"@));
    lemma_contains_right(ris_head(r), ris_fields(r));
    lemma_contains_trans(ris_head(r) + ris_fields(r), ris_fields(r), wrap_nonempty(r.language@, "LA  - "@, "\n"@));
    lemma_contains_left(ris_head(r) + ris_fields(r), ris_tail(r));
    lemma_contains_trans(ris_entry(r), ris_head(r) + ris_fields(r), wrap_nonempty(r.language@, "LA  - "@, "\n"@));
}

/// In the RIS export, every reference's non-empty fields stand on their own
/// tagged lines: `AB` the abstract, `JO` the journal, `PY` the year, `VL`
/// the volume, `IS` the issue, `SP` the pages, `PB` the publisher, `DO` the
/// DOI, `UR` the URL, `SN` the ISSN and the ISBN, `LA` the language.
pub proof fn law_ris_export_field_lines(refs: Seq<Reference>, k: int)
    requires
        0 <= k < refs.len(),
    ensures
        ({
            let r = refs[k];
            &&& r.abstract_text@.len() > 0 ==> contains_text(ris_export(refs), "AB  - "@ + r.abstract_text@ + "\n"@)
            &&& r.journal@.len() > 0 ==> contains_text(ris_export(refs), "JO  - "@ + r.journal@ + "\n"@)
            &&& r.year@.len() > 0 ==> contains_text(ris_export(refs), "PY  - "@ + r.year@ + "\n"@)
            &&& r.volume@.len() > 0 ==> contains_text(ris_export(refs), "VL  - "@ + r.volume@ + "\n"@)
            &&& r.issue@.len() > 0 ==> contains_text(ris_export(refs), "IS  - "@ + r.issue@ + "\n"@)
            &&& r.pages@.len() > 0 ==> contains_text(ris_export(refs), "SP  - "@ + r.pages@ + "\n"@)
            &&& r.publisher@.len() > 0 ==> contains_text(ris_export(refs), "PB  - "@ + r.publisher@ + "\n"@)
            &&& r.doi@.len() > 0 ==> contains_text(ris_export(refs), "DO  - "@ + r.doi@ + "\n"@)
            &&& r.url@.len() > 0 ==> contains_text(ris_export(refs), "UR  - "@ + r.url@ + "\n"@)
            &&& r.issn@.len() > 0 ==> contains_text(ris_export(refs), "SN  - "@ + r.issn@ + "\n"@)
            &&& r.isbn@.len() > 0 ==> contains_text(ris_export(refs), "SN  - "@ + r.isbn@ + "\n"@)
            &&& r.language@.len() > 0 ==> contains_text(ris_export(refs), "LA  - "@ + r.language@ + "\n"@)
        }),
{
    let r = refs[k];
    lemma_ris_entry_in_export(refs, k);
    if r.abstract_text@.len() > 0 {
        lemma_ris_abstract_text_line(r);
        lemma_contains_trans(ris_export(refs), ris_entry(r), "AB  - "@ + r.abstract_text@ + "\n"@);
    }
    if r.journal@.len() > 0 {
        lemma_ris_journal_line(r);
        lemma_contains_trans(ris_export(refs), ris_entry(r), "JO  - "@ + r.journal@ + "\n"@);
    }
    if r.year@.len() > 0 {
        lemma_ris_year_line(r);
        lemma_contains_trans(ris_export(refs), ris_entry(r), "PY  - "@ + r.year@ + "\n"@);
    }
    if r.volume@.len() > 0 {
        lemma_ris_volume_line(r);
        lemma_contains_trans(ris_export(refs), ris_entry(r), "VL  - "@ + r.volume@ + "\n"@);
    }
    if r.issue@.len() > 0 {
        lemma_ris_issue_line(r);
        lemma_contains_trans(ris_export(refs), ris_entry(r), "IS  - "@ + r.issue@ + "\n"@);
    }
    if r.pages@.len() > 0 {
        lemma_ris_pages_line(r);
        lemma_contains_trans(ris_export(refs), ris_entry(r), "SP  - "@ + r.pages@ + "\n"@);
    }
    if r.publisher@.len() > 0 {
        lemma_ris_publisher_line(r);
        lemma_contains_trans(ris_export(refs), ris_entry(r), "PB  - "@ + r.publisher@ + "\n"@);
    }
    if r.doi@.len() > 0 {
        lemma_ris_doi_line(r);
        lemma_contains_trans(ris_export(refs), ris_entry(r), "DO  - "@ + r.doi@ + "\n"@);
    }
    if r.url@.len() > 0 {
        lemma_ris_url_line(r);
        lemma_contains_trans(ris_export(refs), ris_entry(r), "UR  - "@ + r.url@ + "\n"@);
    }
    if r.issn@.len() > 0 {
        lemma_ris_issn_line(r);
        lemma_contains_trans(ris_export(refs), ris_entry(r), "SN  - "@ + r.issn@ + "\n"@);
    }
    if r.isbn@.len() > 0 {
        lemma_ris_isbn_line(r);
        lemma_contains_trans(ris_export(refs), ris_entry(r), "SN  - "@ + r.isbn@ + "\n"@);
    }
    if r.language@.len() > 0 {
        lemma_ris_language_line(r);
        lemma_contains_trans(ris_export(refs), ris_entry(r), "LA  - "@ + r.language@ + "\n"@);
    }
}

proof fn lemma_bib_journal_line(r: Reference)
    requires
        r.journal@.len() > 0,
    ensures
        contains_text(bib_entry(r), "  journal   = {"@ + r.journal@ + "},\n"@),
{
    assert(((((wrap_nonempty(r.journal@, "  journal   = {"@, "},\n"@) + wrap_nonempty(r.year@, "  year      = {"@, "},\n"@)) + wrap_nonempty(r.volume@, "  volume    = {"@, "},\n"@)) + wrap_nonempty(r.issue@, "  number    = {"@, "},\n"@)) + (if r.pages@.len() > 0 { "  pages     = {"@ + replace(r.pages@, "-"@, "--"@) + "},\n"@ } else { seq![] })) == bib_fields_front(r));
    lemma_contains_refl(wrap_nonempty(r.journal@, "  journal   = {"@, "},\n"@));
    lemma_contains_left(wrap_nonempty(r.journal@, "  journal   = {"@, "},\n"@), wrap_nonempty(r.year@, "  year      = {"@, "},\n"@));
    lemma_contains_trans((wrap_nonempty(r.journal@, "  journal   = {"@, "},\n"@) + wrap_nonempty(r.year@, "  year      = {"@, "},\n"@)), wrap_nonempty(r.journal@, "  journal   = {"@, "},\n"@), wrap_nonempty(r.journal@, "  journal   = {"@, "},\n"@));
    lemma_contains_left((wrap_nonempty(r.journal@, "  journal   = {"@, "},\n"@) + wrap_nonempty(r.year@, "  year      = {"@, "},\n"@)), wrap_nonempty(r.volume@, "  volume    = {"@, "},\n"@));
    lemma_contains_trans(((wrap_nonempty(r.journal@, "  journal   = {"@, "},\n"@) + wrap_nonempty(r.year@, "  year      = {"@, "},\n"@)) + wrap_nonempty(r.volume@, "  volume    = {"@, "},\n"@)), (wrap_nonempty(r.journal@, "  journal   = {"@, "},\n"@) + wrap_nonempty(r.year@, "  year      = {"@, "},\n"@)), wrap_nonempty(r.journal@, "  journal   = {"@, "},\n"@));
    lemma_contains_left(((wrap_nonempty(r.journal@, "  journal   = {"@, "},\n"@) + wrap_nonempty(r.year@, "  year      = {"@, "},\n"@)) + wrap_nonempty(r.volume@, "  volume    = {"@, "},\n"@)), wrap_nonempty(r.issue@, "  number    = {"@, "},\n"@));
    lemma_contains_trans((((wrap_nonempty(r.journal@, "  journal   = {"@, "},\n"@) + wrap_nonempty(r.year@, "  year      = {"@, "},\n"@)) + wrap_nonempty(r.volume@, "  volume    = {"@, "},\n"@)) + wrap_nonempty(r.issue@, "  number    = {"@, "},\n"@)), ((wrap_nonempty(r.journal@, "  journal   = {"@, "},\n"@) + wrap_nonempty(r.year@, "  year      = {"@, "},\n"@)) + wrap_nonempty(r.volume@, "  volume    = {"@, "},\n"@)), wrap_nonempty(r.journal@, "  journal   = {"@, "},\n"@));
    lemma_contains_left((((wrap_nonempty(r.journal@, "  journal   = {"@, "},\n"@) + wrap_nonempty(r.year@, "  year      = {"@, "},\n"@)) + wrap_nonempty(r.volume@, "  volume    = {"@, "},\n"@)) + wrap_nonempty(r.issue@, "  number    = {"@, "},\n"@)), (if r.pages@.len() > 0 { "  pages     = {"@ + replace(r.pages@, "-"@, "--"@) + "},\n"@ } else { seq![] }));
    lemma_contains_trans(((((wrap_nonempty(r.journal@, "  journal   = {"@, "},\n"@) + wrap_nonempty(r.year@, "  year      = {"@, "},\n"@)) + wrap_nonempty(r.volume@, "  volume    = {"@, "},\n"@)) + wrap_nonempty(r.issue@, "  number    = {"@, "},\n"@)) + (if r.pages@.len() > 0 { "  pages     = {"@ + replace(r.pages@, "-"@, "--"@) + "},\n"@ } else { seq![] })), (((wrap_nonempty(r.journal@, "  journal   = {"@, "},\n"@) + wrap_nonempty(r.year@, "  year      = {"@, "},\n"@)) + wrap_nonempty(r.volume@, "  volume    = {"@, "},\n"@)) + wrap_nonempty(r.issue@, "  number    = {"@, "},\n"@)), wrap_nonempty(r.journal@, "  journal   = {"@, "},\n"@));
    lemma_contains_right(bib_head(r), bib_fields_front(r));
    lemma_contains_trans(bib_head(r) + bib_fields_front(r), bib_fields_front(r), wrap_nonempty(r.journal@, "  journal   = {"@, "},\n"@));
    lemma_contains_left(bib_head(r) + bib_fields_front(r), bib_fields_back(r));
    lemma_contains_trans(bib_head(r) + bib_fields_front(r) + bib_fields_back(r), bib_head(r) + bib_fields_front(r), wrap_nonempty(r.journal@, "  journal   = {"@, "},\n"@));
    lemma_contains_left(bib_head(r) + bib_fields_front(r) + bib_fields_back(r), "}\n\n"@);
    lemma_contains_trans(bib_entry(r), bib_head(r) + bib_fields_front(r) + bib_fields_back(r), wrap_nonempty(r.journal@, "  journal   = {"@, "},\n"@));
}

proof fn lemma_bib_year_line(r: Reference)
    requires
        r.year@.len() > 0,
    ensures
        contains_text(bib_entry(r), "  year      = {"@ + r.year@ + "},\n"@),
{
    assert(((((wrap_nonempty(r.journal@, "  journal   = {"@, "},\n"@) + wrap_nonempty(r.year@, "  year      = {"@, "},\n"@)) + wrap_nonempty(r.volume@, "  volume    = {"@, "},\n"@)) + wrap_nonempty(r.issue@, "  number    = {"@, "},\n"@)) + (if r.pages@.len() > 0 { "  pages     = {"@ + replace(r.pages@, "-"@, "--"@) + "},\n"@ } else { seq![] })) == bib_fields_front(r));
    lemma_contains_right(wrap_nonempty(r.journal@, "  journal   = {"@, "},\n"@), wrap_nonempty(r.year@, "  year      = {"@, "},\n"@));
    lemma_contains_left((wrap_nonempty(r.journal@, "  journal   = {"@, "},\n"@) + wrap_nonempty(r.year@, "  year      = {"@, "},\n"@)), wrap_nonempty(r.volume@, "  volume    = {"@, "},\n"@));
    lemma_contains_trans(((wrap_nonempty(r.journal@, "  journal   = {"@, "},\n"@) + wrap_nonempty(r.year@, "  year      = {"@, "},\n"@)) + wrap_nonempty(r.volume@, "  volume    = {"@, "},\n"@)), (wrap_nonempty(r.journal@, "  journal   = {"@, "},\n"@) + wrap_nonempty(r.year@, "  year      = {"@, "},\n"@)), wrap_nonempty(r.year@, "  year      = {"@, "},\n"@));
    lemma_contains_left(((wrap_nonempty(r.journal@, "  journal   = {"@, "},\n"@) + wrap_nonempty(r.year@, "  year      = {"@, "},\n"@)) + wrap_nonempty(r.volume@, "  volume    = {"@, "},\n"@)), wrap_nonempty(r.issue@, "  number    = {"@, "},\n"@));
    lemma_contains_trans((((wrap_nonempty(r.journal@, "  journal   = {"@, "},\n"@) + wrap_nonempty(r.year@, "  year      = {"@, "},\n"@)) + wrap_nonempty(r.volume@, "  volume    = {"@, "},\n"@)) + wrap_nonempty(r.issue@, "  number    = {"@, "},\n"@)), ((wrap_nonempty(r.journal@, "  journal   = {"@, "},\n"@) + wrap_nonempty(r.year@, "  year      = {"@, "},\n"@)) + wrap_nonempty(r.volume@, "  volume    = {"@, "},\n"@)), wrap_nonempty(r.year@, "  year      = {"@, "},\n"@));
    lemma_contains_left((((wrap_nonempty(r.journal@, "  journal   = {"@, "},\n"@) + wrap_nonempty(r.year@, "  year      = {"@, "},\n"@)) + wrap_nonempty(r.volume@, "  volume    = {"@, "},\n"@)) + wrap_nonempty(r.issue@, "  number    = {"@, "},\n"@)), (if r.pages@.len() > 0 { "  pages     = {"@ + replace(r.pages@, "-"@, "--"@) + "},\n"@ } else { seq![] }));
    lemma_contains_trans(((((wrap_nonempty(r.journal@, "  journal   = {"@, "},\n"@) + wrap_nonempty(r.year@, "  year      = {"@, "},\n"@)) + wrap_nonempty(r.volume@, "  volume    = {"@, "},\n"@)) + wrap_nonempty(r.issue@, "  number    = {"@, "},\n"@)) + (if r.pages@.len() > 0 { "  pages     = {"@ + replace(r.pages@, "-"@, "--"@) + "},\n"@ } else { seq![] })), (((wrap_nonempty(r.journal@, "  journal   = {"@, "},\n"@) + wrap_nonempty(r.year@, "  year      = {"@, "},\n"@)) + wrap_nonempty(r.volume@, "  volume    = {"@, "},\n"@)) + wrap_nonempty(r.issue@, "  number    = {"@, "},\n"@)), wrap_nonempty(r.year@, "  year      = {"@, "},\n"@));
    lemma_contains_right(bib_head(r), bib_fields_front(r));
    lemma_contains_trans(bib_head(r) + bib_fields_front(r), bib_fields_front(r), wrap_nonempty(r.year@, "  year      = {"@, "},\n"@));
    lemma_contains_left(bib_head(r) + bib_fields_front(r), bib_fields_back(r));
    lemma_contains_trans(bib_head(r) + bib_fields_front(r) + bib_fields_back(r), bib_head(r) + bib_fields_front(r), wrap_nonempty(r.year@, "  year      = {"@, "},\n"@));
    lemma_contains_left(bib_head(r) + bib_fields_front(r) + bib_fields_back(r), "}\n\n"@);
    lemma_contains_trans(bib_entry(r), bib_head(r) + bib_fields_front(r) + bib_fields_back(r), wrap_nonempty(r.year@, "  year      = {"@, "},\n"@));
}

proof fn lemma_bib_volume_line(r: Reference)
    requires
        r.volume@.len() > 0,
    ensures
        contains_text(bib_entry(r), "  volume    = {"@ + r.volume@ + "},\n"@),
{
    assert(((((wrap_nonempty(r.journal@, "  journal   = {"@, "},\n"@) + wrap_nonempty(r.year@, "  year      = {"@, "},\n"@)) + wrap_nonempty(r.volume@, "  volume    = {"@, "},\n"@)) + wrap_nonempty(r.issue@, "  number    = {"@, "},\n"@)) + (if r.pages@.len() > 0 { "  pages     = {"@ + replace(r.pages@, "-"@, "--"@) + "},\n"@ } else { seq![] })) == bib_fields_front(r));
    lemma_contains_right((wrap_nonempty(r.journal@, "  journal   = {"@, "},\n"@) + wrap_nonempty(r.year@, "  year      = {"@, "},\n"@)), wrap_nonempty(r.volume@, "  volume    = {"@, "},\n"@));
    lemma_contains_left(((wrap_nonempty(r.journal@, "  journal   = {"@, "},\n"@) + wrap_nonempty(r.year@, "  year      = {"@, "},\n"@)) + wrap_nonempty(r.volume@, "  volume    = {"@, "},\n"@)), wrap_nonempty(r.issue@, "  number    = {"@, "},\n"@));
    lemma_contains_trans((((wrap_nonempty(r.journal@, "  journal   = {"@, "},\n"@) + wrap_nonempty(r.year@, "  year      = {"@, "},\n"@)) + wrap_nonempty(r.volume@, "  volume    = {"@, "},\n"@)) + wrap_nonempty(r.issue@, "  number    = {"@, "},\n"@)), ((wrap_nonempty(r.journal@, "  journal   = {"@, "},\n"@) + wrap_nonempty(r.year@, "  year      = {"@, "},\n"@)) + wrap_nonempty(r.volume@, "  volume    = {"@, "},\n"@)), wrap_nonempty(r.volume@, "  volume    = {"@, "},\n"@));
    lemma_contains_left((((wrap_nonempty(r.journal@, "  journal   = {"@, "},\n"@) + wrap_nonempty(r.year@, "  year      = {"@, "},\n"@)) + wrap_nonempty(r.volume@, "  volume    = {"@, "},\n"@)) + wrap_nonempty(r.issue@, "  number    = {"@, "},\n"@)), (if r.pages@.len() > 0 { "  pages     = {"@ + replace(r.pages@, "-"@, "--"@) + "},\n"@ } else { seq![] }));
    lemma_contains_trans(((((wrap_nonempty(r.journal@, "  journal   = {"@, "},\n"@) + wrap_nonempty(r.year@, "  year      = {"@, "},\n"@)) + wrap_nonempty(r.volume@, "  volume    = {"@, "},\n"@)) + wrap_nonempty(r.issue@, "  number    = {"@, "},\n"@)) + (if r.pages@.len() > 0 { "  pages     = {"@ + replace(r.pages@, "-"@, "--"@) + "},\n"@ } else { seq![] })), (((wrap_nonempty(r.journal@, "  journal   = {"@, "},\n"@) + wrap_nonempty(r.year@, "  year      = {"@, "},\n"@)) + wrap_nonempty(r.volume@, "  volume    = {"@, "},\n"@)) + wrap_nonempty(r.issue@, "  number    = {"@, "},\n"@)), wrap_nonempty(r.volume@, "  volume    = {"@, "},\n"@));
    lemma_contains_right(bib_head(r), bib_fields_front(r));
    lemma_contains_trans(bib_head(r) + bib_fields_front(r), bib_fields_front(r), wrap_nonempty(r.volume@, "  volume    = {"@, "},\n"@));
    lemma_contains_left(bib_head(r) + bib_fields_front(r), bib_fields_back(r));
    lemma_contains_trans(bib_head(r) + bib_fields_front(r) + bib_fields_back(r), bib_head(r) + bib_fields_front(r), wrap_nonempty(r.volume@, "  volume    = {"@, "},\n"@));
    lemma_contains_left(bib_head(r) + bib_fields_front(r) + bib_fields_back(r), "}\n\n"@);
    lemma_contains_trans(bib_entry(r), bib_head(r) + bib_fields_front(r) + bib_fields_back(r), wrap_nonempty(r.volume@, "  volume    = {"@, "},\n"@));
}

proof fn lemma_bib_issue_line(r: Reference)
    requires
        r.issue@.len() > 0,
    ensures
        contains_text(bib_entry(r), "  number    = {"@ + r.issue@ + "},\n"@),
{
    assert(((((wrap_nonempty(r.journal@, "  journal   = {"@, "},\n"@) + wrap_nonempty(r.year@, "  year      = {"@, "},\n"@)) + wrap_nonempty(r.volume@, "  volume    = {"@, "},\n"@)) + wrap_nonempty(r.issue@, "  number    = {"@, "},\n"@)) + (if r.pages@.len() > 0 { "  pages     = {"@ + replace(r.pages@, "-"@, "--"@) + "},\n"@ } else { seq![] })) == bib_fields_front(r));
    lemma_contains_right(((wrap_nonempty(r.journal@, "  journal   = {"@, "},\n"@) + wrap_nonempty(r.year@, "  year      = {"@, "},\n"@)) + wrap_nonempty(r.volume@, "  volume    = {"@, "},\n"@)), wrap_nonempty(r.issue@, "  number    = {"@, "},\n"@));
    lemma_contains_left((((wrap_nonempty(r.journal@, "  journal   = {"@, "},\n"@) + wrap_nonempty(r.year@, "  year      = {"@, "},\n"@)) + wrap_nonempty(r.volume@, "  volume    = {"@, "},\n"@)) + wrap_nonempty(r.issue@, "  number    = {"@, "},\n"@)), (if r.pages@.len() > 0 { "  pages     = {"@ + replace(r.pages@, "-"@, "--"@) + "},\n"@ } else { seq![] }));
    lemma_contains_trans(((((wrap_nonempty(r.journal@, "  journal   = {"@, "},\n"@) + wrap_nonempty(r.year@, "  year      = {"@, "},\n"@)) + wrap_nonempty(r.volume@, "  volume    = {"@, "},\n"@)) + wrap_nonempty(r.issue@, "  number    = {"@, "},\n"@)) + (if r.pages@.len() > 0 { "  pages     = {"@ + replace(r.pages@, "-"@, "--"@) + "},\n"@ } else { seq![] })), (((wrap_nonempty(r.journal@, "  journal   = {"@, "},\n"@) + wrap_nonempty(r.year@, "  year      = {"@, "},\n"@)) + wrap_nonempty(r.volume@, "  volume    = {"@, "},\n"@)) + wrap_nonempty(r.issue@, "  number    = {"@, "},\n"@)), wrap_nonempty(r.issue@, "  number    = {"@, "},\n"@));
    lemma_contains_right(bib_head(r), bib_fields_front(r));
    lemma_contains_trans(bib_head(r) + bib_fields_front(r), bib_fields_front(r), wrap_nonempty(r.issue@, "  number    = {"@, "},\n"@));
    lemma_contains_left(bib_head(r) + bib_fields_front(r), bib_fields_back(r));
    lemma_contains_trans(bib_head(r) + bib_fields_front(r) + bib_fields_back(r), bib_head(r) + bib_fields_front(r), wrap_nonempty(r.issue@, "  number    = {"@, "},\n"@));
    lemma_contains_left(bib_head(r) + bib_fields_front(r) + bib_fields_back(r), "}\n\n"@);
    lemma_contains_trans(bib_entry(r), bib_head(r) + bib_fields_front(r) + bib_fields_back(r), wrap_nonempty(r.issue@, "  number    = {"@, "},\n"@));
}

proof fn lemma_bib_publisher_line(r: Reference)
    requires
        r.publisher@.len() > 0,
    ensures
        contains_text(bib_entry(r), "  publisher = {"@ + r.publisher@ + "},\n"@),
{
    assert(((((wrap_nonempty(r.publisher@, "  publisher = {"@, "},\n"@) + wrap_nonempty(r.doi@, "  doi       = {"@, "},\n"@)) + wrap_nonempty(r.isbn@, "  isbn      = {"@, "},\n"@)) + wrap_nonempty(r.abstract_text@, "  abstract  = {"@, "},\n"@)) + (if r.tags@.len() > 0 { "  keywords  = {"@ + join(string_views(r.tags@), ", "@) + "},\n"@ } else { seq![] })) == bib_fields_back(r));
    lemma_contains_refl(wrap_nonempty(r.publisher@, "  publisher = {"@, "},\n"@));
    lemma_contains_left(wrap_nonempty(r.publisher@, "  publisher = {"@, "},\n"@), wrap_nonempty(r.doi@, "  doi       = {"@, "},\n"@));
    lemma_contains_trans((wrap_nonempty(r.publisher@, "  publisher = {"@, "},\n"@) + wrap_nonempty(r.doi@, "  doi       = {"@, "},\n"@)), wrap_nonempty(r.publisher@, "  publisher = {"@, "},\n"@), wrap_nonempty(r.publisher@, "  publisher = {"@, "},\n"@));
    lemma_contains_left((wrap_nonempty(r.publisher@, "  publisher = {"@, "},\n"@) + wrap_nonempty(r.doi@, "  doi       = {"@, "},\n"@)), wrap_nonempty(r.isbn@, "  isbn      = {"@, "},\n"@));
    lemma_contains_trans(((wrap_nonempty(r.publisher@, "  publisher = {"@, "},\n"@) + wrap_nonempty(r.doi@, "  doi       = {"@, "},\n"@)) + wrap_nonempty(r.isbn@, "  isbn      = {"@, "},\n"@)), (wrap_nonempty(r.publisher@, "  publisher = {"@, "},\n"@) + wrap_nonempty(r.doi@, "  doi       = {"@, "},\n"@)), wrap_nonempty(r.publisher@, "  publisher = {"@, "},\n"@));
    lemma_contains_left(((wrap_nonempty(r.publisher@, "  publisher = {"@, "},\n"@) + wrap_nonempty(r.doi@, "  doi       = {"@, "},\n"@)) + wrap_nonempty(r.isbn@, "  isbn      = {"@, "},\n"@)), wrap_nonempty(r.abstract_text@, "  abstract  = {"@, "},\n"@));
    lemma_contains_trans((((wrap_nonempty(r.publisher@, "  publisher = {"@, "},\n"@) + wrap_nonempty(r.doi@, "  doi       = {"@, "},\n"@)) + wrap_nonempty(r.isbn@, "  isbn      = {"@, "},\n"@)) + wrap_nonempty(r.abstract_text@, "  abstract  = {"@, "},\n"@)), ((wrap_nonempty(r.publisher@, "  publisher = {"@, "},\n"@) + wrap_nonempty(r.doi@, "  doi       = {"@, "},\n"@)) + wrap_nonempty(r.isbn@, "  isbn      = {"@, "},\n"@)), wrap_nonempty(r.publisher@, "  publisher = {"@, "},\n"@));
    lemma_contains_left((((wrap_nonempty(r.publisher@, "  publisher = {"@, "},\n"@) + wrap_nonempty(r.doi@, "  doi       = {"@, "},\n"@)) + wrap_nonempty(r.isbn@, "  isbn      = {"@, "},\n"@)) + wrap_nonempty(r.abstract_text@, "  abstract  = {"@, "},\n"@)), (if r.tags@.len() > 0 { "  keywords  = {"@ + join(string_views(r.tags@), ", "@) + "},\n"@ } else { seq![] }));
    lemma_contains_trans(((((wrap_nonempty(r.publisher@, "  publisher = {"@, "},\n"@) + wrap_nonempty(r.doi@, "  doi       = {"@, "},\n"@)) + wrap_nonempty(r.isbn@, "  isbn      = {"@, "},\n"@)) + wrap_nonempty(r.abstract_text@, "  abstract  = {"@, "},\n"@)) + (if r.tags@.len() > 0 { "  keywords  = {"@ + join(string_views(r.tags@), ", "@) + "},\n"@ } else { seq![] })), (((wrap_nonempty(r.publisher@, "  publisher = {"@, "},\n"@) + wrap_nonempty(r.doi@, "  doi       = {"@, "},\n"@)) + wrap_nonempty(r.isbn@, "  isbn      = {"@, "},\n"@)) + wrap_nonempty(r.abstract_text@, "  abstract  = {"@, "},\n"@)), wrap_nonempty(r.publisher@, "  publisher = {"@, "},\n"@));
    lemma_contains_right(bib_head(r) + bib_fields_front(r), bib_fields_back(r));
    lemma_contains_trans(bib_head(r) + bib_fields_front(r) + bib_fields_back(r), bib_fields_back(r), wrap_nonempty(r.publisher@, "  publisher = {"@, "},\n"@));
    lemma_contains_left(bib_head(r) + bib_fields_front(r) + bib_fields_back(r), "}\n\n"@);
    lemma_contains_trans(bib_entry(r), bib_head(r) + bib_fields_front(r) + bib_fields_back(r), wrap_nonempty(r.publisher@, "  publisher = {"@, "},\n"@));
}

proof fn lemma_bib_doi_line(r: Reference)
    requires
        r.doi@.len() > 0,
    ensures
        contains_text(bib_entry(r), "  doi       = {"@ + r.doi@ + "},\n"@),
{
    assert(((((wrap_nonempty(r.publisher@, "  publisher = {"@, "},\n"@) + wrap_nonempty(r.doi@, "  doi       = {"@, "},\n"@)) + wrap_nonempty(r.isbn@, "  isbn      = {"@, "},\n"@)) + wrap_nonempty(r.abstract_text@, "  abstract  = {"@, "},\n"@)) + (if r.tags@.len() > 0 { "  keywords  = {"@ + join(string_views(r.tags@), ", "@) + "},\n"@ } else { seq![] })) == bib_fields_back(r));
    lemma_contains_right(wrap_nonempty(r.publisher@, "  publisher = {"@, "},\n"@), wrap_nonempty(r.doi@, "  doi       = {"@, "},\n"@));
    lemma_contains_left((wrap_nonempty(r.publisher@, "  publisher = {"@, "},\n"@) + wrap_nonempty(r.doi@, "  doi       = {"@, "},\n"@)), wrap_nonempty(r.isbn@, "  isbn      = {"@, "},\n"@));
    lemma_contains_trans(((wrap_nonempty(r.publisher@, "  publisher = {"@, "},\n"@) + wrap_nonempty(r.doi@, "  doi       = {"@, "},\n"@)) + wrap_nonempty(r.isbn@, "  isbn      = {"@, "},\n"@)), (wrap_nonempty(r.publisher@, "  publisher = {"@, "},\n"@) + wrap_nonempty(r.doi@, "  doi       = {"@, "},\n"@)), wrap_nonempty(r.doi@, "  doi       = {"@, "},\n"@));
    lemma_contains_left(((wrap_nonempty(r.publisher@, "  publisher = {"@, "},\n"@) + wrap_nonempty(r.doi@, "  doi       = {"@, "},\n"@)) + wrap_nonempty(r.isbn@, "  isbn      = {"@, "},\n"@)), wrap_nonempty(r.abstract_text@, "  abstract  = {"@, "},\n"@));
    lemma_contains_trans((((wrap_nonempty(r.publisher@, "  publisher = {"@, "},\n"@) + wrap_nonempty(r.doi@, "  doi       = {"@, "},\n"@)) + wrap_nonempty(r.isbn@, "  isbn      = {"@, "},\n"@)) + wrap_nonempty(r.abstract_text@, "  abstract  = {"@, "},\n"@)), ((wrap_nonempty(r.publisher@, "  publisher = {"@, "},\n"@) + wrap_nonempty(r.doi@, "  doi       = {"@, "},\n"@)) + wrap_nonempty(r.isbn@, "  isbn      = {"@, "},\n"@)), wrap_nonempty(r.doi@, "  doi       = {"@, "},\n"@));
    lemma_contains_left((((wrap_nonempty(r.publisher@, "  publisher = {"@, "},\n"@) + wrap_nonempty(r.doi@, "  doi       = {"@, "},\n"@)) + wrap_nonempty(r.isbn@, "  isbn      = {"@, "},\n"@)) + wrap_nonempty(r.abstract_text@, "  abstract  = {"@, "},\n"@)), (if r.tags@.len() > 0 { "  keywords  = {"@ + join(string_views(r.tags@), ", "@) + "},\n"@ } else { seq![] }));
    lemma_contains_trans(((((wrap_nonempty(r.publisher@, "  publisher = {"@, "},\n"@) + wrap_nonempty(r.doi@, "  doi       = {"@, "},\n"@)) + wrap_nonempty(r.isbn@, "  isbn      = {"@, "},\n"@)) + wrap_nonempty(r.abstract_text@, "  abstract  = {"@, "},\n"@)) + (if r.tags@.len() > 0 { "  keywords  = {"@ + join(string_views(r.tags@), ", "@) + "},\n"@ } else { seq![] })), (((wrap_nonempty(r.publisher@, "  publisher = {"@, "},\n"@) + wrap_nonempty(r.doi@, "  doi       = {"@, "},\n"@)) + wrap_nonempty(r.isbn@, "  isbn      = {"@, "},\n"@)) + wrap_nonempty(r.abstract_text@, "  abstract  = {"@, "},\n"@)), wrap_nonempty(r.doi@, "  doi       = {"@, "},\n"@));
    lemma_contains_right(bib_head(r) + bib_fields_front(r), bib_fields_back(r));
    lemma_contains_trans(bib_head(r) + bib_fields_front(r) + bib_fields_back(r), bib_fields_back(r), wrap_nonempty(r.doi@, "  doi       = {"@, "},\n"@));
    lemma_contains_left(bib_head(r) + bib_fields_front(r) + bib_fields_back(r), "}\n\n"@);
    lemma_contains_trans(bib_entry(r), bib_head(r) + bib_fields_front(r) + bib_fields_back(r), wrap_nonempty(r.doi@, "  doi       = {"@, "},\n"@));
}

proof fn lemma_bib_isbn_line(r: Reference)
    requires
        r.isbn@.len() > 0,
    ensures
        contains_text(bib_entry(r), "  isbn      = {"@ + r.isbn@ + "},\n"@),
{
    assert(((((wrap_nonempty(r.publisher@, "  publisher = {"@, "},\n"@) + wrap_nonempty(r.doi@, "  doi       = {"@, "},\n"@)) + wrap_nonempty(r.isbn@, "  isbn      = {"@, "},\n"@)) + wrap_nonempty(r.abstract_text@, "  abstract  = {"@, "},\n"@)) + (if r.tags@.len() > 0 { "  keywords  = {"@ + join(string_views(r.tags@), ", "@) + "},\n"@ } else { seq![] })) == bib_fields_back(r));
    lemma_contains_right((wrap_nonempty(r.publisher@, "  publisher = {"@, "},\n"@) + wrap_nonempty(r.doi@, "  doi       = {"@, "},\n"@)), wrap_nonempty(r.isbn@, "  isbn      = {"@, "},\n"@));
    lemma_contains_left(((wrap_nonempty(r.publisher@, "  publisher = {"@, "},\n"@) + wrap_nonempty(r.doi@, "  doi       = {"@, "},\n"@)) + wrap_nonempty(r.isbn@, "  isbn      = {"@, "},\n"@)), wrap_nonempty(r.abstract_text@, "  abstract  = {"@, "},\n"@));
    lemma_contains_trans((((wrap_nonempty(r.publisher@, "  publisher = {"@, "},\n"@) + wrap_nonempty(r.doi@, "  doi       = {"@, "},\n"@)) + wrap_nonempty(r.isbn@, "  isbn      = {"@, "},\n"@)) + wrap_nonempty(r.abstract_text@, "  abstract  = {"@, "},\n"@)), ((wrap_nonempty(r.publisher@, "  publisher = {"@, "},\n"@) + wrap_nonempty(r.doi@, "  doi       = {"@, "},\n"@)) + wrap_nonempty(r.isbn@, "  isbn      = {"@, "},\n"@)), wrap_nonempty(r.isbn@, "  isbn      = {"@, "},\n"@));
    lemma_contains_left((((wrap_nonempty(r.publisher@, "  publisher = {"@, "},\n"@) + wrap_nonempty(r.doi@, "  doi       = {"@, "},\n"@)) + wrap_nonempty(r.isbn@, "  isbn      = {"@, "},\n"@)) + wrap_nonempty(r.abstract_text@, "  abstract  = {"@, "},\n"@)), (if r.tags@.len() > 0 { "  keywords  = {"@ + join(string_views(r.tags@), ", "@) + "},\n"@ } else { seq![] }));
    lemma_contains_trans(((((wrap_nonempty(r.publisher@, "  publisher = {"@, "},\n"@) + wrap_nonempty(r.doi@, "  doi       = {"@, "},\n"@)) + wrap_nonempty(r.isbn@, "  isbn      = {"@, "},\n"@)) + wrap_nonempty(r.abstract_text@, "  abstract  = {"@, "},\n"@)) + (if r.tags@.len() > 0 { "  keywords  = {"@ + join(string_views(r.tags@), ", "@) + "},\n"@ } else { seq![] })), (((wrap_nonempty(r.publisher@, "  publisher = {"@, "},\n"@) + wrap_nonempty(r.doi@, "  doi       = {"@, "},\n"@)) + wrap_nonempty(r.isbn@, "  isbn      = {"@, "},\n"@)) + wrap_nonempty(r.abstract_text@, "  abstract  = {"@, "},\n"@)), wrap_nonempty(r.isbn@, "  isbn      = {"@, "},\n"@));
    lemma_contains_right(bib_head(r) + bib_fields_front(r), bib_fields_back(r));
    lemma_contains_trans(bib_head(r) + bib_fields_front(r) + bib_fields_back(r), bib_fields_back(r), wrap_nonempty(r.isbn@, "  isbn      = {"@, "},\n"@));
    lemma_contains_left(bib_head(r) + bib_fields_front(r) + bib_fields_back(r), "}\n\n"@);
    lemma_contains_trans(bib_entry(r), bib_head(r) + bib_fields_front(r) + bib_fields_back(r), wrap_nonempty(r.isbn@, "  isbn      = {"@, "},\n"@));
}

proof fn lemma_bib_abstract_text_line(r: Reference)
    requires
        r.abstract_text@.len() > 0,
    ensures
        contains_text(bib_entry(r), "  abstract  = {"@ + r.abstract_text@ + "},\n"@),
{
    assert(((((wrap_nonempty(r.publisher@, "  publisher = {"@, "},\n"@) + wrap_nonempty(r.doi@, "  doi       = {"@, "},\n"@)) + wrap_nonempty(r.isbn@, "  isbn      = {"@, "},\n"@)) + wrap_nonempty(r.abstract_text@, "  abstract  = {"@, "},\n"@)) + (if r.tags@.len() > 0 { "  keywords  = {"@ + join(string_views(r.tags@), ", "@) + "},\n"@ } else { seq![] })) == bib_fields_back(r));
    lemma_contains_right(((wrap_nonempty(r.publisher@, "  publisher = {"@, "},\n"@) + wrap_nonempty(r.doi@, "  doi       = {"@, "},\n"@)) + wrap_nonempty(r.isbn@, "  isbn      = {"@, "},\n"@)), wrap_nonempty(r.abstract_text@, "  abstract  = {"@, "},\n"@));
    lemma_contains_left((((wrap_nonempty(r.publisher@, "  publisher = {"@, "},\n"@) + wrap_nonempty(r.doi@, "  doi       = {"@, "},\n"@)) + wrap_nonempty(r.isbn@, "  isbn      = {"@, "},\n"@)) + wrap_nonempty(r.abstract_text@, "  abstract  = {"@, "},\n"@)), (if r.tags@.len() > 0 { "  keywords  = {"@ + join(string_views(r.tags@), ", "@) + "},\n"@ } else { seq![] }));
    lemma_contains_trans(((((wrap_nonempty(r.publisher@, "  publisher = {"@, "},\n"@) + wrap_nonempty(r.doi@, "  doi       = {"@, "},\n"@)) + wrap_nonempty(r.isbn@, "  isbn      = {"@, "},\n"@)) + wrap_nonempty(r.abstract_text@, "  abstract  = {"@, "},\n"@)) + (if r.tags@.len() > 0 { "  keywords  = {"@ + join(string_views(r.tags@), ", "@) + "},\n"@ } else { seq![] })), (((wrap_nonempty(r.publisher@, "  publisher = {"@, "},\n"@) + wrap_nonempty(r.doi@, "  doi       = {"@, "},\n"@)) + wrap_nonempty(r.isbn@, "  isbn      = {"@, "},\n"@)) + wrap_nonempty(r.abstract_text@, "  abstract  = {"@, "},\n"@)), wrap_nonempty(r.abstract_text@, "  abstract  = {"@, "},\n"@));
    lemma_contains_right(bib_head(r) + bib_fields_front(r), bib_fields_back(r));
    lemma_contains_trans(bib_head(r) + bib_fields_front(r) + bib_fields_back(r), bib_fields_back(r), wrap_nonempty(r.abstract_text@, "  abstract  = {"@, "},\n"@));
    lemma_contains_left(bib_head(r) + bib_fields_front(r) + bib_fields_back(r), "}\n\n"@);
    lemma_contains_trans(bib_entry(r), bib_head(r) + bib_fields_front(r) + bib_fields_back(r), wrap_nonempty(r.abstract_text@, "  abstract  = {"@, "},\n"@));
}

proof fn lemma_bib_entry_in_export(refs: Seq<Reference>, k: int)
    requires
        0 <= k < refs.len(),
    ensures
        contains_text(bib_export(refs), bib_entry(refs[k])),
    decreases refs.len(),
{
    let rest = refs.drop_last();
    if k == refs.len() - 1 {
        lemma_contains_right(bib_export(rest), bib_entry(refs[k]));
    } else {
        lemma_bib_entry_in_export(rest, k);
        assert(rest[k] == refs[k]);
        lemma_contains_left(bib_export(rest), bib_entry(refs.last()));
        lemma_contains_trans(bib_export(refs), bib_export(rest), bib_entry(refs[k]));
    }
}

/// In the BibTeX export, every reference's non-empty fields stand on their
/// own `name = {value},` lines: the journal, year, volume, issue (as
/// `number`), publisher, DOI, ISBN and abstract.
pub proof fn law_bibtex_export_field_lines(refs: Seq<Reference>, k: int)
    requires
        0 <= k < refs.len(),
    ensures
        ({
            let r = refs[k];
            &&& r.journal@.len() > 0 ==> contains_text(bib_export(refs), "  journal   = {"@ + r.journal@ + "},\n"@)
            &&& r.year@.len() > 0 ==> contains_text(bib_export(refs), "  year      = {"@ + r.year@ + "},\n"@)
            &&& r.volume@.len() > 0 ==> contains_text(bib_export(refs), "  volume    = {"@ + r.volume@ + "},\n"@)
            &&& r.issue@.len() > 0 ==> contains_text(bib_export(refs), "  number    = {"@ + r.issue@ + "},\n"@)
            &&& r.publisher@.len() > 0 ==> contains_text(bib_export(refs), "  publisher = {"@ + r.publisher@ + "},\n"@)
            &&& r.doi@.len() > 0 ==> contains_text(bib_export(refs), "  doi       = {"@ + r.doi@ + "},\n"@)
            &&& r.isbn@.len() > 0 ==> contains_text(bib_export(refs), "  isbn      = {"@ + r.isbn@ + "},\n"@)
            &&& r.abstract_text@.len() > 0 ==> contains_text(bib_export(refs), "  abstract  = {"@ + r.abstract_text@ + "},\n"@)
        }),
{
    let r = refs[k];
    lemma_bib_entry_in_export(refs, k);
    if r.journal@.len() > 0 {
        lemma_bib_journal_line(r);
        lemma_contains_trans(bib_export(refs), bib_entry(r), "  journal   = {"@ + r.journal@ + "},\n"@);
    }
    if r.year@.len() > 0 {
        lemma_bib_year_line(r);
        lemma_contains_trans(bib_export(refs), bib_entry(r), "  year      = {"@ + r.year@ + "},\n"@);
    }
    if r.volume@.len() > 0 {
        lemma_bib_volume_line(r);
        lemma_contains_trans(bib_export(refs), bib_entry(r), "  volume    = {"@ + r.volume@ + "},\n"@);
    }
    if r.issue@.len() > 0 {
        lemma_bib_issue_line(r);
        lemma_contains_trans(bib_export(refs), bib_entry(r), "  number    = {"@ + r.issue@ + "},\n"@);
    }
    if r.publisher@.len() > 0 {
        lemma_bib_publisher_line(r);
        lemma_contains_trans(bib_export(refs), bib_entry(r), "  publisher = {"@ + r.publisher@ + "},\n"@);
    }
    if r.doi@.len() > 0 {
        lemma_bib_doi_line(r);
        lemma_contains_trans(bib_export(refs), bib_entry(r), "  doi       = {"@ + r.doi@ + "},\n"@);
    }
    if r.isbn@.len() > 0 {
        lemma_bib_isbn_line(r);
        lemma_contains_trans(bib_export(refs), bib_entry(r), "  isbn      = {"@ + r.isbn@ + "},\n"@);
    }
    if r.abstract_text@.len() > 0 {
        lemma_bib_abstract_text_line(r);
        lemma_contains_trans(bib_export(refs), bib_entry(r), "  abstract  = {"@ + r.abstract_text@ + "},\n"@);
    }
}

/// Reference types survive export and import: each RIS type code and each
/// BibTeX entry type that the importer knows is written back as the same
/// code, and each reference type the exporter names is read back as the
/// same type.
pub proof fn law_reference_types_round_trip(x: Seq<char>)
    ensures
        (x == "JOUR"@ || x == "BOOK"@ || x == "CHAP"@ || x == "CONF"@ || x == "THES"@ || x == "RPRT"@ || x == "ELEC"@) ==> ris_type(crate::cite_import::ris_reference_type(x)) == x,
        (x == "article"@ || x == "book"@ || x == "incollection"@ || x == "inproceedings"@ || x == "phdthesis"@ || x == "techreport"@ || x == "misc"@) ==> bib_type(crate::cite_import::bib_reference_type(x)) == x,
        (x == "Journal Article"@ || x == "Book"@ || x == "Book Chapter"@ || x == "Conference Paper"@ || x == "Thesis"@ || x == "Report"@ || x == "Website"@) ==> crate::cite_import::ris_reference_type(ris_type(x)) == x,
        (x == "Journal Article"@ || x == "Book"@ || x == "Book Chapter"@ || x == "Conference Paper"@ || x == "Thesis"@ || x == "Report"@) ==> crate::cite_import::bib_reference_type(bib_type(x)) == x,
{
    reveal_strlit("JOUR");
    reveal_strlit("BOOK");
    reveal_strlit("CHAP");
    reveal_strlit("CONF");
    reveal_strlit("THES");
    reveal_strlit("RPRT");
    reveal_strlit("ELEC");
    reveal_strlit("article");
    reveal_strlit("book");
    reveal_strlit("incollection");
    reveal_strlit("inproceedings");
    reveal_strlit("phdthesis");
    reveal_strlit("techreport");
    reveal_strlit("misc");
    reveal_strlit("Journal Article");
    reveal_strlit("Book");
    reveal_strlit("Book Chapter");
    reveal_strlit("Conference Paper");
    reveal_strlit("Thesis");
    reveal_strlit("Report");
    reveal_strlit("Website");
    reveal_strlit("Preprint");
    reveal_strlit("Other");
    reveal_strlit("CPAPER");
    reveal_strlit("conference");
    reveal_strlit("mastersthesis");
    assert("BOOK"@[0] != "JOUR"@[0]);
    assert("CHAP"@[0] != "JOUR"@[0]);
    assert("CHAP"@[0] != "BOOK"@[0]);
    assert("CONF"@[0] != "JOUR"@[0]);
    assert("CONF"@[0] != "BOOK"@[0]);
    assert("CONF"@[1] != "CHAP"@[1]);
    assert("THES"@[0] != "JOUR"@[0]);
    assert("THES"@[0] != "BOOK"@[0]);
    assert("THES"@[0] != "CHAP"@[0]);
    assert("THES"@[0] != "CONF"@[0]);
    assert("RPRT"@[0] != "JOUR"@[0]);
    assert("RPRT"@[0] != "BOOK"@[0]);
    assert("RPRT"@[0] != "CHAP"@[0]);
    assert("RPRT"@[0] != "CONF"@[0]);
    assert("RPRT"@[0] != "THES"@[0]);
    assert("ELEC"@[0] != "JOUR"@[0]);
    assert("ELEC"@[0] != "BOOK"@[0]);
    assert("ELEC"@[0] != "CHAP"@[0]);
    assert("ELEC"@[0] != "CONF"@[0]);
    assert("ELEC"@[0] != "THES"@[0]);
    assert("ELEC"@[0] != "RPRT"@[0]);
    assert("CPAPER"@.len() != "JOUR"@.len());
    assert("CPAPER"@.len() != "BOOK"@.len());
    assert("CPAPER"@.len() != "CHAP"@.len());
    assert("CPAPER"@.len() != "CONF"@.len());
    assert("CPAPER"@.len() != "THES"@.len());
    assert("CPAPER"@.len() != "RPRT"@.len());
    assert("CPAPER"@.len() != "ELEC"@.len());
    assert("book"@.len() != "article"@.len());
    assert("incollection"@.len() != "article"@.len());
    assert("incollection"@.len() != "book"@.len());
    assert("inproceedings"@.len() != "article"@.len());
    assert("inproceedings"@.len() != "book"@.len());
    assert("inproceedings"@.len() != "incollection"@.len());
    assert("phdthesis"@.len() != "article"@.len());
    assert("phdthesis"@.len() != "book"@.len());
    assert("phdthesis"@.len() != "incollection"@.len());
    assert("phdthesis"@.len() != "inproceedings"@.len());
    assert("techreport"@.len() != "article"@.len());
    assert("techreport"@.len() != "book"@.len());
    assert("techreport"@.len() != "incollection"@.len());
    assert("techreport"@.len() != "inproceedings"@.len());
    assert("techreport"@.len() != "phdthesis"@.len());
    assert("misc"@.len() != "article"@.len());
    assert("misc"@[0] != "book"@[0]);
    assert("misc"@.len() != "incollection"@.len());
    assert("misc"@.len() != "inproceedings"@.len());
    assert("misc"@.len() != "phdthesis"@.len());
    assert("misc"@.len() != "techreport"@.len());
    assert("conference"@.len() != "article"@.len());
    assert("conference"@.len() != "book"@.len());
    assert("conference"@.len() != "incollection"@.len());
    assert("conference"@.len() != "inproceedings"@.len());
    assert("conference"@.len() != "phdthesis"@.len());
    assert("conference"@[0] != "techreport"@[0]);
    assert("conference"@.len() != "misc"@.len());
    assert("mastersthesis"@.len() != "article"@.len());
    assert("mastersthesis"@.len() != "book"@.len());
    assert("mastersthesis"@.len() != "incollection"@.len());
    assert("mastersthesis"@[0] != "inproceedings"@[0]);
    assert("mastersthesis"@.len() != "phdthesis"@.len());
    assert("mastersthesis"@.len() != "techreport"@.len());
    assert("mastersthesis"@.len() != "misc"@.len());
    assert("mastersthesis"@.len() != "conference"@.len());
    assert("Book"@.len() != "Journal Article"@.len());
    assert("Book Chapter"@.len() != "Journal Article"@.len());
    assert("Book Chapter"@.len() != "Book"@.len());
    assert("Conference Paper"@.len() != "Journal Article"@.len());
    assert("Conference Paper"@.len() != "Book"@.len());
    assert("Conference Paper"@.len() != "Book Chapter"@.len());
    assert("Thesis"@.len() != "Journal Article"@.len());
    assert("Thesis"@.len() != "Book"@.len());
    assert("Thesis"@.len() != "Book Chapter"@.len());
    assert("Thesis"@.len() != "Conference Paper"@.len());
    assert("Report"@.len() != "Journal Article"@.len());
    assert("Report"@.len() != "Book"@.len());
    assert("Report"@.len() != "Book Chapter"@.len());
    assert("Report"@.len() != "Conference Paper"@.len());
    assert("Report"@[0] != "Thesis"@[0]);
    assert("Website"@.len() != "Journal Article"@.len());
    assert("Website"@.len() != "Book"@.len());
    assert("Website"@.len() != "Book Chapter"@.len());
    assert("Website"@.len() != "Conference Paper"@.len());
    assert("Website"@.len() != "Thesis"@.len());
    assert("Website"@.len() != "Report"@.len());
    assert("Preprint"@.len() != "Journal Article"@.len());
    assert("Preprint"@.len() != "Book"@.len());
    assert("Preprint"@.len() != "Book Chapter"@.len());
    assert("Preprint"@.len() != "Conference Paper"@.len());
    assert("Preprint"@.len() != "Thesis"@.len());
    assert("Preprint"@.len() != "Report"@.len());
    assert("Preprint"@.len() != "Website"@.len());
    assert("Other"@.len() != "Journal Article"@.len());
    assert("Other"@.len() != "Book"@.len());
    assert("Other"@.len() != "Book Chapter"@.len());
    assert("Other"@.len() != "Conference Paper"@.len());
    assert("Other"@.len() != "Thesis"@.len());
    assert("Other"@.len() != "Report"@.len());
    assert("Other"@.len() != "Website"@.len());
    assert("Other"@.len() != "Preprint"@.len());
}

} // verus!
