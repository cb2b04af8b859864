//! Citations from the editor: a citation record becomes a CSL reference, and
//! is formatted as an in-text citation or as a bibliography entry.

use vstd::prelude::*;
use crate::attributes::opt_view;
use crate::cite::CitationPayload;
use crate::csl::{Citation, DateVariable, Layout, NameVariable, Reference, RenderingElement, Style, Text};
use crate::csl_engine::{
    element_output, eval_el, evaluate_layout, law_text_variable_renders_its_field, present_text, evaluation_ends, law_fuel_irrelevant, layout_output,
    nonempty_parts, Context,
};
use crate::text::{
    append, append_str, chars_of, contains_text, decimal_of_i32, int_decimal, lemma_contains_left,
    lemma_contains_middle, lemma_contains_right, lemma_contains_trans, law_i32_decimal_round_trip, join, join_of, parse_i32,
    parse_i32_spec, split_char, split_char_of, split_on, split_on_of, string_of, trim, trim_of, views,
};

verus! {

// ── From a citation record ───────────────────────────────────────────────────

/// The parts of one author, `Family, Given`, split at commas and trimmed.
pub open spec fn author_parts(a: Seq<char>) -> Seq<Seq<char>> {
    split_char(a, ',').map_values(|p: Seq<char>| trim(p))
}

/// The authors of `Family, Given and Family, Given`.
pub open spec fn author_list(author: Seq<char>) -> Seq<Seq<char>> {
    split_on(author, " and "@)
}

/// `n` holds the family and given name of the author `a`, and nothing else.
pub open spec fn name_of(n: NameVariable, a: Seq<char>) -> bool {
    let parts = author_parts(a);
    &&& opt_view(n.family) == Some(parts[0])
    &&& opt_view(n.given) == if parts.len() > 1 {
        Some(parts[1])
    } else {
        None::<Seq<char>>
    }
    &&& n.dropping_particle is None
    &&& n.non_dropping_particle is None
    &&& n.literal is None
    &&& n.suffix is None
}

/// `r` is the CSL reference of the citation record `p`: its id and type,
/// the title, the publisher as container title, the URL, the authors when
/// any are named, and the year when it is an integer.
pub open spec fn reference_of(r: Reference, p: CitationPayload) -> bool {
    &&& r.id@ == p.id@
    &&& r.ref_type@ == p.item_type@
    &&& opt_view(r.title) == Some(p.title@)
    &&& opt_view(r.container_title) == Some(p.publisher@)
    &&& opt_view(r.url) == Some(p.url@)
    &&& r.publisher is None
    &&& r.publisher_place is None
    &&& r.page is None
    &&& r.volume is None
    &&& r.issue is None
    &&& r.doi is None
    &&& r.isbn is None
    &&& r.issn is None
    &&& r.accessed is None
    &&& r.editor is None
    &&& r.translator is None
    &&& (p.author@.len() == 0 ==> r.author is None)
    &&& (p.author@.len() > 0 ==> (r.author matches Some(v) && v@.len() == author_list(p.author@).len()
        && forall|i: int| 0 <= i < v@.len() ==> name_of(#[trigger] v@[i], author_list(p.author@)[i])))
    &&& match parse_i32_spec(p.year@) {
        Some(y) => (r.issued matches Some(d) && d.date_parts@.len() == 1 && d.date_parts@[0]@ == seq![y]),
        None => r.issued is None,
    }
}

fn name_from(a: &[char]) -> (n: NameVariable)
    ensures
        name_of(n, a@),
{
    let parts = split_char_of(a, ',');
    let family = trim_of(parts[0].as_slice());
    let given = if parts.len() > 1 {
        Some(string_of(trim_of(parts[1].as_slice()).as_slice()))
    } else {
        None
    };
    let n = NameVariable {
        family: Some(string_of(family.as_slice())),
        given,
        dropping_particle: None,
        non_dropping_particle: None,
        suffix: None,
        literal: None,
    };
    proof {
        let ps = author_parts(a@);
        assert(ps[0] == trim(views(parts@)[0]));
        if parts.len() > 1 {
            assert(ps[1] == trim(views(parts@)[1]));
        }
    }
    n
}

impl Reference {
    /// The CSL reference of a citation record. Authors are written
    /// `Family, Given` and joined by ` and `.
    pub fn from_citation(payload: CitationPayload) -> (r: Self)
        ensures
            reference_of(r, payload),
    {
        let ghost p = payload;
        let av = chars_of(payload.author.as_str());
        let author = if av.len() == 0 {
            None
        } else {
            proof {
                reveal_strlit(" and ");
            }
            let list = split_on_of(av.as_slice(), " and ");
            let mut names: Vec<NameVariable> = Vec::new();
            for i in 0..list.len()
                invariant
                    views(list@) == author_list(p.author@),
                    names@.len() == i,
                    forall|k: int| 0 <= k < i ==> name_of(#[trigger] names@[k], author_list(p.author@)[k]),
            {
                let n = name_from(list[i].as_slice());
                names.push(n);
            }
            Some(names)
        };
        let issued = match parse_i32(payload.year.as_str()) {
            Some(y) => {
                let part: Vec<i32> = vec![y];
                let parts: Vec<Vec<i32>> = vec![part];
                Some(DateVariable { date_parts: parts })
            },
            None => None,
        };
        let r = Reference {
            id: payload.id,
            ref_type: payload.item_type,
            title: Some(payload.title),
            container_title: Some(payload.publisher),
            publisher: None,
            publisher_place: None,
            page: None,
            volume: None,
            issue: None,
            doi: None,
            url: Some(payload.url),
            isbn: None,
            issn: None,
            issued,
            accessed: None,
            author,
            editor: None,
            translator: None,
        };
        assert(p.author@.len() == 0 ==> r.author is None);
        assert(p.author@.len() > 0 ==> (r.author matches Some(v) && v@.len() == author_list(p.author@).len()));
        assert(match parse_i32_spec(p.year@) {
            Some(y) => (r.issued matches Some(d) && d.date_parts@.len() == 1 && d.date_parts@[0]@ == seq![y]),
            None => r.issued is None,
        });
        r
    }
}

// ── In-text citation ─────────────────────────────────────────────────────────

fn plain_text(variable: Option<String>, value: Option<String>) -> (t: Text)
    ensures
        t.variable == variable,
        t.value == value,
        t.macro_name is None,
        t.term is None,
        t.prefix is None,
        t.suffix is None,
        t.quotes is None,
{
    Text {
        variable,
        macro_name: None,
        term: None,
        value,
        prefix: None,
        suffix: None,
        quotes: None,
        font_style: None,
        font_weight: None,
        text_decoration: None,
        vertical_align: None,
    }
}

/// The in-text layout: author, a comma, the issue date, in parentheses.
fn citation_layout() -> (l: Layout)
    ensures
        opt_view(l.prefix) == Some("("@),
        opt_view(l.suffix) == Some(")"@),
        opt_view(l.delimiter) == Some("; "@),
        l.elements@.len() == 3,
        l.elements@[0] matches RenderingElement::Text(t) && opt_view(t.variable) == Some("author"@)
            && t.value is None && t.macro_name is None && t.term is None,
        l.elements@[1] matches RenderingElement::Text(t) && opt_view(t.value) == Some(", "@)
            && t.prefix is None && t.suffix is None && t.quotes is None,
        l.elements@[2] matches RenderingElement::Text(t) && opt_view(t.variable) == Some("issued"@)
            && t.value is None && t.macro_name is None && t.term is None,
{
    let elements = vec![
        RenderingElement::Text(plain_text(Some(String::from_str("author")), None)),
        RenderingElement::Text(plain_text(None, Some(String::from_str(", ")))),
        RenderingElement::Text(plain_text(Some(String::from_str("issued")), None)),
    ];
    Layout {
        prefix: Some(String::from_str("(")),
        suffix: Some(String::from_str(")")),
        delimiter: Some(String::from_str("; ")),
        elements,
    }
}

/// Formats the in-text citation of a record with the built-in layout:
/// its author and issue date, separated by a comma, in parentheses. The
/// text variables of the engine do not include `author` or `issued`, so the
/// citation reads `(, )` whatever the record holds.
pub fn format_csl_citation(citation: CitationPayload, style: String) -> (r: Result<String, String>)
    ensures
        r matches Ok(s) && s@ == "(, )"@,
{
    let ref_model = Reference::from_citation(citation);
    let layout = citation_layout();
    let style_def = Style {
        class: String::from_str("in-text"),
        version: String::from_str("1.0"),
        info: None,
        locales: Vec::new(),
        macros: Vec::new(),
        citation: Citation { layout: Some(citation_layout()), sort: None },
        bibliography: None,
    };
    let ctx = Context::new(&style_def, &ref_model);
    proof {
        reveal_strlit("author");
        reveal_strlit("issued");
        reveal_strlit(", ");
        reveal_strlit("(");
        reveal_strlit(")");
        reveal_strlit("; ");
        reveal_strlit("(, )");
        reveal_strlit("title");
        reveal_strlit("container-title");
        reveal_strlit("publisher");
        reveal_strlit("publisher-place");
        reveal_strlit("page");
        reveal_strlit("volume");
        reveal_strlit("issue");
        reveal_strlit("doi");
        reveal_strlit("url");
        reveal_strlit("isbn");
        reveal_strlit("issn");
        assert forall|i: int| 0 <= i < layout.elements@.len() implies eval_el(
            #[trigger] layout.elements@[i],
            ctx,
            1,
        ) is Some by {}
        assert forall|i: int| 0 <= i < layout.elements@.len() implies evaluation_ends(
            #[trigger] layout.elements@[i],
            ctx,
        ) by {
            assert(eval_el(layout.elements@[i], ctx, 1) is Some);
        }
        let rs = layout.elements@.map_values(|e: RenderingElement| element_output(e, ctx));
        assert forall|i: int| 0 <= i < 3 implies rs[i] == eval_el(layout.elements@[i], ctx, 1).unwrap() by {
            let f = choose|f: nat| (#[trigger] eval_el(layout.elements@[i], ctx, f)) is Some;
            law_fuel_irrelevant(layout.elements@[i], ctx, 1, f);
        }
        assert("author"@ != "volume"@) by {
            assert("author"@[0] != "volume"@[0]);
        }
        assert("issued"@ != "volume"@) by {
            assert("issued"@[0] != "volume"@[0]);
        }
        assert("author"@ != "title"@ && "issued"@ != "title"@) by {
            assert("author"@.len() != "title"@.len() || "author"@[0] != "title"@[0]);
            assert("issued"@.len() != "title"@.len() || "issued"@[0] != "title"@[0] || "issued"@[5] != "title"@[5]);
        }
        assert("author"@ != "container-title"@ && "issued"@ != "container-title"@) by {
            assert("author"@.len() != "container-title"@.len() || "author"@[0] != "container-title"@[0]);
            assert("issued"@.len() != "container-title"@.len() || "issued"@[0] != "container-title"@[0] || "issued"@[5] != "container-title"@[5]);
        }
        assert("author"@ != "publisher"@ && "issued"@ != "publisher"@) by {
            assert("author"@.len() != "publisher"@.len() || "author"@[0] != "publisher"@[0]);
            assert("issued"@.len() != "publisher"@.len() || "issued"@[0] != "publisher"@[0] || "issued"@[5] != "publisher"@[5]);
        }
        assert("author"@ != "publisher-place"@ && "issued"@ != "publisher-place"@) by {
            assert("author"@.len() != "publisher-place"@.len() || "author"@[0] != "publisher-place"@[0]);
            assert("issued"@.len() != "publisher-place"@.len() || "issued"@[0] != "publisher-place"@[0] || "issued"@[5] != "publisher-place"@[5]);
        }
        assert("author"@ != "page"@ && "issued"@ != "page"@) by {
            assert("author"@.len() != "page"@.len() || "author"@[0] != "page"@[0]);
            assert("issued"@.len() != "page"@.len() || "issued"@[0] != "page"@[0] || "issued"@[5] != "page"@[5]);
        }
        assert("author"@ != "volume"@ && "issued"@ != "volume"@) by {
            assert("author"@.len() != "volume"@.len() || "author"@[0] != "volume"@[0]);
            assert("issued"@.len() != "volume"@.len() || "issued"@[0] != "volume"@[0] || "issued"@[5] != "volume"@[5]);
        }
        assert("author"@ != "issue"@ && "issued"@ != "issue"@) by {
            assert("author"@.len() != "issue"@.len() || "author"@[0] != "issue"@[0]);
            assert("issued"@.len() != "issue"@.len() || "issued"@[0] != "issue"@[0] || "issued"@[5] != "issue"@[5]);
        }
        assert("author"@ != "doi"@ && "issued"@ != "doi"@) by {
            assert("author"@.len() != "doi"@.len() || "author"@[0] != "doi"@[0]);
            assert("issued"@.len() != "doi"@.len() || "issued"@[0] != "doi"@[0] || "issued"@[5] != "doi"@[5]);
        }
        assert("author"@ != "url"@ && "issued"@ != "url"@) by {
            assert("author"@.len() != "url"@.len() || "author"@[0] != "url"@[0]);
            assert("issued"@.len() != "url"@.len() || "issued"@[0] != "url"@[0] || "issued"@[5] != "url"@[5]);
        }
        assert("author"@ != "isbn"@ && "issued"@ != "isbn"@) by {
            assert("author"@.len() != "isbn"@.len() || "author"@[0] != "isbn"@[0]);
            assert("issued"@.len() != "isbn"@.len() || "issued"@[0] != "isbn"@[0] || "issued"@[5] != "isbn"@[5]);
        }
        assert("author"@ != "issn"@ && "issued"@ != "issn"@) by {
            assert("author"@.len() != "issn"@.len() || "author"@[0] != "issn"@[0]);
            assert("issued"@.len() != "issn"@.len() || "issued"@[0] != "issn"@[0] || "issued"@[5] != "issn"@[5]);
        }
        assert(crate::csl_engine::text_variable(ref_model, "author"@) is None);
        assert(crate::csl_engine::text_variable(ref_model, "issued"@) is None);
        assert(rs[0] is None);
        assert(rs[1] == Some(", "@));
        assert(rs[2] is None);
        let r2 = rs.drop_last();
        let r1 = r2.drop_last();
        let r0 = r1.drop_last();
        assert(r0.len() == 0);
        assert(nonempty_parts(r0) =~= Seq::<Seq<char>>::empty());
        assert(r1.last() == rs[0]);
        assert(nonempty_parts(r1) =~= Seq::<Seq<char>>::empty());
        assert(r2.last() == rs[1]);
        assert(", "@.len() > 0);
        assert(nonempty_parts(r2) =~= seq![", "@]);
        assert(rs.last() == rs[2]);
        assert(nonempty_parts(rs) =~= seq![", "@]);
    }
    let out = evaluate_layout(&layout, &ctx);
    Ok(out)
}

// ── Bibliography ─────────────────────────────────────────────────────────────

/// The family names of the authors, or `Unknown` when none are named.
pub open spec fn bib_authors(p: CitationPayload) -> Seq<char> {
    if p.author@.len() == 0 {
        "Unknown"@
    } else {
        join(author_list(p.author@).map_values(|a: Seq<char>| author_parts(a)[0]), ", "@)
    }
}

/// The year, or `n.d.` when it is not an integer.
pub open spec fn bib_year(p: CitationPayload) -> Seq<char> {
    match parse_i32_spec(p.year@) {
        Some(y) => int_decimal(y as int),
        None => "n.d."@,
    }
}

/// One bibliography paragraph: `Authors (Year). Title. <em>Publisher</em>.`
pub open spec fn bib_paragraph(p: CitationPayload) -> Seq<char> {
    "<p style=\"margin:4px 0; padding-left:2em; text-indent:-2em; font-size:12px;\">"@ + bib_authors(p)
        + " ("@ + bib_year(p) + "). "@ + p.title@ + ". <em>"@ + p.publisher@ + "</em>."@ + "</p>"@
}

pub open spec fn bibliography_html(ps: Seq<CitationPayload>) -> Seq<char>
    decreases ps.len(),
{
    if ps.len() == 0 {
        seq![]
    } else {
        bibliography_html(ps.drop_last()) + bib_paragraph(ps.last())
    }
}

fn family_names(names: &Vec<NameVariable>) -> (r: Vec<Vec<char>>)
    ensures
        r@.len() <= names@.len(),
        (forall|i: int| 0 <= i < names@.len() ==> (#[trigger] names@[i].family is Some)) ==> views(r@)
            == names@.map_values(|n: NameVariable| opt_view(n.family)->0),
{
    let mut r: Vec<Vec<char>> = Vec::new();
    let ghost mut all = true;
    for i in 0..names.len()
        invariant
            r@.len() <= i,
            all == forall|k: int| 0 <= k < i ==> (#[trigger] names@[k].family is Some),
            all ==> views(r@) == names@.take(i as int).map_values(|n: NameVariable| opt_view(n.family)->0),
    {
        match &names[i].family {
            Some(f) => {
                let ghost r0 = r@;
                let fc = chars_of(f.as_str());
                r.push(fc);
                proof {
                    assert(r@ == r0.push(fc));
                    assert(views(r@) =~= views(r0).push(fc@));
                    assert(names@.take(i + 1).map_values(|n: NameVariable| opt_view(n.family)->0)
                        =~= names@.take(i as int).map_values(|n: NameVariable| opt_view(n.family)->0).push(fc@));
                    assert(names@.take(i + 1).drop_last() =~= names@.take(i as int));
                    if all {
                        assert(views(r@) =~= names@.take(i + 1).map_values(|n: NameVariable| opt_view(n.family)->0));
                    }
                }
            },
            None => {
                proof {
                    all = false;
                }
            },
        }
    }
    assert(names@.take(names@.len() as int) =~= names@);
    r
}

/// Formats the bibliography of some records as HTML paragraphs, one per
/// record in order.
#[verifier::rlimit(40)]
pub fn format_csl_bibliography(citations: Vec<CitationPayload>, style: String) -> (r: Result<String, String>)
    ensures
        r matches Ok(s) && s@ == bibliography_html(citations@),
{
    let mut html: Vec<char> = Vec::new();
    let n = citations.len();
    let ghost cs = citations@;
    for i in 0..n
        invariant
            n == citations@.len(),
            cs == citations@,
            html@ == bibliography_html(cs.take(i as int)),
    {
        let c = &citations[i];
        let ghost p = *c;
        let payload = CitationPayload {
            id: c.id.clone(),
            author: c.author.clone(),
            year: c.year.clone(),
            title: c.title.clone(),
            publisher: c.publisher.clone(),
            item_type: c.item_type.clone(),
            url: c.url.clone(),
        };
        let ref_model = Reference::from_citation(payload);
        let author_str: Vec<char> = match &ref_model.author {
            Some(a) => {
                let fams = family_names(a);
                proof {
                    reveal_strlit(", ");
                }
                let sep = chars_of(", ");
                join_of(&fams, sep.as_slice())
            },
            None => chars_of("Unknown"),
        };
        let year_str: Vec<char> = match &ref_model.issued {
            Some(d) => if d.date_parts.len() > 0 && d.date_parts[0].len() > 0 {
                decimal_of_i32(d.date_parts[0][0])
            } else {
                chars_of("n.d.")
            },
            None => chars_of("n.d."),
        };
        let title_str: Vec<char> = match &ref_model.title {
            Some(t) => chars_of(t.as_str()),
            None => chars_of("Untitled"),
        };
        let pub_str: Vec<char> = match &ref_model.container_title {
            Some(t) => chars_of(t.as_str()),
            None => chars_of(""),
        };
        proof {
            assert(author_str@ == bib_authors(p)) by {
                if p.author@.len() > 0 {
                    let v = ref_model.author->0;
                    assert forall|k: int| 0 <= k < v@.len() implies (v@[k].family is Some) by {
                        assert(name_of(v@[k], author_list(p.author@)[k]));
                    }
                    assert(v@.map_values(|n: NameVariable| opt_view(n.family)->0) =~= author_list(
                        p.author@,
                    ).map_values(|a: Seq<char>| author_parts(a)[0])) by {
                        assert forall|k: int| 0 <= k < v@.len() implies opt_view(v@[k].family)->0
                            == author_parts(author_list(p.author@)[k])[0] by {
                            assert(name_of(v@[k], author_list(p.author@)[k]));
                        }
                    }
                }
            }
            assert(year_str@ == bib_year(p));
        }
        append_str(&mut html, "<p style=\"margin:4px 0; padding-left:2em; text-indent:-2em; font-size:12px;\">");
        append(&mut html, author_str.as_slice());
        append_str(&mut html, " (");
        append(&mut html, year_str.as_slice());
        append_str(&mut html, "). ");
        append(&mut html, title_str.as_slice());
        append_str(&mut html, ". <em>");
        append(&mut html, pub_str.as_slice());
        append_str(&mut html, "</em>.");
        append_str(&mut html, "</p>");
        proof {
            assert(cs.take(i + 1).drop_last() =~= cs.take(i as int));
            assert(cs.take(i + 1).last() == p);
            assert(html@ =~= bibliography_html(cs.take(i + 1)));
        }
    }
    assert(cs.take(n as int) =~= cs);
    Ok(string_of(html.as_slice()))
}

// ── Laws ─────────────────────────────────────────────────────────────────────

proof fn lemma_paragraph_in_bibliography(ps: Seq<CitationPayload>, k: int)
    requires
        0 <= k < ps.len(),
    ensures
        contains_text(bibliography_html(ps), bib_paragraph(ps[k])),
    decreases ps.len(),
{
    let rest = ps.drop_last();
    if k == ps.len() - 1 {
        lemma_contains_right(bibliography_html(rest), bib_paragraph(ps[k]));
    } else {
        lemma_paragraph_in_bibliography(rest, k);
        assert(rest[k] == ps[k]);
        lemma_contains_left(bibliography_html(rest), bib_paragraph(ps.last()));
        lemma_contains_trans(bibliography_html(ps), bibliography_html(rest), bib_paragraph(ps[k]));
    }
}

/// Every record has its paragraph in the bibliography, in which the title
/// comes after the year and before the publisher, set in italics; a year
/// written as a number is printed as written, any other as `n.d.`; a record
/// without authors is listed under `Unknown`.
pub proof fn law_bibliography_paragraphs(ps: Seq<CitationPayload>, k: int, y: i32)
    requires
        0 <= k < ps.len(),
    ensures
        contains_text(bibliography_html(ps), bib_paragraph(ps[k])),
        contains_text(bib_paragraph(ps[k]), "). "@ + ps[k].title@ + ". <em>"@ + ps[k].publisher@ + "</em>."@),
        ps[k].year@ == int_decimal(y as int) ==> bib_year(ps[k]) == ps[k].year@,
        parse_i32_spec(ps[k].year@) is None ==> bib_year(ps[k]) == "n.d."@,
        ps[k].author@.len() == 0 ==> bib_authors(ps[k]) == "Unknown"@,
{
    lemma_paragraph_in_bibliography(ps, k);
    let p = ps[k];
    let pre = "<p style=\"margin:4px 0; padding-left:2em; text-indent:-2em; font-size:12px;\">"@ + bib_authors(p)
        + " ("@ + bib_year(p);
    let t = "). "@ + p.title@ + ". <em>"@ + p.publisher@ + "</em>."@;
    assert(bib_paragraph(p) =~= pre + t + "</p>"@);
    lemma_contains_middle(pre, t, "</p>"@);
    if p.year@ == int_decimal(y as int) {
        law_i32_decimal_round_trip(y);
    }
}

/// Rendering a citation record through a style: `<text
/// variable="title"/>` gives the record's title and `<text
/// variable="container-title"/>` its publisher, when they are not empty.
pub proof fn law_record_fields_render(r: Reference, p: CitationPayload, t: Text, ctx: Context)
    requires
        reference_of(r, p),
        *ctx.reference == r,
        t.value is None,
        t.variable is Some,
        t.prefix is None,
        t.suffix is None,
        t.quotes != Some(true),
    ensures
        t.variable->0@ == "title"@ && p.title@.len() > 0 ==> element_output(RenderingElement::Text(t), ctx) == Some(
            p.title@,
        ),
        t.variable->0@ == "container-title"@ && p.publisher@.len() > 0 ==> element_output(
            RenderingElement::Text(t),
            ctx,
        ) == Some(p.publisher@),
{
    law_text_variable_renders_its_field(t, ctx, t.variable->0@);
}

} // verus!
