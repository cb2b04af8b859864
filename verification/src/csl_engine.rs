//! Evaluation of CSL rendering elements against one reference.
//!
//! A `<text macro="..">` node evaluates the macro's elements, which may name
//! further macros, so evaluation need not end. The specification therefore
//! evaluates with a step budget (`fuel`): `eval_el` is `None` when the budget
//! runs out and `Some(output)` otherwise. An element whose evaluation ends is
//! one for which some budget suffices, and its output does not depend on
//! which one (see `law_fuel_irrelevant`).

use vstd::prelude::*;
use crate::attributes::opt_view;
use crate::csl::{
    Choose, DateDef, Group, IfBlock, Layout, NameVariable, Names, Reference, RenderingElement, Style,
    Text,
};
use crate::text::{
    append, append_str, chars_of, int_decimal, join, join_of, seq_eq, string_of, views,
    zero_pad2, decimal_of_i32, zero_pad2_of,
};

verus! {

/// The evaluation context: the style, the reference being formatted and the
/// style's macros by name.
pub struct Context<'a> {
    pub style: &'a Style,
    pub reference: &'a Reference,
    /// Each macro of the style, in the style's order; a later macro of the
    /// same name shadows an earlier one.
    pub macros: Vec<(String, &'a Vec<RenderingElement>)>,
}

// ── Specification ────────────────────────────────────────────────────────────

/// The characters of an optional string, empty when absent.
pub open spec fn or_empty(o: Option<String>) -> Seq<char> {
    match o {
        Some(s) => s@,
        None => seq![],
    }
}

pub open spec fn vopt(o: Option<Vec<char>>) -> Option<Seq<char>> {
    match o {
        Some(v) => Some(v@),
        None => None,
    }
}

pub open spec fn vopts(s: Seq<Option<Vec<char>>>) -> Seq<Option<Seq<char>>> {
    s.map_values(|o: Option<Vec<char>>| vopt(o))
}

/// The elements of the last macro named `name`.
pub open spec fn lookup_macro(
    ms: Seq<(String, &Vec<RenderingElement>)>,
    name: Seq<char>,
) -> Option<Seq<RenderingElement>>
    decreases ms.len(),
{
    if ms.len() == 0 {
        None
    } else if ms.last().0@ == name {
        Some(ms.last().1@)
    } else {
        lookup_macro(ms.drop_last(), name)
    }
}

/// The string variable `var` of `r`.
pub open spec fn text_variable(r: Reference, var: Seq<char>) -> Option<Seq<char>> {
    if var == "title"@ {
        opt_view(r.title)
    } else if var == "container-title"@ {
        opt_view(r.container_title)
    } else if var == "publisher"@ {
        opt_view(r.publisher)
    } else if var == "publisher-place"@ {
        opt_view(r.publisher_place)
    } else if var == "page"@ {
        opt_view(r.page)
    } else if var == "volume"@ {
        opt_view(r.volume)
    } else if var == "issue"@ {
        opt_view(r.issue)
    } else if var == "doi"@ {
        opt_view(r.doi)
    } else if var == "url"@ {
        opt_view(r.url)
    } else if var == "isbn"@ {
        opt_view(r.isbn)
    } else if var == "issn"@ {
        opt_view(r.issn)
    } else {
        None
    }
}

/// `year[-MM[-DD]]` from the parts of a date.
pub open spec fn date_text(parts: Seq<i32>) -> Seq<char> {
    let year = if parts.len() > 0 {
        int_decimal(parts[0] as int)
    } else {
        seq![]
    };
    let month = if parts.len() > 1 {
        seq!['-'] + zero_pad2(parts[1] as int)
    } else {
        seq![]
    };
    let day = if parts.len() > 2 {
        seq!['-'] + zero_pad2(parts[2] as int)
    } else {
        seq![]
    };
    year + month + day
}

/// What a `<date>` element renders: the first date of `issued` or `accessed`.
pub open spec fn date_output(d: DateDef, r: Reference) -> Option<Seq<char>> {
    let dv = if d.variable@ == "issued"@ {
        r.issued
    } else if d.variable@ == "accessed"@ {
        r.accessed
    } else {
        None
    };
    match dv {
        Some(v) => if v.date_parts@.len() > 0 {
            Some(date_text(v.date_parts@[0]@))
        } else {
            None
        },
        None => None,
    }
}

/// One name as `<names>` renders it: a literal, `Family, G.`, or the
/// family and given names run together.
pub open spec fn name_text(n: NameVariable) -> Seq<char> {
    let family = or_empty(n.family);
    let given = or_empty(n.given);
    let literal = or_empty(n.literal);
    if literal.len() > 0 {
        literal
    } else if family.len() > 0 && given.len() > 0 {
        family + ", "@ + seq![given[0]] + "."@
    } else {
        family + given
    }
}

pub open spec fn name_list(r: Reference, var: Seq<char>) -> Option<Vec<NameVariable>> {
    if var == "author"@ {
        r.author
    } else if var == "editor"@ {
        r.editor
    } else if var == "translator"@ {
        r.translator
    } else {
        None
    }
}

pub open spec fn names_delimiter(names: Names) -> Seq<char> {
    match names.name {
        Some(n) => match n.delimiter {
            Some(d) => d@,
            None => ", "@,
        },
        None => ", "@,
    }
}

pub open spec fn and_symbol(names: Names) -> Seq<char> {
    match names.name {
        Some(n) => match n.and {
            Some(a) => if a@ == "symbol"@ {
                " & "@
            } else {
                " and "@
            },
            None => " "@,
        },
        None => " "@,
    }
}

/// What a `<names>` element renders.
pub open spec fn names_output(names: Names, r: Reference) -> Option<Seq<char>> {
    match name_list(r, names.variable@) {
        Some(v) => if v@.len() == 0 {
            None
        } else {
            let texts = v@.map_values(|n: NameVariable| name_text(n));
            if texts.len() > 1 {
                Some(join(texts.drop_last(), names_delimiter(names)) + and_symbol(names) + texts.last())
            } else {
                Some(texts[0])
            }
        },
        None => None,
    }
}

/// Prefix, the content (in double quotes when asked for) and suffix, unless
/// the content is empty.
pub open spec fn styled_text(t: Text, c: Seq<char>) -> Option<Seq<char>> {
    if c.len() == 0 {
        None
    } else {
        let body = if t.quotes == Some(true) {
            seq!['"'] + c + seq!['"']
        } else {
            c
        };
        Some(or_empty(t.prefix) + body + or_empty(t.suffix))
    }
}

/// The rendered outputs that are present and non-empty, in order.
pub open spec fn nonempty_parts(rs: Seq<Option<Seq<char>>>) -> Seq<Seq<char>>
    decreases rs.len(),
{
    if rs.len() == 0 {
        seq![]
    } else {
        let rest = nonempty_parts(rs.drop_last());
        match rs.last() {
            Some(s) => if s.len() > 0 {
                rest.push(s)
            } else {
                rest
            },
            None => rest,
        }
    }
}

/// The rendered outputs that are present, run together.
pub open spec fn concat_some(rs: Seq<Option<Seq<char>>>) -> Seq<char>
    decreases rs.len(),
{
    if rs.len() == 0 {
        seq![]
    } else {
        concat_some(rs.drop_last()) + match rs.last() {
            Some(s) => s,
            None => seq![],
        }
    }
}

/// Whether `var` is present on `r`, as `<if variable="..">` tests it.
pub open spec fn variable_present(r: Reference, var: Seq<char>) -> bool {
    if var == "title"@ {
        r.title is Some
    } else if var == "container-title"@ {
        r.container_title is Some
    } else if var == "publisher"@ {
        r.publisher is Some
    } else if var == "issued"@ {
        r.issued is Some
    } else if var == "author"@ {
        r.author is Some
    } else if var == "editor"@ {
        r.editor is Some
    } else {
        false
    }
}

pub open spec fn negated(ib: IfBlock) -> bool {
    match ib.match_condition {
        Some(m) => m@ == "none"@,
        None => false,
    }
}

/// Whether an `<if>` block applies to `r`: its variable test if it has one,
/// else its type test, inverted under `match="none"`.
pub open spec fn condition_holds(ib: IfBlock, r: Reference) -> bool {
    match ib.variable_match {
        Some(var) => variable_present(r, var@) != negated(ib),
        None => match ib.type_match {
            Some(t) => (r.ref_type@ == t@) != negated(ib),
            None => false,
        },
    }
}

/// The elements of the first block of `bs` that applies.
pub open spec fn first_chosen(bs: Seq<IfBlock>, r: Reference) -> Option<Seq<RenderingElement>>
    decreases bs.len(),
{
    if bs.len() == 0 {
        None
    } else if condition_holds(bs[0], r) {
        Some(bs[0].elements@)
    } else {
        first_chosen(bs.drop_first(), r)
    }
}

/// The branch a `<choose>` takes: the first applicable `if`, then the first
/// applicable `else-if`, then `else`.
pub open spec fn chosen_branch(c: Choose, r: Reference) -> Option<Seq<RenderingElement>> {
    match first_chosen(c.if_block@, r) {
        Some(e) => Some(e),
        None => match first_chosen(c.else_if_block@, r) {
            Some(e) => Some(e),
            None => match c.else_block {
                Some(b) => Some(b.elements@),
                None => None,
            },
        },
    }
}

/// Evaluation of one element within `fuel` steps.
pub open spec fn eval_el(el: RenderingElement, ctx: Context, fuel: nat) -> Option<Option<Seq<char>>>
    decreases fuel, 0nat, 0nat,
{
    if fuel == 0 {
        None
    } else {
        let f = (fuel - 1) as nat;
        match el {
            RenderingElement::Text(t) => eval_text(t, ctx, f),
            RenderingElement::Date(d) => Some(date_output(d, *ctx.reference)),
            RenderingElement::Number(_) => Some(Some("[Number]"@)),
            RenderingElement::Names(n) => Some(names_output(n, *ctx.reference)),
            RenderingElement::Label(_) => Some(Some("[Label]"@)),
            RenderingElement::Group(g) => match eval_all(g.elements@, ctx, f) {
                Some(rs) => {
                    let parts = nonempty_parts(rs);
                    if parts.len() == 0 {
                        Some(None)
                    } else {
                        Some(Some(join(parts, or_empty(g.delimiter))))
                    }
                },
                None => None,
            },
            RenderingElement::Choose(c) => eval_choose(c, ctx, f),
        }
    }
}

/// Evaluation of each of `els` within `fuel` steps apiece.
pub open spec fn eval_all(els: Seq<RenderingElement>, ctx: Context, fuel: nat) -> Option<
    Seq<Option<Seq<char>>>,
>
    decreases fuel, 1nat, els.len(),
{
    if els.len() == 0 {
        Some(seq![])
    } else {
        match (eval_el(els[0], ctx, fuel), eval_all(els.drop_first(), ctx, fuel)) {
            (Some(r), Some(rs)) => Some(seq![r] + rs),
            _ => None,
        }
    }
}

/// Evaluation of a `<text>` node within `fuel` steps.
pub open spec fn eval_text(t: Text, ctx: Context, fuel: nat) -> Option<Option<Seq<char>>>
    decreases fuel, 2nat, 0nat,
{
    let content: Option<Option<Seq<char>>> = match t.value {
        Some(v) => Some(Some(v@)),
        None => match t.variable {
            Some(var) => Some(text_variable(*ctx.reference, var@)),
            None => match t.macro_name {
                Some(m) => match lookup_macro(ctx.macros@, m@) {
                    Some(els) => match eval_all(els, ctx, fuel) {
                        Some(rs) => Some(Some(concat_some(rs))),
                        None => None,
                    },
                    None => Some(None),
                },
                None => match t.term {
                    Some(term) => Some(Some("[term:"@ + term@ + "]"@)),
                    None => Some(None),
                },
            },
        },
    };
    match content {
        Some(Some(c)) => Some(styled_text(t, c)),
        Some(None) => Some(None),
        None => None,
    }
}

/// Evaluation of a `<choose>` node within `fuel` steps.
pub open spec fn eval_choose(c: Choose, ctx: Context, fuel: nat) -> Option<Option<Seq<char>>>
    decreases fuel, 2nat, 0nat,
{
    match chosen_branch(c, *ctx.reference) {
        Some(els) => match eval_all(els, ctx, fuel) {
            Some(rs) => Some(Some(concat_some(rs))),
            None => None,
        },
        None => Some(None),
    }
}

/// Whether evaluating `el` ends.
pub open spec fn evaluation_ends(el: RenderingElement, ctx: Context) -> bool {
    exists|f: nat| (#[trigger] eval_el(el, ctx, f)) is Some
}

/// What `evaluate_element` returns for an element whose evaluation ends.
pub open spec fn element_output(el: RenderingElement, ctx: Context) -> Option<Seq<char>> {
    eval_el(el, ctx, choose|f: nat| (#[trigger] eval_el(el, ctx, f)) is Some).unwrap()
}

/// What `evaluate_layout` returns.
pub open spec fn layout_output(layout: Layout, ctx: Context) -> Seq<char> {
    let rs = layout.elements@.map_values(|e: RenderingElement| element_output(e, ctx));
    or_empty(layout.prefix) + join(nonempty_parts(rs), or_empty(layout.delimiter)) + or_empty(
        layout.suffix,
    )
}

// ── Context ──────────────────────────────────────────────────────────────────

impl<'a> Context<'a> {
    /// A context for formatting `reference` in `style`, with the style's
    /// macros in its table.
    pub fn new(style: &'a Style, reference: &'a Reference) -> (ctx: Self)
        ensures
            ctx.style == style,
            ctx.reference == reference,
            ctx.macros@.len() == style.macros@.len(),
            forall|i: int|
                0 <= i < style.macros@.len() ==> (#[trigger] ctx.macros@[i]).0@
                    == style.macros@[i].name@ && *ctx.macros@[i].1 == style.macros@[i].elements,
    {
        let mut macros: Vec<(String, &'a Vec<RenderingElement>)> = Vec::new();
        let n = style.macros.len();
        let mut i: usize = 0;
        while i < n
            invariant
                n == style.macros@.len(),
                i <= n,
                macros@.len() == i,
                forall|j: int|
                    0 <= j < i ==> (#[trigger] macros@[j]).0@ == style.macros@[j].name@
                        && *macros@[j].1 == style.macros@[j].elements,
            decreases n - i,
        {
            let m = &style.macros[i];
            macros.push((m.name.clone(), &m.elements));
            i += 1;
        }
        Context { style, reference, macros }
    }
}

fn find_macro<'a>(ms: &Vec<(String, &'a Vec<RenderingElement>)>, name: &[char]) -> (r: Option<
    &'a Vec<RenderingElement>,
>)
    ensures
        match r {
            Some(v) => lookup_macro(ms@, name@) == Some(v@),
            None => lookup_macro(ms@, name@) is None,
        },
{
    let mut i = ms.len();
    assert(ms@.take(i as int) =~= ms@);
    while i > 0
        invariant
            i <= ms@.len(),
            lookup_macro(ms@, name@) == lookup_macro(ms@.take(i as int), name@),
        decreases i,
    {
        let entry = &ms[i - 1];
        let nm = chars_of(entry.0.as_str());
        assert(ms@.take(i as int).last() == ms@[i - 1]);
        if seq_eq(nm.as_slice(), name) {
            return Some(entry.1);
        }
        assert(ms@.take(i as int).drop_last() =~= ms@.take(i - 1));
        i -= 1;
    }
    None
}

// ── Leaf elements ────────────────────────────────────────────────────────────

fn or_empty_of(o: &Option<String>) -> (r: Vec<char>)
    ensures
        r@ == or_empty(*o),
{
    match o {
        Some(s) => chars_of(s.as_str()),
        None => Vec::new(),
    }
}

fn opt_chars(o: &Option<String>) -> (r: Option<Vec<char>>)
    ensures
        vopt(r) == opt_view(*o),
{
    match o {
        Some(s) => Some(chars_of(s.as_str())),
        None => None,
    }
}

fn text_variable_of(r: &Reference, var: &[char]) -> (o: Option<Vec<char>>)
    ensures
        vopt(o) == text_variable(*r, var@),
{
    if crate::text::eq_str(var, "title") {
        opt_chars(&r.title)
    } else if crate::text::eq_str(var, "container-title") {
        opt_chars(&r.container_title)
    } else if crate::text::eq_str(var, "publisher") {
        opt_chars(&r.publisher)
    } else if crate::text::eq_str(var, "publisher-place") {
        opt_chars(&r.publisher_place)
    } else if crate::text::eq_str(var, "page") {
        opt_chars(&r.page)
    } else if crate::text::eq_str(var, "volume") {
        opt_chars(&r.volume)
    } else if crate::text::eq_str(var, "issue") {
        opt_chars(&r.issue)
    } else if crate::text::eq_str(var, "doi") {
        opt_chars(&r.doi)
    } else if crate::text::eq_str(var, "url") {
        opt_chars(&r.url)
    } else if crate::text::eq_str(var, "isbn") {
        opt_chars(&r.isbn)
    } else if crate::text::eq_str(var, "issn") {
        opt_chars(&r.issn)
    } else {
        None
    }
}

fn date_text_of(parts: &Vec<i32>) -> (r: Vec<char>)
    ensures
        r@ == date_text(parts@),
{
    let mut out: Vec<char> = if parts.len() > 0 {
        decimal_of_i32(parts[0])
    } else {
        Vec::new()
    };
    if parts.len() > 1 {
        out.push('-');
        let m = zero_pad2_of(parts[1]);
        append(&mut out, m.as_slice());
    }
    if parts.len() > 2 {
        out.push('-');
        let d = zero_pad2_of(parts[2]);
        append(&mut out, d.as_slice());
    }
    out
}

fn date_output_of(d: &DateDef, r: &Reference) -> (o: Option<Vec<char>>)
    ensures
        vopt(o) == date_output(*d, *r),
{
    let var = chars_of(d.variable.as_str());
    let dv = if crate::text::eq_str(var.as_slice(), "issued") {
        &r.issued
    } else if crate::text::eq_str(var.as_slice(), "accessed") {
        &r.accessed
    } else {
        return None;
    };
    match dv {
        Some(v) => {
            if v.date_parts.len() > 0 {
                Some(date_text_of(&v.date_parts[0]))
            } else {
                None
            }
        },
        None => None,
    }
}

fn name_text_of(n: &NameVariable) -> (r: Vec<char>)
    ensures
        r@ == name_text(*n),
{
    let family = or_empty_of(&n.family);
    let given = or_empty_of(&n.given);
    let literal = or_empty_of(&n.literal);
    if literal.len() > 0 {
        literal
    } else if family.len() > 0 && given.len() > 0 {
        let mut out = family;
        append_str(&mut out, ", ");
        out.push(given[0]);
        append_str(&mut out, ".");
        out
    } else {
        let mut out = family;
        append(&mut out, given.as_slice());
        out
    }
}

fn name_list_of<'b>(r: &'b Reference, var: &[char]) -> (o: Option<&'b Vec<NameVariable>>)
    ensures
        match o {
            Some(v) => name_list(*r, var@) == Some(*v),
            None => name_list(*r, var@) is None,
        },
{
    let list = if crate::text::eq_str(var, "author") {
        &r.author
    } else if crate::text::eq_str(var, "editor") {
        &r.editor
    } else if crate::text::eq_str(var, "translator") {
        &r.translator
    } else {
        return None;
    };
    match list {
        Some(v) => Some(v),
        None => None,
    }
}

fn names_output_of(names: &Names, r: &Reference) -> (o: Option<Vec<char>>)
    ensures
        vopt(o) == names_output(*names, *r),
{
    let var = chars_of(names.variable.as_str());
    match name_list_of(r, var.as_slice()) {
        None => None,
        Some(authors) => {
            if authors.len() == 0 {
                return None;
            }
            let ghost texts = authors@.map_values(|n: NameVariable| name_text(n));
            let mut formatted: Vec<Vec<char>> = Vec::new();
            let n = authors.len();
            let mut i: usize = 0;
            while i < n
                invariant
                    n == authors@.len(),
                    i <= n,
                    texts == authors@.map_values(|n: NameVariable| name_text(n)),
                    views(formatted@) =~= texts.take(i as int),
                decreases n - i,
            {
                let t = name_text_of(&authors[i]);
                let ghost before = formatted@;
                formatted.push(t);
                assert(views(formatted@) =~= views(before).push(t@));
                assert(texts[i as int] == name_text(authors@[i as int]));
                assert(texts.take(i + 1) =~= texts.take(i as int).push(texts[i as int]));
                i += 1;
            }
            assert(texts.take(n as int) =~= texts);
            let delimiter: Vec<char> = match &names.name {
                Some(nm) => match &nm.delimiter {
                    Some(d) => chars_of(d.as_str()),
                    None => chars_of(", "),
                },
                None => chars_of(", "),
            };
            if formatted.len() > 1 {
                let last = formatted.pop().unwrap();
                assert(views(formatted@) =~= texts.drop_last());
                let and_sym: Vec<char> = match &names.name {
                    Some(nm) => match &nm.and {
                        Some(a) => {
                            let av = chars_of(a.as_str());
                            if crate::text::eq_str(av.as_slice(), "symbol") {
                                chars_of(" & ")
                            } else {
                                chars_of(" and ")
                            }
                        },
                        None => chars_of(" "),
                    },
                    None => chars_of(" "),
                };
                let mut out = join_of(&formatted, delimiter.as_slice());
                append(&mut out, and_sym.as_slice());
                append(&mut out, last.as_slice());
                Some(out)
            } else {
                let first = crate::text::slice_of(formatted[0].as_slice(), 0, formatted[0].len());
                assert(first@ =~= texts[0]);
                Some(first)
            }
        },
    }
}

fn styled_text_of(t: &Text, c: &Vec<char>) -> (o: Option<Vec<char>>)
    ensures
        vopt(o) == styled_text(*t, c@),
{
    if c.len() == 0 {
        return None;
    }
    let mut out = or_empty_of(&t.prefix);
    let quoted = match t.quotes {
        Some(q) => q,
        None => false,
    };
    if quoted {
        out.push('"');
        append(&mut out, c.as_slice());
        out.push('"');
    } else {
        append(&mut out, c.as_slice());
    }
    let suffix = or_empty_of(&t.suffix);
    append(&mut out, suffix.as_slice());
    Some(out)
}

fn concat_some_of(rs: &Vec<Option<Vec<char>>>) -> (r: Vec<char>)
    ensures
        r@ == concat_some(vopts(rs@)),
{
    let mut out: Vec<char> = Vec::new();
    let n = rs.len();
    let mut i: usize = 0;
    while i < n
        invariant
            n == rs@.len(),
            i <= n,
            out@ == concat_some(vopts(rs@.take(i as int))),
        decreases n - i,
    {
        assert(vopts(rs@.take(i + 1)).drop_last() =~= vopts(rs@.take(i as int)));
        assert(vopts(rs@.take(i + 1)).last() == vopt(rs@[i as int]));
        match &rs[i] {
            Some(s) => append(&mut out, s.as_slice()),
            None => {},
        }
        i += 1;
    }
    assert(rs@.take(n as int) =~= rs@);
    out
}

fn nonempty_parts_of(rs: &Vec<Option<Vec<char>>>) -> (r: Vec<Vec<char>>)
    ensures
        views(r@) == nonempty_parts(vopts(rs@)),
{
    let mut out: Vec<Vec<char>> = Vec::new();
    let n = rs.len();
    let mut i: usize = 0;
    while i < n
        invariant
            n == rs@.len(),
            i <= n,
            views(out@) == nonempty_parts(vopts(rs@.take(i as int))),
        decreases n - i,
    {
        assert(vopts(rs@.take(i + 1)).drop_last() =~= vopts(rs@.take(i as int)));
        assert(vopts(rs@.take(i + 1)).last() == vopt(rs@[i as int]));
        match &rs[i] {
            Some(s) => {
                if s.len() > 0 {
                    let c = crate::text::slice_of(s.as_slice(), 0, s.len());
                    assert(c@ =~= s@);
                    let ghost before = out@;
                    out.push(c);
                    assert(views(out@) =~= views(before).push(s@));
                }
            },
            None => {},
        }
        i += 1;
    }
    assert(rs@.take(n as int) =~= rs@);
    out
}

// ── Conditions and branches ──────────────────────────────────────────────────

fn variable_present_of(r: &Reference, var: &[char]) -> (b: bool)
    ensures
        b == variable_present(*r, var@),
{
    if crate::text::eq_str(var, "title") {
        r.title.is_some()
    } else if crate::text::eq_str(var, "container-title") {
        r.container_title.is_some()
    } else if crate::text::eq_str(var, "publisher") {
        r.publisher.is_some()
    } else if crate::text::eq_str(var, "issued") {
        r.issued.is_some()
    } else if crate::text::eq_str(var, "author") {
        r.author.is_some()
    } else if crate::text::eq_str(var, "editor") {
        r.editor.is_some()
    } else {
        false
    }
}

fn negated_of(ib: &IfBlock) -> (b: bool)
    ensures
        b == negated(*ib),
{
    match &ib.match_condition {
        Some(m) => {
            let mv = chars_of(m.as_str());
            crate::text::eq_str(mv.as_slice(), "none")
        },
        None => false,
    }
}

/// Whether the `<if>` block `condition` applies to the context's reference.
fn evaluate_condition(condition: &IfBlock, ctx: &Context) -> (b: bool)
    ensures
        b == condition_holds(*condition, *ctx.reference),
{
    if let Some(var) = &condition.variable_match {
        let v = chars_of(var.as_str());
        let is_present = variable_present_of(ctx.reference, v.as_slice());
        return is_present != negated_of(condition);
    }
    if let Some(typ) = &condition.type_match {
        let a = chars_of(ctx.reference.ref_type.as_str());
        let b = chars_of(typ.as_str());
        let is_match = seq_eq(a.as_slice(), b.as_slice());
        return is_match != negated_of(condition);
    }
    false
}

fn first_chosen_of<'b>(bs: &'b Vec<IfBlock>, ctx: &Context) -> (o: Option<
    &'b Vec<RenderingElement>,
>)
    ensures
        match o {
            Some(v) => first_chosen(bs@, *ctx.reference) == Some(v@),
            None => first_chosen(bs@, *ctx.reference) is None,
        },
{
    let n = bs.len();
    let mut i: usize = 0;
    assert(bs@.skip(0) =~= bs@);
    while i < n
        invariant
            n == bs@.len(),
            i <= n,
            first_chosen(bs@, *ctx.reference) == first_chosen(bs@.skip(i as int), *ctx.reference),
        decreases n - i,
    {
        assert(bs@.skip(i as int)[0] == bs@[i as int]);
        assert(bs@.skip(i as int).drop_first() =~= bs@.skip(i + 1));
        if evaluate_condition(&bs[i], ctx) {
            return Some(&bs[i].elements);
        }
        i += 1;
    }
    None
}

fn chosen_branch_of<'b>(c: &'b Choose, ctx: &Context) -> (o: Option<&'b Vec<RenderingElement>>)
    ensures
        match o {
            Some(v) => chosen_branch(*c, *ctx.reference) == Some(v@),
            None => chosen_branch(*c, *ctx.reference) is None,
        },
{
    if let Some(e) = first_chosen_of(&c.if_block, ctx) {
        return Some(e);
    }
    if let Some(e) = first_chosen_of(&c.else_if_block, ctx) {
        return Some(e);
    }
    match &c.else_block {
        Some(b) => Some(&b.elements),
        None => None,
    }
}

// ── Evaluation ───────────────────────────────────────────────────────────────

fn evaluate_list(els: &Vec<RenderingElement>, ctx: &Context, Ghost(fuel): Ghost<nat>) -> (r: Vec<
    Option<Vec<char>>,
>)
    requires
        eval_all(els@, *ctx, fuel) is Some,
    ensures
        vopts(r@) == eval_all(els@, *ctx, fuel).unwrap(),
    decreases fuel, 1nat,
{
    let mut out: Vec<Option<Vec<char>>> = Vec::new();
    let n = els.len();
    let mut i: usize = 0;
    assert(els@.skip(0) =~= els@);
    while i < n
        invariant
            n == els@.len(),
            i <= n,
            eval_all(els@.skip(i as int), *ctx, fuel) is Some,
            eval_all(els@, *ctx, fuel).unwrap() == vopts(out@) + eval_all(
                els@.skip(i as int),
                *ctx,
                fuel,
            ).unwrap(),
        decreases n - i,
    {
        let ghost rest = els@.skip(i as int);
        assert(rest[0] == els@[i as int]);
        assert(rest.drop_first() =~= els@.skip(i + 1));
        let r = evaluate_element_within(&els[i], ctx, Ghost(fuel));
        let ghost before = out@;
        out.push(r);
        assert(vopts(out@) =~= vopts(before).push(vopt(r)));
        assert(vopts(before) + eval_all(rest, *ctx, fuel).unwrap() =~= vopts(out@) + eval_all(
            els@.skip(i + 1),
            *ctx,
            fuel,
        ).unwrap());
        i += 1;
    }
    assert(els@.skip(n as int) =~= Seq::<RenderingElement>::empty());
    assert(vopts(out@) + seq![] =~= vopts(out@));
    out
}

/// Evaluates a `<text>` node.
fn evaluate_text(text: &Text, ctx: &Context, Ghost(fuel): Ghost<nat>) -> (r: Option<Vec<char>>)
    requires
        eval_text(*text, *ctx, fuel) is Some,
    ensures
        vopt(r) == eval_text(*text, *ctx, fuel).unwrap(),
    decreases fuel, 2nat,
{
    let content: Option<Vec<char>> = if let Some(val) = &text.value {
        Some(chars_of(val.as_str()))
    } else if let Some(var) = &text.variable {
        let v = chars_of(var.as_str());
        text_variable_of(ctx.reference, v.as_slice())
    } else if let Some(mac_name) = &text.macro_name {
        let m = chars_of(mac_name.as_str());
        match find_macro(&ctx.macros, m.as_slice()) {
            Some(elements) => {
                let rs = evaluate_list(elements, ctx, Ghost(fuel));
                Some(concat_some_of(&rs))
            },
            None => None,
        }
    } else if let Some(term) = &text.term {
        let mut v = chars_of("[term:");
        append_str(&mut v, term.as_str());
        append_str(&mut v, "]");
        Some(v)
    } else {
        None
    };
    match content {
        Some(c) => styled_text_of(text, &c),
        None => None,
    }
}

fn evaluate_choose(choose: &Choose, ctx: &Context, Ghost(fuel): Ghost<nat>) -> (r: Option<
    Vec<char>,
>)
    requires
        eval_choose(*choose, *ctx, fuel) is Some,
    ensures
        vopt(r) == eval_choose(*choose, *ctx, fuel).unwrap(),
    decreases fuel, 2nat,
{
    match chosen_branch_of(choose, ctx) {
        Some(elements) => {
            let rs = evaluate_list(elements, ctx, Ghost(fuel));
            Some(concat_some_of(&rs))
        },
        None => None,
    }
}

fn evaluate_element_within(element: &RenderingElement, ctx: &Context, Ghost(fuel): Ghost<nat>) -> (r:
    Option<Vec<char>>)
    requires
        eval_el(*element, *ctx, fuel) is Some,
    ensures
        vopt(r) == eval_el(*element, *ctx, fuel).unwrap(),
    decreases fuel, 0nat,
{
    let ghost f = (fuel - 1) as nat;
    match element {
        RenderingElement::Text(text_node) => evaluate_text(text_node, ctx, Ghost(f)),
        RenderingElement::Date(date) => date_output_of(date, ctx.reference),
        RenderingElement::Number(_) => Some(chars_of("[Number]")),
        RenderingElement::Names(names) => names_output_of(names, ctx.reference),
        RenderingElement::Label(_) => Some(chars_of("[Label]")),
        RenderingElement::Group(group) => {
            let rs = evaluate_list(&group.elements, ctx, Ghost(f));
            let parts = nonempty_parts_of(&rs);
            if parts.len() == 0 {
                None
            } else {
                let delim = or_empty_of(&group.delimiter);
                Some(join_of(&parts, delim.as_slice()))
            }
        },
        RenderingElement::Choose(choose) => evaluate_choose(choose, ctx, Ghost(f)),
    }
}

/// Evaluates one rendering element for the context's reference: `None` when
/// it renders nothing.
pub fn evaluate_element(element: &RenderingElement, ctx: &Context) -> (r: Option<String>)
    requires
        evaluation_ends(*element, *ctx),
    ensures
        opt_view(r) == element_output(*element, *ctx),
{
    let ghost f = choose|f: nat| (#[trigger] eval_el(*element, *ctx, f)) is Some;
    let r = evaluate_element_within(element, ctx, Ghost(f));
    match r {
        Some(v) => Some(string_of(v.as_slice())),
        None => None,
    }
}

/// Evaluates a layout into a formatted string: the prefix, the non-empty
/// outputs of its elements joined by its delimiter, and the suffix.
pub fn evaluate_layout(layout: &Layout, ctx: &Context) -> (r: String)
    requires
        forall|i: int| 0 <= i < layout.elements@.len() ==> evaluation_ends(#[trigger] layout.elements@[i], *ctx),
    ensures
        r@ == layout_output(*layout, *ctx),
{
    let ghost rs_spec = layout.elements@.map_values(|e: RenderingElement| element_output(e, *ctx));
    let mut rendered: Vec<Option<Vec<char>>> = Vec::new();
    let n = layout.elements.len();
    let mut i: usize = 0;
    while i < n
        invariant
            n == layout.elements@.len(),
            i <= n,
            forall|j: int| 0 <= j < layout.elements@.len() ==> evaluation_ends(#[trigger] layout.elements@[j], *ctx),
            rs_spec == layout.elements@.map_values(|e: RenderingElement| element_output(e, *ctx)),
            vopts(rendered@) =~= rs_spec.take(i as int),
        decreases n - i,
    {
        let r = evaluate_element(&layout.elements[i], ctx);
        let ghost before = rendered@;
        let rv: Option<Vec<char>> = match r {
            Some(s) => Some(chars_of(s.as_str())),
            None => None,
        };
        rendered.push(rv);
        assert(vopts(rendered@) =~= vopts(before).push(vopt(rv)));
        i += 1;
    }
    assert(rs_spec.take(n as int) =~= rs_spec);
    let parts = nonempty_parts_of(&rendered);
    let mut out = or_empty_of(&layout.prefix);
    let delim = or_empty_of(&layout.delimiter);
    let body = join_of(&parts, delim.as_slice());
    append(&mut out, body.as_slice());
    let suffix = or_empty_of(&layout.suffix);
    append(&mut out, suffix.as_slice());
    string_of(out.as_slice())
}

// ── Budget independence ──────────────────────────────────────────────────────

proof fn lemma_el_more_fuel(el: RenderingElement, ctx: Context, f: nat, g: nat)
    requires
        f <= g,
        eval_el(el, ctx, f) is Some,
    ensures
        eval_el(el, ctx, g) == eval_el(el, ctx, f),
    decreases f, 0nat, 0nat,
{
    let f1 = (f - 1) as nat;
    let g1 = (g - 1) as nat;
    match el {
        RenderingElement::Text(t) => lemma_text_more_fuel(t, ctx, f1, g1),
        RenderingElement::Group(gr) => lemma_all_more_fuel(gr.elements@, ctx, f1, g1),
        RenderingElement::Choose(c) => lemma_choose_more_fuel(c, ctx, f1, g1),
        _ => {},
    }
}

proof fn lemma_all_more_fuel(els: Seq<RenderingElement>, ctx: Context, f: nat, g: nat)
    requires
        f <= g,
        eval_all(els, ctx, f) is Some,
    ensures
        eval_all(els, ctx, g) == eval_all(els, ctx, f),
    decreases f, 1nat, els.len(),
{
    if els.len() > 0 {
        lemma_el_more_fuel(els[0], ctx, f, g);
        lemma_all_more_fuel(els.drop_first(), ctx, f, g);
    }
}

proof fn lemma_text_more_fuel(t: Text, ctx: Context, f: nat, g: nat)
    requires
        f <= g,
        eval_text(t, ctx, f) is Some,
    ensures
        eval_text(t, ctx, g) == eval_text(t, ctx, f),
    decreases f, 2nat, 0nat,
{
    if t.value is None && t.variable is None {
        if let Some(m) = t.macro_name {
            if let Some(els) = lookup_macro(ctx.macros@, m@) {
                lemma_all_more_fuel(els, ctx, f, g);
            }
        }
    }
}

proof fn lemma_choose_more_fuel(c: Choose, ctx: Context, f: nat, g: nat)
    requires
        f <= g,
        eval_choose(c, ctx, f) is Some,
    ensures
        eval_choose(c, ctx, g) == eval_choose(c, ctx, f),
    decreases f, 2nat, 0nat,
{
    if let Some(els) = chosen_branch(c, *ctx.reference) {
        lemma_all_more_fuel(els, ctx, f, g);
    }
}

/// An element renders the same output under every evaluation budget that
/// suffices for it, so `element_output` does not depend on the budget chosen.
pub proof fn law_fuel_irrelevant(el: RenderingElement, ctx: Context, f1: nat, f2: nat)
    requires
        eval_el(el, ctx, f1) is Some,
        eval_el(el, ctx, f2) is Some,
    ensures
        eval_el(el, ctx, f1) == eval_el(el, ctx, f2),
        eval_el(el, ctx, f1).unwrap() == element_output(el, ctx),
{
    if f1 <= f2 {
        lemma_el_more_fuel(el, ctx, f1, f2);
    } else {
        lemma_el_more_fuel(el, ctx, f2, f1);
    }
    let c = choose|f: nat| (#[trigger] eval_el(el, ctx, f)) is Some;
    if f1 <= c {
        lemma_el_more_fuel(el, ctx, f1, c);
    } else {
        lemma_el_more_fuel(el, ctx, c, f1);
    }
}

// ── Evaluation within a budget ───────────────────────────────────────────────

pub open spec fn vopt2(o: Option<Option<Vec<char>>>) -> Option<Option<Seq<char>>> {
    match o {
        Some(x) => Some(vopt(x)),
        None => None,
    }
}

fn list_within(els: &Vec<RenderingElement>, ctx: &Context, fuel: u64) -> (r: Option<Vec<Option<Vec<char>>>>)
    ensures
        match r {
            Some(v) => eval_all(els@, *ctx, fuel as nat) == Some(vopts(v@)),
            None => eval_all(els@, *ctx, fuel as nat) is None,
        },
    decreases fuel, 1nat,
{
    let ghost f = fuel as nat;
    let mut out: Vec<Option<Vec<char>>> = Vec::new();
    let n = els.len();
    let mut i: usize = 0;
    assert(els@.skip(0) =~= els@);
    while i < n
        invariant
            n == els@.len(),
            i <= n,
            f == fuel as nat,
            eval_all(els@, *ctx, f) == match eval_all(els@.skip(i as int), *ctx, f) {
                Some(rs) => Some(vopts(out@) + rs),
                None => None,
            },
        decreases n - i,
    {
        let ghost rest = els@.skip(i as int);
        assert(rest[0] == els@[i as int]);
        assert(rest.drop_first() =~= els@.skip(i + 1));
        match element_within(&els[i], ctx, fuel) {
            Some(r) => {
                let ghost before = out@;
                out.push(r);
                proof {
                    assert(vopts(out@) =~= vopts(before).push(vopt(r)));
                    match eval_all(els@.skip(i + 1), *ctx, f) {
                        Some(rs) => {
                            assert(vopts(before) + (seq![vopt(r)] + rs) =~= vopts(out@) + rs);
                        },
                        None => {},
                    }
                }
                i += 1;
            },
            None => {
                return None;
            },
        }
    }
    assert(els@.skip(n as int) =~= Seq::<RenderingElement>::empty());
    assert(vopts(out@) + seq![] =~= vopts(out@));
    Some(out)
}

fn text_within(text: &Text, ctx: &Context, fuel: u64) -> (r: Option<Option<Vec<char>>>)
    ensures
        vopt2(r) == eval_text(*text, *ctx, fuel as nat),
    decreases fuel, 2nat,
{
    let content: Option<Option<Vec<char>>> = if let Some(val) = &text.value {
        Some(Some(chars_of(val.as_str())))
    } else if let Some(var) = &text.variable {
        let v = chars_of(var.as_str());
        Some(text_variable_of(ctx.reference, v.as_slice()))
    } else if let Some(mac_name) = &text.macro_name {
        let m = chars_of(mac_name.as_str());
        match find_macro(&ctx.macros, m.as_slice()) {
            Some(elements) => match list_within(elements, ctx, fuel) {
                Some(rs) => Some(Some(concat_some_of(&rs))),
                None => None,
            },
            None => Some(None),
        }
    } else if let Some(term) = &text.term {
        let mut v = chars_of("[term:");
        append_str(&mut v, term.as_str());
        append_str(&mut v, "]");
        Some(Some(v))
    } else {
        Some(None)
    };
    match content {
        Some(Some(c)) => Some(styled_text_of(text, &c)),
        Some(None) => Some(None),
        None => None,
    }
}

fn choose_within(choose: &Choose, ctx: &Context, fuel: u64) -> (r: Option<Option<Vec<char>>>)
    ensures
        vopt2(r) == eval_choose(*choose, *ctx, fuel as nat),
    decreases fuel, 2nat,
{
    match chosen_branch_of(choose, ctx) {
        Some(elements) => match list_within(elements, ctx, fuel) {
            Some(rs) => Some(Some(concat_some_of(&rs))),
            None => None,
        },
        None => Some(None),
    }
}

fn element_within(element: &RenderingElement, ctx: &Context, fuel: u64) -> (r: Option<Option<Vec<char>>>)
    ensures
        vopt2(r) == eval_el(*element, *ctx, fuel as nat),
    decreases fuel, 0nat,
{
    if fuel == 0 {
        return None;
    }
    let f = fuel - 1;
    match element {
        RenderingElement::Text(text_node) => text_within(text_node, ctx, f),
        RenderingElement::Date(date) => Some(date_output_of(date, ctx.reference)),
        RenderingElement::Number(_) => Some(Some(chars_of("[Number]"))),
        RenderingElement::Names(names) => Some(names_output_of(names, ctx.reference)),
        RenderingElement::Label(_) => Some(Some(chars_of("[Label]"))),
        RenderingElement::Group(group) => match list_within(&group.elements, ctx, f) {
            Some(rs) => {
                let parts = nonempty_parts_of(&rs);
                if parts.len() == 0 {
                    Some(None)
                } else {
                    let delim = or_empty_of(&group.delimiter);
                    Some(Some(join_of(&parts, delim.as_slice())))
                }
            },
            None => None,
        },
        RenderingElement::Choose(choose) => choose_within(choose, ctx, f),
    }
}

/// Evaluates one rendering element with at most `fuel` nested steps, for a
/// style loaded at run time whose macros may call themselves: `None` when
/// the budget does not suffice, else what `evaluate_element` gives, its
/// evaluation being then known to end.
pub fn evaluate_element_with_fuel(element: &RenderingElement, ctx: &Context, fuel: u64) -> (r: Option<
    Option<String>,
>)
    ensures
        match r {
            None => eval_el(*element, *ctx, fuel as nat) is None,
            Some(o) => evaluation_ends(*element, *ctx) && opt_view(o) == element_output(*element, *ctx),
        },
{
    match element_within(element, ctx, fuel) {
        None => None,
        Some(o) => {
            proof {
                law_fuel_irrelevant(*element, *ctx, fuel as nat, fuel as nat);
            }
            match o {
                Some(v) => Some(Some(string_of(v.as_slice()))),
                None => Some(None),
            }
        },
    }
}

// ── Groups and choices ───────────────────────────────────────────────────────

proof fn lemma_all_outputs(els: Seq<RenderingElement>, ctx: Context, f: nat)
    requires
        eval_all(els, ctx, f) is Some,
    ensures
        eval_all(els, ctx, f).unwrap() == els.map_values(|e: RenderingElement| element_output(e, ctx)),
        forall|i: int| 0 <= i < els.len() ==> evaluation_ends(#[trigger] els[i], ctx),
    decreases els.len(),
{
    if els.len() > 0 {
        lemma_all_outputs(els.drop_first(), ctx, f);
        law_fuel_irrelevant(els[0], ctx, f, f);
        assert(eval_all(els, ctx, f).unwrap() =~= els.map_values(|e: RenderingElement| element_output(e, ctx)));
        assert forall|i: int| 0 <= i < els.len() implies evaluation_ends(#[trigger] els[i], ctx) by {
            if i > 0 {
                assert(els[i] == els.drop_first()[i - 1]);
            }
        }
    }
}

/// A group renders the non-empty outputs of its children joined by its
/// delimiter, and nothing when no child renders anything.
pub proof fn law_group_output(g: Group, ctx: Context)
    requires
        evaluation_ends(RenderingElement::Group(g), ctx),
    ensures
        forall|i: int| 0 <= i < g.elements@.len() ==> evaluation_ends(#[trigger] g.elements@[i], ctx),
        element_output(RenderingElement::Group(g), ctx) == ({
            let parts = nonempty_parts(g.elements@.map_values(|e: RenderingElement| element_output(e, ctx)));
            if parts.len() == 0 {
                None
            } else {
                Some(join(parts, or_empty(g.delimiter)))
            }
        }),
{
    let el = RenderingElement::Group(g);
    let f = choose|f: nat| (#[trigger] eval_el(el, ctx, f)) is Some;
    law_fuel_irrelevant(el, ctx, f, f);
    lemma_all_outputs(g.elements@, ctx, (f - 1) as nat);
}

/// A choice renders the concatenated outputs of the first branch whose
/// condition holds (possibly the empty text), and nothing when no branch
/// applies.
pub proof fn law_choose_output(c: Choose, ctx: Context)
    requires
        evaluation_ends(RenderingElement::Choose(c), ctx),
    ensures
        element_output(RenderingElement::Choose(c), ctx) == match chosen_branch(c, *ctx.reference) {
            Some(els) => Some(concat_some(els.map_values(|e: RenderingElement| element_output(e, ctx)))),
            None => None,
        },
{
    let el = RenderingElement::Choose(c);
    let f = choose|f: nat| (#[trigger] eval_el(el, ctx, f)) is Some;
    law_fuel_irrelevant(el, ctx, f, f);
    if let Some(els) = chosen_branch(c, *ctx.reference) {
        lemma_all_outputs(els, ctx, (f - 1) as nat);
    }
}

/// The text of a string field that is present and not empty.
pub open spec fn present_text(o: Option<String>) -> Option<Seq<char>> {
    match o {
        Some(s) => if s@.len() > 0 {
            Some(s@)
        } else {
            None
        },
        None => None,
    }
}

/// A `<text variable="..."/>` with no value, prefix, suffix or quotes
/// renders exactly the reference's field of that name when it is present
/// and not empty, and nothing otherwise: `title` the title,
/// `container-title` the container title, and so on for the publisher,
/// place, page, volume, issue, DOI, URL, ISBN and ISSN.
pub proof fn law_text_variable_renders_its_field(t: Text, ctx: Context, var: Seq<char>)
    requires
        t.value is None,
        t.variable is Some,
        t.variable->0@ == var,
        t.prefix is None,
        t.suffix is None,
        t.quotes != Some(true),
    ensures
        evaluation_ends(RenderingElement::Text(t), ctx),
        var == "title"@ ==> element_output(RenderingElement::Text(t), ctx) == present_text(ctx.reference.title),
        var == "container-title"@ ==> element_output(RenderingElement::Text(t), ctx) == present_text(ctx.reference.container_title),
        var == "publisher"@ ==> element_output(RenderingElement::Text(t), ctx) == present_text(ctx.reference.publisher),
        var == "publisher-place"@ ==> element_output(RenderingElement::Text(t), ctx) == present_text(ctx.reference.publisher_place),
        var == "page"@ ==> element_output(RenderingElement::Text(t), ctx) == present_text(ctx.reference.page),
        var == "volume"@ ==> element_output(RenderingElement::Text(t), ctx) == present_text(ctx.reference.volume),
        var == "issue"@ ==> element_output(RenderingElement::Text(t), ctx) == present_text(ctx.reference.issue),
        var == "doi"@ ==> element_output(RenderingElement::Text(t), ctx) == present_text(ctx.reference.doi),
        var == "url"@ ==> element_output(RenderingElement::Text(t), ctx) == present_text(ctx.reference.url),
        var == "isbn"@ ==> element_output(RenderingElement::Text(t), ctx) == present_text(ctx.reference.isbn),
        var == "issn"@ ==> element_output(RenderingElement::Text(t), ctx) == present_text(ctx.reference.issn),
{
    let el = RenderingElement::Text(t);
    reveal_strlit("title");
    reveal_strlit("container-title");
    reveal_strlit("publisher");
    reveal_strlit("publisher-place");
    reveal_strlit("page");
    reveal_strlit("volume");
    reveal_strlit("issue");
    reveal_strlit("doi");
    reveal_strlit("url");
    reveal_strlit("isbn");
    reveal_strlit("issn");
    assert("container-title"@.len() != "title"@.len());
    assert("publisher"@.len() != "title"@.len());
    assert("publisher"@.len() != "container-title"@.len());
    assert("publisher-place"@.len() != "title"@.len());
    assert("publisher-place"@[0] != "container-title"@[0]);
    assert("publisher-place"@.len() != "publisher"@.len());
    assert("page"@.len() != "title"@.len());
    assert("page"@.len() != "container-title"@.len());
    assert("page"@.len() != "publisher"@.len());
    assert("page"@.len() != "publisher-place"@.len());
    assert("volume"@.len() != "title"@.len());
    assert("volume"@.len() != "container-title"@.len());
    assert("volume"@.len() != "publisher"@.len());
    assert("volume"@.len() != "publisher-place"@.len());
    assert("volume"@.len() != "page"@.len());
    assert("issue"@[0] != "title"@[0]);
    assert("issue"@.len() != "container-title"@.len());
    assert("issue"@.len() != "publisher"@.len());
    assert("issue"@.len() != "publisher-place"@.len());
    assert("issue"@.len() != "page"@.len());
    assert("issue"@.len() != "volume"@.len());
    assert("doi"@.len() != "title"@.len());
    assert("doi"@.len() != "container-title"@.len());
    assert("doi"@.len() != "publisher"@.len());
    assert("doi"@.len() != "publisher-place"@.len());
    assert("doi"@.len() != "page"@.len());
    assert("doi"@.len() != "volume"@.len());
    assert("doi"@.len() != "issue"@.len());
    assert("url"@.len() != "title"@.len());
    assert("url"@.len() != "container-title"@.len());
    assert("url"@.len() != "publisher"@.len());
    assert("url"@.len() != "publisher-place"@.len());
    assert("url"@.len() != "page"@.len());
    assert("url"@.len() != "volume"@.len());
    assert("url"@.len() != "issue"@.len());
    assert("url"@[0] != "doi"@[0]);
    assert("isbn"@.len() != "title"@.len());
    assert("isbn"@.len() != "container-title"@.len());
    assert("isbn"@.len() != "publisher"@.len());
    assert("isbn"@.len() != "publisher-place"@.len());
    assert("isbn"@[0] != "page"@[0]);
    assert("isbn"@.len() != "volume"@.len());
    assert("isbn"@.len() != "issue"@.len());
    assert("isbn"@.len() != "doi"@.len());
    assert("isbn"@.len() != "url"@.len());
    assert("issn"@.len() != "title"@.len());
    assert("issn"@.len() != "container-title"@.len());
    assert("issn"@.len() != "publisher"@.len());
    assert("issn"@.len() != "publisher-place"@.len());
    assert("issn"@[0] != "page"@[0]);
    assert("issn"@.len() != "volume"@.len());
    assert("issn"@.len() != "issue"@.len());
    assert("issn"@.len() != "doi"@.len());
    assert("issn"@.len() != "url"@.len());
    assert("issn"@[2] != "isbn"@[2]);
    assert(eval_el(el, ctx, 1) is Some);
    law_fuel_irrelevant(el, ctx, 1, 1);
}

/// `<if variable="...">` tests whether the reference has the named
/// variable: `title`, `container-title`, `publisher`, `issued`, `author`
/// or `editor`, each by its own field.
pub proof fn law_condition_tests_its_variable(r: Reference, var: Seq<char>)
    ensures
        var == "title"@ ==> (variable_present(r, var) <==> r.title is Some),
        var == "container-title"@ ==> (variable_present(r, var) <==> r.container_title is Some),
        var == "publisher"@ ==> (variable_present(r, var) <==> r.publisher is Some),
        var == "issued"@ ==> (variable_present(r, var) <==> r.issued is Some),
        var == "author"@ ==> (variable_present(r, var) <==> r.author is Some),
        var == "editor"@ ==> (variable_present(r, var) <==> r.editor is Some),
{
    reveal_strlit("title");
    reveal_strlit("container-title");
    reveal_strlit("publisher");
    reveal_strlit("issued");
    reveal_strlit("author");
    reveal_strlit("editor");
    reveal_strlit("accessed");
    reveal_strlit("translator");
    reveal_strlit("symbol");
    assert("container-title"@.len() != "title"@.len());
    assert("publisher"@.len() != "title"@.len());
    assert("publisher"@.len() != "container-title"@.len());
    assert("issued"@.len() != "title"@.len());
    assert("issued"@.len() != "container-title"@.len());
    assert("issued"@.len() != "publisher"@.len());
    assert("author"@.len() != "title"@.len());
    assert("author"@.len() != "container-title"@.len());
    assert("author"@.len() != "publisher"@.len());
    assert("author"@[0] != "issued"@[0]);
    assert("editor"@.len() != "title"@.len());
    assert("editor"@.len() != "container-title"@.len());
    assert("editor"@.len() != "publisher"@.len());
    assert("editor"@[0] != "issued"@[0]);
    assert("editor"@[0] != "author"@[0]);
    assert("accessed"@.len() != "title"@.len());
    assert("accessed"@.len() != "container-title"@.len());
    assert("accessed"@.len() != "publisher"@.len());
    assert("accessed"@.len() != "issued"@.len());
    assert("accessed"@.len() != "author"@.len());
    assert("accessed"@.len() != "editor"@.len());
    assert("translator"@.len() != "title"@.len());
    assert("translator"@.len() != "container-title"@.len());
    assert("translator"@.len() != "publisher"@.len());
    assert("translator"@.len() != "issued"@.len());
    assert("translator"@.len() != "author"@.len());
    assert("translator"@.len() != "editor"@.len());
    assert("translator"@.len() != "accessed"@.len());
    assert("symbol"@.len() != "title"@.len());
    assert("symbol"@.len() != "container-title"@.len());
    assert("symbol"@.len() != "publisher"@.len());
    assert("symbol"@[0] != "issued"@[0]);
    assert("symbol"@[0] != "author"@[0]);
    assert("symbol"@[0] != "editor"@[0]);
    assert("symbol"@.len() != "accessed"@.len());
    assert("symbol"@.len() != "translator"@.len());
}

/// `<names>` renders the names of its variable in order: one name alone;
/// two names joined by ` & ` when `and` is `symbol` and by ` and ` when it
/// is another word; authors, editors and translators each from their own
/// list. A `<date>` renders the first date of `issued` or `accessed`, as
/// its variable says.
pub proof fn law_names_and_dates(names: Names, d: DateDef, r: Reference)
    ensures
        names.variable@ == "author"@ && r.author is Some && r.author->0@.len() == 1 ==> names_output(names, r)
            == Some(name_text(r.author->0@[0])),
        names.variable@ == "author"@ && r.author is Some && r.author->0@.len() == 2 && names.name is Some
            && names.name->0.and is Some ==> names_output(names, r) == Some(
            name_text(r.author->0@[0]) + (if names.name->0.and->0@ == "symbol"@ {
                " & "@
            } else {
                " and "@
            }) + name_text(r.author->0@[1]),
        ),
        names.variable@ == "editor"@ && r.editor is Some && r.editor->0@.len() == 1 ==> names_output(names, r)
            == Some(name_text(r.editor->0@[0])),
        names.variable@ == "translator"@ && r.translator is Some && r.translator->0@.len() == 1 ==> names_output(
            names,
            r,
        ) == Some(name_text(r.translator->0@[0])),
        d.variable@ == "issued"@ && r.issued is Some && r.issued->0.date_parts@.len() > 0 ==> date_output(d, r)
            == Some(date_text(r.issued->0.date_parts@[0]@)),
        d.variable@ == "accessed"@ && r.accessed is Some && r.accessed->0.date_parts@.len() > 0 ==> date_output(
            d,
            r,
        ) == Some(date_text(r.accessed->0.date_parts@[0]@)),
{
    reveal_strlit("title");
    reveal_strlit("container-title");
    reveal_strlit("publisher");
    reveal_strlit("issued");
    reveal_strlit("author");
    reveal_strlit("editor");
    reveal_strlit("accessed");
    reveal_strlit("translator");
    reveal_strlit("symbol");
    assert("container-title"@.len() != "title"@.len());
    assert("publisher"@.len() != "title"@.len());
    assert("publisher"@.len() != "container-title"@.len());
    assert("issued"@.len() != "title"@.len());
    assert("issued"@.len() != "container-title"@.len());
    assert("issued"@.len() != "publisher"@.len());
    assert("author"@.len() != "title"@.len());
    assert("author"@.len() != "container-title"@.len());
    assert("author"@.len() != "publisher"@.len());
    assert("author"@[0] != "issued"@[0]);
    assert("editor"@.len() != "title"@.len());
    assert("editor"@.len() != "container-title"@.len());
    assert("editor"@.len() != "publisher"@.len());
    assert("editor"@[0] != "issued"@[0]);
    assert("editor"@[0] != "author"@[0]);
    assert("accessed"@.len() != "title"@.len());
    assert("accessed"@.len() != "container-title"@.len());
    assert("accessed"@.len() != "publisher"@.len());
    assert("accessed"@.len() != "issued"@.len());
    assert("accessed"@.len() != "author"@.len());
    assert("accessed"@.len() != "editor"@.len());
    assert("translator"@.len() != "title"@.len());
    assert("translator"@.len() != "container-title"@.len());
    assert("translator"@.len() != "publisher"@.len());
    assert("translator"@.len() != "issued"@.len());
    assert("translator"@.len() != "author"@.len());
    assert("translator"@.len() != "editor"@.len());
    assert("translator"@.len() != "accessed"@.len());
    assert("symbol"@.len() != "title"@.len());
    assert("symbol"@.len() != "container-title"@.len());
    assert("symbol"@.len() != "publisher"@.len());
    assert("symbol"@[0] != "issued"@[0]);
    assert("symbol"@[0] != "author"@[0]);
    assert("symbol"@[0] != "editor"@[0]);
    assert("symbol"@.len() != "accessed"@.len());
    assert("symbol"@.len() != "translator"@.len());
    if names.variable@ == "author"@ && r.author is Some && r.author->0@.len() == 2 {
        let texts = r.author->0@.map_values(|n: NameVariable| name_text(n));
        assert(texts.drop_last().len() == 1);
        assert(join(texts.drop_last(), names_delimiter(names)) == texts[0]);
    }
}

/// A `<text value="...">` renders its value between its prefix and suffix,
/// in double quotes when `quotes` is set, and nothing for an empty value.
pub proof fn law_text_value_with_affixes(t: Text, ctx: Context)
    requires
        t.value is Some,
    ensures
        evaluation_ends(RenderingElement::Text(t), ctx),
        t.value->0@.len() == 0 ==> element_output(RenderingElement::Text(t), ctx) is None,
        t.value->0@.len() > 0 && t.quotes == Some(true) ==> element_output(RenderingElement::Text(t), ctx) == Some(
            or_empty(t.prefix) + "\""@ + t.value->0@ + "\""@ + or_empty(t.suffix),
        ),
        t.value->0@.len() > 0 && t.quotes != Some(true) ==> element_output(RenderingElement::Text(t), ctx) == Some(
            or_empty(t.prefix) + t.value->0@ + or_empty(t.suffix),
        ),
{
    let el = RenderingElement::Text(t);
    reveal_strlit("\"");
    assert(eval_el(el, ctx, 1) is Some);
    law_fuel_irrelevant(el, ctx, 1, 1);
    assert(seq!['"'] + t.value->0@ + seq!['"'] =~= "\""@ + t.value->0@ + "\""@);
    assert(or_empty(t.prefix) + (seq!['"'] + t.value->0@ + seq!['"']) + or_empty(t.suffix) =~= or_empty(t.prefix)
        + "\""@ + t.value->0@ + "\""@ + or_empty(t.suffix));
}

/// A date is written year first: `Y`, `Y-MM` or `Y-MM-DD`, month and day
/// in two digits, from the first three parts.
pub proof fn law_date_text(y: i32, m: i32, d: i32)
    ensures
        date_text(seq![y]) == int_decimal(y as int),
        date_text(seq![y, m]) == int_decimal(y as int) + "-"@ + zero_pad2(m as int),
        date_text(seq![y, m, d]) == int_decimal(y as int) + "-"@ + zero_pad2(m as int) + "-"@ + zero_pad2(d as int),
{
    reveal_strlit("-");
    assert(seq!['-'] =~= "-"@);
    assert(date_text(seq![y, m, d]) =~= int_decimal(y as int) + "-"@ + zero_pad2(m as int) + "-"@ + zero_pad2(d as int));
}

proof fn lemma_no_parts(rs: Seq<Option<Seq<char>>>)
    requires
        forall|i: int| 0 <= i < rs.len() ==> (rs[i] is None || rs[i]->0.len() == 0),
    ensures
        nonempty_parts(rs).len() == 0,
    decreases rs.len(),
{
    if rs.len() > 0 {
        lemma_no_parts(rs.drop_last());
    }
}

/// A layout is framed by its prefix and suffix, whatever its elements
/// render: with no element rendering text it is the prefix and suffix
/// alone, and with a single element it is that element's text between
/// them.
pub proof fn law_layout_frame(layout: Layout, ctx: Context)
    ensures
        layout_output(layout, ctx).take(or_empty(layout.prefix).len() as int) == or_empty(layout.prefix),
        layout_output(layout, ctx).skip(layout_output(layout, ctx).len() - or_empty(layout.suffix).len())
            == or_empty(layout.suffix),
        (forall|i: int|
            0 <= i < layout.elements@.len() ==> (element_output(#[trigger] layout.elements@[i], ctx) is None
                || element_output(layout.elements@[i], ctx)->0.len() == 0)) ==> layout_output(layout, ctx)
            == or_empty(layout.prefix) + or_empty(layout.suffix),
        layout.elements@.len() == 1 && element_output(layout.elements@[0], ctx) is Some && element_output(
            layout.elements@[0],
            ctx,
        )->0.len() > 0 ==> layout_output(layout, ctx) == or_empty(layout.prefix) + element_output(
            layout.elements@[0],
            ctx,
        )->0 + or_empty(layout.suffix),
{
    let rs = layout.elements@.map_values(|e: RenderingElement| element_output(e, ctx));
    let p = or_empty(layout.prefix);
    let m = join(nonempty_parts(rs), or_empty(layout.delimiter));
    let q = or_empty(layout.suffix);
    assert((p + m + q).take(p.len() as int) =~= p);
    assert((p + m + q).skip((p + m + q).len() - q.len()) =~= q);
    if forall|i: int|
        0 <= i < layout.elements@.len() ==> (element_output(#[trigger] layout.elements@[i], ctx) is None
            || element_output(layout.elements@[i], ctx)->0.len() == 0) {
        assert forall|i: int| 0 <= i < rs.len() implies (rs[i] is None || rs[i]->0.len() == 0) by {
            assert(rs[i] == element_output(layout.elements@[i], ctx));
        }
        lemma_no_parts(rs);
        assert(nonempty_parts(rs) =~= Seq::<Seq<char>>::empty());
        assert(p + m + q =~= p + q);
    }
    if layout.elements@.len() == 1 {
        if let Some(t) = element_output(layout.elements@[0], ctx) {
            if t.len() > 0 {
                assert(rs.drop_last() =~= Seq::<Option<Seq<char>>>::empty());
                assert(nonempty_parts(rs.drop_last()) == Seq::<Seq<char>>::empty());
                assert(rs.last() == Some(t));
                assert(nonempty_parts(rs) == Seq::<Seq<char>>::empty().push(t));
                assert(nonempty_parts(rs) =~= seq![t]);
            }
        }
    }
}

} // verus!
