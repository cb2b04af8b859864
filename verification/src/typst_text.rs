//! The text pieces of the Typst diagram renderer: colour and stroke
//! expressions, escaping, relation glyphs, and the choice of renderer for a
//! diagram's source.

use vstd::prelude::*;
use crate::mermaid_lexer::EdgeStyle;
use crate::text::{
    append, append_str, chars_of, contains_str, ends_with, find, replace, replace_str, slice_of,
    starts_with, starts_with_str, string_of, trim, trim_of, trim_start, trim_start_of, trim_str,
};

verus! {

/// A Mermaid colour as a Typst expression: `#rrggbb` becomes
/// `rgb("#rrggbb")`, anything else is kept, trimmed.
pub open spec fn typst_color_spec(value: Seq<char>) -> Seq<char> {
    let v = trim(value);
    if v.len() > 0 && v[0] == '#' {
        "rgb(\""@ + v + "\")"@
    } else {
        v
    }
}

/// The Typst colour expression for an optional Mermaid colour.
pub fn typst_color(value: Option<&str>) -> (r: Option<String>)
    ensures
        match value {
            Some(v) => r matches Some(s) && s@ == typst_color_spec(v@),
            None => r is None,
        },
{
    match value {
        Some(v) => {
            let t = trim_str(v);
            if t.len() > 0 && t[0] == '#' {
                let mut out = chars_of("rgb(\"");
                append(&mut out, t.as_slice());
                append_str(&mut out, "\")");
                Some(string_of(out.as_slice()))
            } else {
                Some(string_of(t.as_slice()))
            }
        },
        None => None,
    }
}

/// `s` without any number of trailing `px` units.
pub open spec fn without_px(s: Seq<char>) -> Seq<char>
    decreases s.len(),
{
    if s.len() >= 2 && s[s.len() - 2] == 'p' && s[s.len() - 1] == 'x' {
        without_px(s.take(s.len() - 2))
    } else {
        s
    }
}

fn without_px_of(s: &[char]) -> (r: Vec<char>)
    ensures
        r@ == without_px(s@),
{
    let mut e = s.len();
    assert(s@.take(e as int) =~= s@);
    while e >= 2 && s[e - 2] == 'p' && s[e - 1] == 'x'
        invariant
            e <= s@.len(),
            without_px(s@) == without_px(s@.take(e as int)),
        decreases e,
    {
        assert(s@.take(e as int).take(e - 2) =~= s@.take(e - 2));
        e -= 2;
    }
    let r = slice_of(s, 0, e);
    assert(r@ =~= s@.take(e as int));
    r
}

/// A Typst stroke of the given width (in points, `px` dropped) and colour.
pub open spec fn typst_stroke_spec(color: Seq<char>, width: Seq<char>) -> Seq<char> {
    trim(without_px(width)) + "pt + "@ + typst_color_spec(color)
}

pub fn typst_stroke(color: &str, width: &str) -> (r: String)
    ensures
        r@ == typst_stroke_spec(color@, width@),
{
    let w = chars_of(width);
    let np = without_px_of(w.as_slice());
    let mut out = trim_of(np.as_slice());
    append_str(&mut out, "pt + ");
    let c = typst_color(Some(color));
    match c {
        Some(cs) => append_str(&mut out, cs.as_str()),
        None => {},
    }
    string_of(out.as_slice())
}

/// The stroke of a flowchart edge: thicker for a thick arrow.
pub open spec fn edge_stroke_spec(style: EdgeStyle) -> Seq<char> {
    match style {
        EdgeStyle::ThickArrow => "2.5pt"@ + " + rgb(\"#555555\")"@,
        _ => "1.5pt"@ + " + rgb(\"#555555\")"@,
    }
}

pub fn edge_stroke(style: EdgeStyle) -> (r: String)
    ensures
        r@ == edge_stroke_spec(style),
{
    let mut out = match style {
        EdgeStyle::ThickArrow => chars_of("2.5pt"),
        _ => chars_of("1.5pt"),
    };
    append_str(&mut out, " + rgb(\"#555555\")");
    string_of(out.as_slice())
}

/// Whether an edge of this style ends in an arrowhead: all but a plain line.
pub fn has_arrowhead(style: EdgeStyle) -> (b: bool)
    ensures
        b == !(style is SolidLine),
{
    match style {
        EdgeStyle::SolidLine => false,
        _ => true,
    }
}

/// `input` with `\`, `[` and `]` escaped for Typst markup.
pub open spec fn escape_typst_spec(input: Seq<char>) -> Seq<char> {
    replace(replace(replace(input, "\\"@, "\\\\"@), "["@, "\\["@), "]"@, "\\]"@)
}

pub fn escape_typst_text(input: &str) -> (r: String)
    ensures
        r@ == escape_typst_spec(input@),
{
    proof {
        reveal_strlit("\\");
        reveal_strlit("[");
        reveal_strlit("]");
    }
    let s = chars_of(input);
    let a = replace_str(s.as_slice(), "\\", "\\\\");
    let b = replace_str(a.as_slice(), "[", "\\[");
    let c = replace_str(b.as_slice(), "]", "\\]");
    string_of(c.as_slice())
}

/// The stroke of a class-diagram relation: lighter for dotted relations.
pub open spec fn class_relation_stroke_spec(kind: Seq<char>) -> Seq<char> {
    if find(kind, ".."@) is Some {
        "1.2pt + rgb(\"#777777\")"@
    } else {
        "1.4pt + rgb(\"#555555\")"@
    }
}

pub fn class_relation_stroke(kind: &str) -> (r: String)
    ensures
        r@ == class_relation_stroke_spec(kind@),
{
    let k = chars_of(kind);
    if contains_str(k.as_slice(), "..") {
        String::from_str("1.2pt + rgb(\"#777777\")")
    } else {
        String::from_str("1.4pt + rgb(\"#555555\")")
    }
}

/// The glyph drawn at the head of a class-diagram relation.
pub open spec fn relation_glyph_spec(kind: Seq<char>) -> Seq<char> {
    if kind == "<|--"@ || kind == "--|>"@ {
        "△"@
    } else if kind == "*--"@ || kind == "--*"@ {
        "◆"@
    } else if kind == "o--"@ || kind == "--o"@ {
        "◇"@
    } else if kind == "<.."@ || kind == "..>"@ || kind == "<--"@ || kind == "-->"@ {
        "▼"@
    } else {
        "•"@
    }
}

pub fn relation_arrow_glyph(kind: &str) -> (r: &'static str)
    ensures
        r@ == relation_glyph_spec(kind@),
{
    let k = chars_of(kind);
    let s = k.as_slice();
    if crate::text::eq_str(s, "<|--") || crate::text::eq_str(s, "--|>") {
        "△"
    } else if crate::text::eq_str(s, "*--") || crate::text::eq_str(s, "--*") {
        "◆"
    } else if crate::text::eq_str(s, "o--") || crate::text::eq_str(s, "--o") {
        "◇"
    } else if crate::text::eq_str(s, "<..") || crate::text::eq_str(s, "..>") || crate::text::eq_str(
        s,
        "<--",
    ) || crate::text::eq_str(s, "-->") {
        "▼"
    } else {
        "•"
    }
}

// ── Choice of renderer ───────────────────────────────────────────────────────

/// The kinds of Mermaid diagram the Typst renderer draws.
#[derive(Debug, Clone, Copy, PartialEq, Eq)]
pub enum DiagramKind {
    Sequence,
    Class,
    Er,
    Gantt,
    Pie,
    Mindmap,
    Timeline,
    Journey,
    State,
    Flowchart,
}

/// The kind of diagram a source declares by its first word, a flowchart
/// when it declares none of the others.
pub open spec fn diagram_kind_spec(input: Seq<char>) -> DiagramKind {
    let t = trim_start(input);
    if starts_with(t, "sequenceDiagram"@) {
        DiagramKind::Sequence
    } else if starts_with(t, "classDiagram"@) {
        DiagramKind::Class
    } else if starts_with(t, "erDiagram"@) {
        DiagramKind::Er
    } else if starts_with(t, "gantt"@) {
        DiagramKind::Gantt
    } else if starts_with(t, "pie"@) {
        DiagramKind::Pie
    } else if starts_with(t, "mindmap"@) {
        DiagramKind::Mindmap
    } else if starts_with(t, "timeline"@) {
        DiagramKind::Timeline
    } else if starts_with(t, "journey"@) {
        DiagramKind::Journey
    } else if starts_with(t, "stateDiagram"@) {
        DiagramKind::State
    } else {
        DiagramKind::Flowchart
    }
}

pub fn diagram_kind(input: &str) -> (k: DiagramKind)
    ensures
        k == diagram_kind_spec(input@),
{
    let v = chars_of(input);
    let t = trim_start_of(v.as_slice());
    let s = t.as_slice();
    if starts_with_str(s, "sequenceDiagram") {
        DiagramKind::Sequence
    } else if starts_with_str(s, "classDiagram") {
        DiagramKind::Class
    } else if starts_with_str(s, "erDiagram") {
        DiagramKind::Er
    } else if starts_with_str(s, "gantt") {
        DiagramKind::Gantt
    } else if starts_with_str(s, "pie") {
        DiagramKind::Pie
    } else if starts_with_str(s, "mindmap") {
        DiagramKind::Mindmap
    } else if starts_with_str(s, "timeline") {
        DiagramKind::Timeline
    } else if starts_with_str(s, "journey") {
        DiagramKind::Journey
    } else if starts_with_str(s, "stateDiagram") {
        DiagramKind::State
    } else {
        DiagramKind::Flowchart
    }
}

} // verus!
