//! Writing a Markdown document as an HTML5 page. The writer decides the
//! markup for each event and hands back the page as a sequence of pieces:
//! markup written as it is, text that still has to be escaped for XML, and
//! the Mermaid flowcharts that are drawn as inline SVG. Math is turned into
//! MathML here, with an escaped fallback where the LaTeX does not convert.

use vstd::prelude::*;
use crate::attributes::opt_view;
use crate::config::Config;
use crate::md_events::{Event, HeadingLevel, Tag, TagEnd};
use crate::mermaid_parser::{parse, parse_spec};
use crate::text::{append, chars_of, is_at, occurs_at, starts_with, starts_with_str, string_of};

verus! {

/// One piece of an HTML page.
#[derive(Debug, Clone, PartialEq, Eq)]
pub enum HtmlPiece {
    /// Markup, written as it is.
    Markup(String),
    /// Text, written escaped for XML.
    Escaped(String),
    /// The source of a Mermaid flowchart that parses, drawn as SVG.
    Diagram(String),
}

pub ghost enum PieceView {
    Markup(Seq<char>),
    Escaped(Seq<char>),
    Diagram(Seq<char>),
}

impl View for HtmlPiece {
    type V = PieceView;

    open spec fn view(&self) -> PieceView {
        match self {
            HtmlPiece::Markup(s) => PieceView::Markup(s@),
            HtmlPiece::Escaped(s) => PieceView::Escaped(s@),
            HtmlPiece::Diagram(s) => PieceView::Diagram(s@),
        }
    }
}

pub open spec fn piece_views(v: Seq<HtmlPiece>) -> Seq<PieceView> {
    v.map_values(|p: HtmlPiece| p@)
}

pub open spec fn mk(s: Seq<char>) -> PieceView {
    PieceView::Markup(s)
}

pub open spec fn esc(s: Seq<char>) -> PieceView {
    PieceView::Escaped(s)
}

/// What `latex2mathml::latex_to_mathml` gives for a LaTeX formula, inline
/// or as a block: the MathML, or nothing where the formula does not parse.
pub uninterp spec fn mathml_of(latex: Seq<char>, block: bool) -> Option<Seq<char>>;

pub open spec fn math_element_open(block: bool) -> Seq<char> {
    if block {
        "<math xmlns=\"http://www.w3.org/1998/Math/MathML\" display=\"block\">"@
    } else {
        "<math xmlns=\"http://www.w3.org/1998/Math/MathML\" display=\"inline\">"@
    }
}

/// The characters that the converter reads, each alone, as an operator or
/// a bracket.
pub open spec fn operator_char(c: char) -> bool {
    c == '=' || c == ';' || c == ',' || c == '.' || c == '\'' || c == '(' || c == ')' || c == '['
        || c == ']' || c == '|' || c == '+' || c == '-' || c == '*' || c == '/' || c == '!' || c
        == '<' || c == '>' || c == ':'
}

/// The blanks that the converter's lexer skips between tokens.
pub open spec fn math_blank(c: char) -> bool {
    c == ' ' || c == '\t' || c == '\n' || c == '\r'
}

/// `s` without its leading blanks.
pub open spec fn skip_blanks(s: Seq<char>) -> Seq<char>
    decreases s.len(),
{
    if s.len() > 0 && math_blank(s[0]) {
        skip_blanks(s.drop_first())
    } else {
        s
    }
}

pub open spec fn ascii_letter(c: char) -> bool {
    ('a' <= c && c <= 'z') || ('A' <= c && c <= 'Z')
}

/// Whether the converter can read what follows a `\middle`: a letter that
/// makes `\middle` part of a longer command name, or, after blanks, an
/// operator character or one of `\{`, `\}`, `\|`.
pub open spec fn middle_operand_ok(rest: Seq<char>) -> bool {
    (rest.len() > 0 && ascii_letter(rest[0])) || {
        let t = skip_blanks(rest);
        (t.len() > 0 && operator_char(t[0])) || (t.len() > 1 && t[0] == '\\' && (t[1] == '{' || t[1]
            == '}' || t[1] == '|'))
    }
}

/// Whether every `\middle` of a formula is followed by something the
/// converter reads as an operator or a bracket. After `\middle` the
/// converter takes one node and stops with a panic (`unimplemented!`)
/// unless it is an operator or a bracket, so the writer hands it only
/// formulas of which this holds.
pub open spec fn middle_converts(latex: Seq<char>) -> bool {
    forall|i: int| #[trigger] occurs_at(latex, "\\middle"@, i) ==> middle_operand_ok(latex.skip(i + 7))
}

/// What the writer takes from the converter for a formula: its result, or
/// nothing for a formula with a `\middle` that the converter cannot read,
/// which is written as escaped LaTeX instead.
pub open spec fn converted_math(latex: Seq<char>, block: bool) -> Option<Seq<char>> {
    if middle_converts(latex) {
        mathml_of(latex, block)
    } else {
        None
    }
}

fn skip_blanks_of(s: &[char]) -> (k: usize)
    ensures
        k <= s@.len(),
        skip_blanks(s@) == s@.skip(k as int),
{
    let n = s.len();
    let mut k: usize = 0;
    assert(s@.skip(0) =~= s@);
    while k < n && (s[k] == ' ' || s[k] == '\t' || s[k] == '\n' || s[k] == '\r')
        invariant
            n == s@.len(),
            k <= n,
            skip_blanks(s@) == skip_blanks(s@.skip(k as int)),
        decreases n - k,
    {
        assert(s@.skip(k as int).drop_first() =~= s@.skip(k + 1));
        k = k + 1;
    }
    k
}

fn middle_operand_ok_of(s: &[char]) -> (r: bool)
    ensures
        r == middle_operand_ok(s@),
{
    if s.len() > 0 && (('a' <= s[0] && s[0] <= 'z') || ('A' <= s[0] && s[0] <= 'Z')) {
        return true;
    }
    let k = skip_blanks_of(s);
    let n = s.len();
    let ghost t = s@.skip(k as int);
    if k < n {
        let c = s[k];
        if c == '=' || c == ';' || c == ',' || c == '.' || c == '\'' || c == '(' || c == ')' || c
            == '[' || c == ']' || c == '|' || c == '+' || c == '-' || c == '*' || c == '/' || c == '!'
            || c == '<' || c == '>' || c == ':' {
            return true;
        }
        if k + 1 < n && c == '\\' && (s[k + 1] == '{' || s[k + 1] == '}' || s[k + 1] == '|') {
            assert(t[1] == s@[k + 1]);
            return true;
        }
        assert(t.len() > 1 ==> t[1] == s@[k + 1]);
    }
    false
}

/// Whether every `\middle` of a formula is one the converter can read.
fn middle_converts_of(s: &[char]) -> (r: bool)
    ensures
        r == middle_converts(s@),
{
    proof {
        reveal_strlit("\\middle");
    }
    let pat = chars_of("\\middle");
    assert(pat@.len() == 7);
    let n = s.len();
    for i in 0..n
        invariant
            n == s@.len(),
            pat@ == "\\middle"@,
            pat@.len() == 7,
            forall|j: int| 0 <= j < i && occurs_at(s@, "\\middle"@, j) ==> middle_operand_ok(s@.skip(j + 7)),
    {
        if is_at(s, pat.as_slice(), i) {
            let rest = crate::text::tail_of(s, i + 7);
            if !middle_operand_ok_of(rest) {
                return false;
            }
        }
    }
    assert forall|j: int| #[trigger] occurs_at(s@, "\\middle"@, j) implies middle_operand_ok(s@.skip(j + 7)) by {
        assert(j < n);
    }
    true
}

/// Converts a LaTeX formula to MathML with `latex2mathml::latex_to_mathml`.
/// The contract names the result; of a success it states only the `math`
/// element that the crate's source writes round the converted formula. The
/// call is kept off formulas with a `\middle` that the converter cannot
/// read, on which it panics.
#[verifier::external_body]
fn latex_mathml(latex: &str, block: bool) -> (r: Option<String>)
    requires
        middle_converts(latex@),
    ensures
        opt_view(r) == mathml_of(latex@, block),
        r matches Some(m) ==> starts_with(m@, math_element_open(block)),
{
    let style = if block {
        latex2mathml::DisplayStyle::Block
    } else {
        latex2mathml::DisplayStyle::Inline
    };
    match latex2mathml::latex_to_mathml(latex, style) {
        Ok(m) => Some(m),
        Err(_) => None,
    }
}

/// The pieces of a formula: its MathML where it converted, else the LaTeX
/// escaped in a span (inline) or a div (block).
pub open spec fn math_view(latex: Seq<char>, block: bool, converted: Option<Seq<char>>) -> Seq<PieceView> {
    match converted {
        Some(m) => seq![mk(m)],
        None => if block {
            seq![mk("<div class=\"math-display\">"@), esc(latex), mk("</div>\n"@)]
        } else {
            seq![mk("<span class=\"math-inline\">"@), esc(latex), mk("</span>"@)]
        },
    }
}

/// The pieces of a Mermaid block: the drawing and a hidden copy of the
/// source where it parses, else the source shown as a fault.
pub open spec fn diagram_view(source: Seq<char>) -> Seq<PieceView> {
    if parse_spec(source) is Ok {
        seq![
            mk("<div class=\"mermaid-graph\" style=\"text-align: center; margin: 2rem 0;\">\n"@),
            PieceView::Diagram(source),
            mk("\n</div>\n<pre class=\"marksmen-roundtrip-meta\" style=\"display:none\">```mermaid\n"@),
            esc(source),
            mk("\n```</pre>\n"@),
        ]
    } else {
        seq![
            mk("<pre style=\"color: red;\"><code>[Mermaid Parsing Fault]\n"@),
            mk(source),
            mk("</code></pre>\n"@),
        ]
    }
}

pub open spec fn level_digit(l: HeadingLevel) -> char {
    match l {
        HeadingLevel::H1 => '1',
        HeadingLevel::H2 => '2',
        HeadingLevel::H3 => '3',
        HeadingLevel::H4 => '4',
        HeadingLevel::H5 => '5',
        HeadingLevel::H6 => '6',
    }
}

pub open spec fn just(s: Seq<char>) -> Seq<PieceView> {
    seq![mk(s)]
}

/// What one event writes, given whether a Mermaid block is open and the
/// source gathered in it: the new state and the pieces.
pub open spec fn html_step(in_diagram: bool, source: Seq<char>, e: Event) -> (bool, Seq<char>, Seq<PieceView>) {
    match e {
        Event::Start(Tag::Paragraph) => (in_diagram, source, just("<p>"@)),
        Event::End(TagEnd::Paragraph) => (in_diagram, source, just("</p>\n"@)),
        Event::Start(Tag::Heading { level, .. }) => (in_diagram, source, just(
            "<h"@ + seq![level_digit(level)] + ">"@,
        )),
        Event::End(TagEnd::Heading(level)) => (in_diagram, source, just(
            "</h"@ + seq![level_digit(level)] + ">\n"@,
        )),
        Event::Start(Tag::BlockQuote) => (in_diagram, source, just("<blockquote>"@)),
        Event::End(TagEnd::BlockQuote) => (in_diagram, source, just("</blockquote>\n"@)),
        Event::Start(Tag::FencedCode(lang)) => if starts_with(lang@, "mermaid"@) {
            (true, seq![], seq![])
        } else {
            (in_diagram, source, just("<pre><code>"@))
        },
        Event::Start(Tag::IndentedCode) => (in_diagram, source, just("<pre><code>"@)),
        Event::End(TagEnd::CodeBlock) => if in_diagram {
            (false, source, diagram_view(source))
        } else {
            (in_diagram, source, just("</code></pre>\n"@))
        },
        Event::Start(Tag::List(start)) => (in_diagram, source, if start is Some {
            just("<ol>\n"@)
        } else {
            just("<ul>\n"@)
        }),
        Event::End(TagEnd::List(ordered)) => (in_diagram, source, if ordered {
            just("</ol>\n"@)
        } else {
            just("</ul>\n"@)
        }),
        Event::Start(Tag::Item) => (in_diagram, source, just("<li>"@)),
        Event::End(TagEnd::Item) => (in_diagram, source, just("</li>\n"@)),
        Event::Start(Tag::Table(_)) => (in_diagram, source, just("<table>\n"@)),
        Event::End(TagEnd::Table) => (in_diagram, source, just("</table>\n"@)),
        Event::Start(Tag::TableHead) => (in_diagram, source, just("  <thead>\n    <tr>\n"@)),
        Event::End(TagEnd::TableHead) => (in_diagram, source, just(
            "    </tr>\n  </thead>\n  <tbody>\n"@,
        )),
        Event::Start(Tag::TableRow) => (in_diagram, source, just("    <tr>\n"@)),
        Event::End(TagEnd::TableRow) => (in_diagram, source, just("    </tr>\n"@)),
        Event::Start(Tag::TableCell) => (in_diagram, source, just("      <td>"@)),
        Event::End(TagEnd::TableCell) => (in_diagram, source, just("</td>\n"@)),
        Event::Start(Tag::Emphasis) => (in_diagram, source, just("<em>"@)),
        Event::End(TagEnd::Emphasis) => (in_diagram, source, just("</em>"@)),
        Event::Start(Tag::Strong) => (in_diagram, source, just("<strong>"@)),
        Event::End(TagEnd::Strong) => (in_diagram, source, just("</strong>"@)),
        Event::Start(Tag::Strikethrough) => (in_diagram, source, just("<del>"@)),
        Event::End(TagEnd::Strikethrough) => (in_diagram, source, just("</del>"@)),
        Event::Start(Tag::Link { dest_url, .. }) => (in_diagram, source, just(
            "<a href=\""@ + dest_url@ + "\">"@,
        )),
        Event::End(TagEnd::Link) => (in_diagram, source, just("</a>"@)),
        Event::Start(Tag::Image { dest_url, .. }) => (in_diagram, source, just(
            "<img src=\""@ + dest_url@ + "\" alt=\""@,
        )),
        Event::End(TagEnd::Image) => (in_diagram, source, just("\" />"@)),
        Event::Code(t) => (in_diagram, source, seq![mk("<code>"@), esc(t@), mk("</code>"@)]),
        Event::Text(t) => if in_diagram {
            (in_diagram, source + t@, seq![])
        } else {
            (in_diagram, source, seq![esc(t@)])
        },
        Event::Html(h) => (in_diagram, source, just(h@)),
        Event::InlineHtml(h) => (in_diagram, source, just(h@)),
        Event::FootnoteReference(l) => (in_diagram, source, seq![
            mk("<sup class=\"footnote-ref\" data-label=\""@),
            esc(l@),
            mk("\">["@),
            esc(l@),
            mk("]</sup>"@),
        ]),
        Event::Start(Tag::FootnoteDefinition(l)) => (in_diagram, source, seq![
            mk("<div class=\"footnote-def\" data-label=\""@),
            esc(l@),
            mk("\"><b>["@),
            esc(l@),
            mk("]</b>: "@),
        ]),
        Event::End(TagEnd::FootnoteDefinition) => (in_diagram, source, just("</div>\n"@)),
        Event::SoftBreak | Event::HardBreak => (in_diagram, source, just("<br />"@)),
        Event::InlineMath(m) => (in_diagram, source, math_view(m@, false, converted_math(m@, false))),
        Event::DisplayMath(m) => (in_diagram, source, math_view(m@, true, converted_math(m@, true))),
        Event::Rule => (in_diagram, source, just(
            "<div style=\"page-break-after: always;\"></div>\n"@,
        )),
        _ => (in_diagram, source, seq![]),
    }
}

/// The state after some events and the pieces they write.
pub open spec fn html_run(es: Seq<Event>) -> (bool, Seq<char>, Seq<PieceView>)
    decreases es.len(),
{
    if es.len() == 0 {
        (false, seq![], seq![])
    } else {
        let r = html_run(es.drop_last());
        let s = html_step(r.0, r.1, es.last());
        (s.0, s.1, r.2 + s.2)
    }
}

pub open spec fn head_open() -> Seq<char> {
    "<!DOCTYPE html>\n<html lang=\"en\">\n<head>\n  <meta charset=\"UTF-8\">\n  <meta name=\"viewport\" content=\"width=device-width, initial-scale=1.0\">\n  <title>"@
}

pub open spec fn head_close() -> Seq<char> {
    "</title>\n  <style>\n    body { font-family: 'Helvetica Neue', Arial, sans-serif; line-height: 1.6; max-width: 900px; margin: 0 auto; padding: 2rem; color: #333; }\n    img { max-width: 100%; height: auto; }\n    table { border-collapse: collapse; width: 100%; margin: 1rem 0; }\n    th, td { border: 1px solid #ddd; padding: 8px; text-align: left; }\n    th { background-color: #f5f5f5; }\n    pre { background: #f4f4f4; padding: 1rem; overflow-x: auto; }\n    blockquote { border-left: 4px solid #0366d6; margin: 0; padding-left: 1rem; color: #666; }\n    .footnote-ref { color: #0f6cbd; text-decoration: none; cursor: pointer; font-weight: 500; }\n    .footnote-def { border-top: 1px solid #ddd; margin-top: 2rem; padding-top: 1rem; font-size: 0.9em; }\n  </style>\n</head>\n<body>\n"@
}

/// The head of the page and the title and author lines of the configuration.
pub open spec fn html_head(c: Config) -> Seq<PieceView> {
    seq![mk(head_open()), esc(c.title@), mk(head_close())] + (if c.title@.len() > 0 {
        seq![mk("  <h1>"@), esc(c.title@), mk("</h1>\n"@)]
    } else {
        seq![]
    }) + (if c.author@.len() > 0 {
        seq![mk("  <p><strong>"@), esc(c.author@), mk("</strong></p>\n"@)]
    } else {
        seq![]
    })
}

/// The HTML page of a document, as pieces.
pub open spec fn html_document(es: Seq<Event>, c: Config) -> Seq<PieceView> {
    html_head(c) + html_run(es).2 + just("</body>\n</html>"@)
}

fn push_piece(out: &mut Vec<HtmlPiece>, p: HtmlPiece)
    ensures
        piece_views(final(out)@) == piece_views(old(out)@).push(p@),
{
    let ghost pv = p@;
    out.push(p);
    proof {
        assert(piece_views(out@) =~= piece_views(old(out)@).push(pv));
    }
}

fn push_markup(out: &mut Vec<HtmlPiece>, s: &str)
    ensures
        piece_views(final(out)@) == piece_views(old(out)@).push(mk(s@)),
{
    push_piece(out, HtmlPiece::Markup(String::from_str(s)));
}

fn push_escaped(out: &mut Vec<HtmlPiece>, s: &str)
    ensures
        piece_views(final(out)@) == piece_views(old(out)@).push(esc(s@)),
{
    push_piece(out, HtmlPiece::Escaped(String::from_str(s)));
}

fn push_all(out: &mut Vec<HtmlPiece>, ps: Vec<HtmlPiece>)
    ensures
        piece_views(final(out)@) == piece_views(old(out)@) + piece_views(ps@),
{
    let ghost start = piece_views(out@);
    let n = ps.len();
    let mut ps = ps;
    let ghost all = ps@;
    let mut k: usize = 0;
    while k < n
        invariant
            n == all.len(),
            0 <= k <= n,
            piece_views(out@) == start + piece_views(all.take(k as int)),
            ps@ == all.skip(k as int),
        decreases n - k,
    {
        let p = ps.remove(0);
        proof {
            assert(p == all[k as int]);
        }
        push_piece(out, p);
        proof {
            assert(piece_views(all.take(k + 1)) =~= piece_views(all.take(k as int)).push(
                all[k as int]@,
            ));
            assert(ps@ =~= all.skip(k + 1));
        }
        k = k + 1;
    }
    proof {
        assert(all.take(n as int) =~= all);
    }
}

/// The pieces of a formula, given what the MathML conversion gave: the
/// MathML where there is some, else the LaTeX escaped in a fallback element.
pub fn math_pieces(latex: &str, block: bool, converted: Option<String>) -> (r: Vec<HtmlPiece>)
    ensures
        piece_views(r@) == math_view(latex@, block, opt_view(converted)),
{
    let mut out: Vec<HtmlPiece> = Vec::new();
    proof {
        assert(piece_views(out@) =~= seq![]);
    }
    match converted {
        Some(m) => push_piece(&mut out, HtmlPiece::Markup(m)),
        None => {
            if block {
                push_markup(&mut out, "<div class=\"math-display\">");
                push_escaped(&mut out, latex);
                push_markup(&mut out, "</div>\n");
            } else {
                push_markup(&mut out, "<span class=\"math-inline\">");
                push_escaped(&mut out, latex);
                push_markup(&mut out, "</span>");
            }
        },
    }
    proof {
        assert(piece_views(out@) =~= math_view(latex@, block, opt_view(converted)));
    }
    out
}

/// The pieces of a Mermaid block whose source is `source`.
pub fn diagram_pieces(source: &str) -> (r: Vec<HtmlPiece>)
    ensures
        piece_views(r@) == diagram_view(source@),
{
    let mut out: Vec<HtmlPiece> = Vec::new();
    proof {
        assert(piece_views(out@) =~= seq![]);
    }
    match parse(source) {
        Ok(_) => {
            push_markup(
                &mut out,
                "<div class=\"mermaid-graph\" style=\"text-align: center; margin: 2rem 0;\">\n",
            );
            push_piece(&mut out, HtmlPiece::Diagram(String::from_str(source)));
            push_markup(
                &mut out,
                "\n</div>\n<pre class=\"marksmen-roundtrip-meta\" style=\"display:none\">```mermaid\n",
            );
            push_escaped(&mut out, source);
            push_markup(&mut out, "\n```</pre>\n");
        },
        Err(_) => {
            push_markup(&mut out, "<pre style=\"color: red;\"><code>[Mermaid Parsing Fault]\n");
            push_markup(&mut out, source);
            push_markup(&mut out, "</code></pre>\n");
        },
    }
    proof {
        assert(piece_views(out@) =~= diagram_view(source@));
    }
    out
}

fn heading_markup(close: bool, l: HeadingLevel) -> (s: String)
    ensures
        s@ == (if close {
            "</h"@ + seq![level_digit(l)] + ">\n"@
        } else {
            "<h"@ + seq![level_digit(l)] + ">"@
        }),
{
    let d = match l {
        HeadingLevel::H1 => '1',
        HeadingLevel::H2 => '2',
        HeadingLevel::H3 => '3',
        HeadingLevel::H4 => '4',
        HeadingLevel::H5 => '5',
        HeadingLevel::H6 => '6',
    };
    let mut v = if close {
        chars_of("</h")
    } else {
        chars_of("<h")
    };
    v.push(d);
    let tail = if close {
        chars_of(">\n")
    } else {
        chars_of(">")
    };
    append(&mut v, tail.as_slice());
    string_of(v.as_slice())
}

fn wrapped_markup(before: &str, middle: &str, after: &str) -> (s: String)
    ensures
        s@ == before@ + middle@ + after@,
{
    let mut v = chars_of(before);
    let m = chars_of(middle);
    append(&mut v, m.as_slice());
    let a = chars_of(after);
    append(&mut v, a.as_slice());
    string_of(v.as_slice())
}

#[verifier::rlimit(80)]
#[verifier::spinoff_prover]
fn html_step_exec(in_diagram: &mut bool, source: &mut Vec<char>, out: &mut Vec<HtmlPiece>, e: &Event)
    ensures
        (*final(in_diagram), final(source)@, piece_views(final(out)@)) == ({
            let s = html_step(*old(in_diagram), old(source)@, *e);
            (s.0, s.1, piece_views(old(out)@) + s.2)
        }),
{
    let ghost o0 = piece_views(out@);
    match e {
        Event::Start(Tag::Paragraph) => push_markup(out, "<p>"),
        Event::End(TagEnd::Paragraph) => push_markup(out, "</p>\n"),
        Event::Start(Tag::Heading { level, .. }) => push_piece(
            out,
            HtmlPiece::Markup(heading_markup(false, *level)),
        ),
        Event::End(TagEnd::Heading(level)) => push_piece(
            out,
            HtmlPiece::Markup(heading_markup(true, *level)),
        ),
        Event::Start(Tag::BlockQuote) => push_markup(out, "<blockquote>"),
        Event::End(TagEnd::BlockQuote) => push_markup(out, "</blockquote>\n"),
        Event::Start(Tag::FencedCode(lang)) => {
            let l = chars_of(lang.as_str());
            if starts_with_str(l.as_slice(), "mermaid") {
                *in_diagram = true;
                *source = Vec::new();
            } else {
                push_markup(out, "<pre><code>");
            }
        },
        Event::Start(Tag::IndentedCode) => push_markup(out, "<pre><code>"),
        Event::End(TagEnd::CodeBlock) => {
            if *in_diagram {
                *in_diagram = false;
                let src = string_of(source.as_slice());
                let ps = diagram_pieces(src.as_str());
                push_all(out, ps);
            } else {
                push_markup(out, "</code></pre>\n");
            }
        },
        Event::Start(Tag::List(start)) => {
            if start.is_some() {
                push_markup(out, "<ol>\n");
            } else {
                push_markup(out, "<ul>\n");
            }
        },
        Event::End(TagEnd::List(ordered)) => {
            if *ordered {
                push_markup(out, "</ol>\n");
            } else {
                push_markup(out, "</ul>\n");
            }
        },
        Event::Start(Tag::Item) => push_markup(out, "<li>"),
        Event::End(TagEnd::Item) => push_markup(out, "</li>\n"),
        Event::Start(Tag::Table(_)) => push_markup(out, "<table>\n"),
        Event::End(TagEnd::Table) => push_markup(out, "</table>\n"),
        Event::Start(Tag::TableHead) => push_markup(out, "  <thead>\n    <tr>\n"),
        Event::End(TagEnd::TableHead) => push_markup(out, "    </tr>\n  </thead>\n  <tbody>\n"),
        Event::Start(Tag::TableRow) => push_markup(out, "    <tr>\n"),
        Event::End(TagEnd::TableRow) => push_markup(out, "    </tr>\n"),
        Event::Start(Tag::TableCell) => push_markup(out, "      <td>"),
        Event::End(TagEnd::TableCell) => push_markup(out, "</td>\n"),
        Event::Start(Tag::Emphasis) => push_markup(out, "<em>"),
        Event::End(TagEnd::Emphasis) => push_markup(out, "</em>"),
        Event::Start(Tag::Strong) => push_markup(out, "<strong>"),
        Event::End(TagEnd::Strong) => push_markup(out, "</strong>"),
        Event::Start(Tag::Strikethrough) => push_markup(out, "<del>"),
        Event::End(TagEnd::Strikethrough) => push_markup(out, "</del>"),
        Event::Start(Tag::Link { dest_url, .. }) => push_piece(
            out,
            HtmlPiece::Markup(wrapped_markup("<a href=\"", dest_url.as_str(), "\">")),
        ),
        Event::End(TagEnd::Link) => push_markup(out, "</a>"),
        Event::Start(Tag::Image { dest_url, .. }) => push_piece(
            out,
            HtmlPiece::Markup(wrapped_markup("<img src=\"", dest_url.as_str(), "\" alt=\"")),
        ),
        Event::End(TagEnd::Image) => push_markup(out, "\" />"),
        Event::Code(t) => {
            push_markup(out, "<code>");
            push_escaped(out, t.as_str());
            push_markup(out, "</code>");
        },
        Event::Text(t) => {
            if *in_diagram {
                let v = chars_of(t.as_str());
                append(source, v.as_slice());
            } else {
                push_escaped(out, t.as_str());
            }
        },
        Event::Html(h) => push_markup(out, h.as_str()),
        Event::InlineHtml(h) => push_markup(out, h.as_str()),
        Event::FootnoteReference(l) => {
            push_markup(out, "<sup class=\"footnote-ref\" data-label=\"");
            push_escaped(out, l.as_str());
            push_markup(out, "\">[");
            push_escaped(out, l.as_str());
            push_markup(out, "]</sup>");
        },
        Event::Start(Tag::FootnoteDefinition(l)) => {
            push_markup(out, "<div class=\"footnote-def\" data-label=\"");
            push_escaped(out, l.as_str());
            push_markup(out, "\"><b>[");
            push_escaped(out, l.as_str());
            push_markup(out, "]</b>: ");
        },
        Event::End(TagEnd::FootnoteDefinition) => push_markup(out, "</div>\n"),
        Event::SoftBreak | Event::HardBreak => push_markup(out, "<br />"),
        Event::InlineMath(m) => {
            let converted = if middle_converts_of(chars_of(m.as_str()).as_slice()) {
                latex_mathml(m.as_str(), false)
            } else {
                None
            };
            let ps = math_pieces(m.as_str(), false, converted);
            push_all(out, ps);
        },
        Event::DisplayMath(m) => {
            let converted = if middle_converts_of(chars_of(m.as_str()).as_slice()) {
                latex_mathml(m.as_str(), true)
            } else {
                None
            };
            let ps = math_pieces(m.as_str(), true, converted);
            push_all(out, ps);
        },
        Event::Rule => push_markup(out, "<div style=\"page-break-after: always;\"></div>\n"),
        _ => {},
    }
    proof {
        assert(piece_views(out@) =~= o0 + html_step(*old(in_diagram), old(source)@, *e).2);
    }
}

fn html_head_exec(config: &Config) -> (out: Vec<HtmlPiece>)
    ensures
        piece_views(out@) == html_head(*config),
{
    let mut out: Vec<HtmlPiece> = Vec::new();
    proof {
        assert(piece_views(out@) =~= seq![]);
    }
    push_markup(
        &mut out,
        "<!DOCTYPE html>\n<html lang=\"en\">\n<head>\n  <meta charset=\"UTF-8\">\n  <meta name=\"viewport\" content=\"width=device-width, initial-scale=1.0\">\n  <title>",
    );
    push_escaped(&mut out, config.title.as_str());
    push_markup(
        &mut out,
        "</title>\n  <style>\n    body { font-family: 'Helvetica Neue', Arial, sans-serif; line-height: 1.6; max-width: 900px; margin: 0 auto; padding: 2rem; color: #333; }\n    img { max-width: 100%; height: auto; }\n    table { border-collapse: collapse; width: 100%; margin: 1rem 0; }\n    th, td { border: 1px solid #ddd; padding: 8px; text-align: left; }\n    th { background-color: #f5f5f5; }\n    pre { background: #f4f4f4; padding: 1rem; overflow-x: auto; }\n    blockquote { border-left: 4px solid #0366d6; margin: 0; padding-left: 1rem; color: #666; }\n    .footnote-ref { color: #0f6cbd; text-decoration: none; cursor: pointer; font-weight: 500; }\n    .footnote-def { border-top: 1px solid #ddd; margin-top: 2rem; padding-top: 1rem; font-size: 0.9em; }\n  </style>\n</head>\n<body>\n",
    );
    if chars_of(config.title.as_str()).len() > 0 {
        push_markup(&mut out, "  <h1>");
        push_escaped(&mut out, config.title.as_str());
        push_markup(&mut out, "</h1>\n");
    }
    if chars_of(config.author.as_str()).len() > 0 {
        push_markup(&mut out, "  <p><strong>");
        push_escaped(&mut out, config.author.as_str());
        push_markup(&mut out, "</strong></p>\n");
    }
    proof {
        assert(piece_views(out@) =~= html_head(*config));
    }
    out
}

/// The HTML page of a document, given as its events: the pieces in the
/// order they are written. Escaping the text pieces and drawing the
/// diagram pieces gives the page.
pub fn html_pieces(events: &[Event], config: &Config) -> (r: Vec<HtmlPiece>)
    ensures
        piece_views(r@) == html_document(events@, *config),
{
    let mut out = html_head_exec(config);
    let ghost head = piece_views(out@);
    let mut in_diagram = false;
    let mut source: Vec<char> = Vec::new();
    let n = events.len();
    for i in 0..n
        invariant
            n == events@.len(),
            (in_diagram, source@, piece_views(out@)) == ({
                let r = html_run(events@.take(i as int));
                (r.0, r.1, head + r.2)
            }),
    {
        html_step_exec(&mut in_diagram, &mut source, &mut out, &events[i]);
        proof {
            assert(events@.take(i + 1).drop_last() =~= events@.take(i as int));
            assert(events@.take(i + 1).last() == events@[i as int]);
            assert(piece_views(out@) =~= head + html_run(events@.take(i + 1)).2);
        }
    }
    proof {
        assert(events@.take(n as int) =~= events@);
    }
    push_markup(&mut out, "</body>\n</html>");
    out
}

/// Inline styles and blocks write their HTML tags after what came before,
/// whatever came before, as markup that is not escaped: emphasis `<em>`,
/// strong text `<strong>`, strike-through `<del>`, each closed by its end
/// tag; a paragraph `<p>`, a quote `<blockquote>`, a list item `<li>`, a
/// level 1, 2 or 3 heading `<h1>`, `<h2>` or `<h3>`. Text outside a diagram
/// is written escaped, as it is.
pub proof fn law_html_inline_markup(es: Seq<Event>, id: Option<String>, t: String)
    ensures
        html_run(es.push(Event::Start(Tag::Emphasis))) == (html_run(es).0, html_run(es).1, html_run(es).2 + seq![PieceView::Markup("<em>"@)]),
        html_run(es.push(Event::End(TagEnd::Emphasis))) == (html_run(es).0, html_run(es).1, html_run(es).2 + seq![PieceView::Markup("</em>"@)]),
        html_run(es.push(Event::Start(Tag::Strong))) == (html_run(es).0, html_run(es).1, html_run(es).2 + seq![PieceView::Markup("<strong>"@)]),
        html_run(es.push(Event::End(TagEnd::Strong))) == (html_run(es).0, html_run(es).1, html_run(es).2 + seq![PieceView::Markup("</strong>"@)]),
        html_run(es.push(Event::Start(Tag::Strikethrough))) == (html_run(es).0, html_run(es).1, html_run(es).2 + seq![PieceView::Markup("<del>"@)]),
        html_run(es.push(Event::End(TagEnd::Strikethrough))) == (html_run(es).0, html_run(es).1, html_run(es).2 + seq![PieceView::Markup("</del>"@)]),
        html_run(es.push(Event::Start(Tag::Paragraph))) == (html_run(es).0, html_run(es).1, html_run(es).2 + seq![PieceView::Markup("<p>"@)]),
        html_run(es.push(Event::End(TagEnd::Paragraph))) == (html_run(es).0, html_run(es).1, html_run(es).2 + seq![PieceView::Markup("</p>\n"@)]),
        html_run(es.push(Event::Start(Tag::BlockQuote))) == (html_run(es).0, html_run(es).1, html_run(es).2 + seq![PieceView::Markup("<blockquote>"@)]),
        html_run(es.push(Event::Start(Tag::Item))) == (html_run(es).0, html_run(es).1, html_run(es).2 + seq![PieceView::Markup("<li>"@)]),
        html_run(es.push(Event::Start(Tag::Heading { level: HeadingLevel::H1, id }))) == (html_run(es).0, html_run(es).1, html_run(es).2 + seq![PieceView::Markup("<h1>"@)]),
        html_run(es.push(Event::Start(Tag::Heading { level: HeadingLevel::H2, id }))) == (html_run(es).0, html_run(es).1, html_run(es).2 + seq![PieceView::Markup("<h2>"@)]),
        html_run(es.push(Event::Start(Tag::Heading { level: HeadingLevel::H3, id }))) == (html_run(es).0, html_run(es).1, html_run(es).2 + seq![PieceView::Markup("<h3>"@)]),
        html_run(es.push(Event::End(TagEnd::Heading(HeadingLevel::H1)))) == (html_run(es).0, html_run(es).1, html_run(es).2 + seq![PieceView::Markup("</h1>\n"@)]),
        !html_run(es).0 ==> html_run(es.push(Event::Text(t))) == (html_run(es).0, html_run(es).1, html_run(es).2 + seq![PieceView::Escaped(t@)]),
{
    reveal_strlit("<h");
    reveal_strlit(">");
    reveal_strlit("</h");
    reveal_strlit(">\n");
    reveal_strlit("<h1>");
    reveal_strlit("<h2>");
    reveal_strlit("<h3>");
    reveal_strlit("</h1>\n");
    assert("<h1>"@ =~= "<h"@ + seq!['1'] + ">"@);
    assert("<h2>"@ =~= "<h"@ + seq!['2'] + ">"@);
    assert("<h3>"@ =~= "<h"@ + seq!['3'] + ">"@);
    assert("</h1>\n"@ =~= "</h"@ + seq!['1'] + ">\n"@);
    assert(es.push(Event::Start(Tag::Emphasis)).drop_last() =~= es);
    assert(es.push(Event::End(TagEnd::Emphasis)).drop_last() =~= es);
    assert(es.push(Event::Start(Tag::Strong)).drop_last() =~= es);
    assert(es.push(Event::End(TagEnd::Strong)).drop_last() =~= es);
    assert(es.push(Event::Start(Tag::Strikethrough)).drop_last() =~= es);
    assert(es.push(Event::End(TagEnd::Strikethrough)).drop_last() =~= es);
    assert(es.push(Event::Start(Tag::Paragraph)).drop_last() =~= es);
    assert(es.push(Event::End(TagEnd::Paragraph)).drop_last() =~= es);
    assert(es.push(Event::Start(Tag::BlockQuote)).drop_last() =~= es);
    assert(es.push(Event::Start(Tag::Item)).drop_last() =~= es);
    assert(es.push(Event::Start(Tag::Heading { level: HeadingLevel::H1, id })).drop_last() =~= es);
    assert(es.push(Event::Start(Tag::Heading { level: HeadingLevel::H2, id })).drop_last() =~= es);
    assert(es.push(Event::Start(Tag::Heading { level: HeadingLevel::H3, id })).drop_last() =~= es);
    assert(es.push(Event::End(TagEnd::Heading(HeadingLevel::H1))).drop_last() =~= es);
    assert(es.push(Event::Text(t)).drop_last() =~= es);
}

/// Lists open `<ol>` when numbered and `<ul>` otherwise and close the
/// same list; inline code is escaped inside `<code>`; a link opens
/// `<a href="url">` and an image `<img src="url" alt="`; table cells are
/// `<td>` elements; a line break is `<br />`.
pub proof fn law_html_blocks_and_inlines(es: Seq<Event>, n: u64, t: String, url: String)
    ensures
        html_run(es.push(Event::Start(Tag::List(Some(n))))) == (html_run(es).0, html_run(es).1, html_run(es).2 + seq![PieceView::Markup("<ol>\n"@)]),
        html_run(es.push(Event::Start(Tag::List(None)))) == (html_run(es).0, html_run(es).1, html_run(es).2 + seq![PieceView::Markup("<ul>\n"@)]),
        html_run(es.push(Event::End(TagEnd::List(true)))) == (html_run(es).0, html_run(es).1, html_run(es).2 + seq![PieceView::Markup("</ol>\n"@)]),
        html_run(es.push(Event::End(TagEnd::List(false)))) == (html_run(es).0, html_run(es).1, html_run(es).2 + seq![PieceView::Markup("</ul>\n"@)]),
        html_run(es.push(Event::Code(t))) == (html_run(es).0, html_run(es).1, html_run(es).2 + seq![PieceView::Markup("<code>"@), PieceView::Escaped(t@), PieceView::Markup("</code>"@)]),
        html_run(es.push(Event::Start(Tag::Link { dest_url: url, title: t }))) == (html_run(es).0, html_run(es).1, html_run(es).2 + seq![PieceView::Markup("<a href=\""@ + url@ + "\">"@)]),
        html_run(es.push(Event::End(TagEnd::Link))) == (html_run(es).0, html_run(es).1, html_run(es).2 + seq![PieceView::Markup("</a>"@)]),
        html_run(es.push(Event::Start(Tag::Image { dest_url: url, title: t }))) == (html_run(es).0, html_run(es).1, html_run(es).2 + seq![PieceView::Markup("<img src=\""@ + url@ + "\" alt=\""@)]),
        html_run(es.push(Event::Start(Tag::TableCell))) == (html_run(es).0, html_run(es).1, html_run(es).2 + seq![PieceView::Markup("      <td>"@)]),
        html_run(es.push(Event::End(TagEnd::TableCell))) == (html_run(es).0, html_run(es).1, html_run(es).2 + seq![PieceView::Markup("</td>\n"@)]),
        html_run(es.push(Event::SoftBreak)) == (html_run(es).0, html_run(es).1, html_run(es).2 + seq![PieceView::Markup("<br />"@)]),
{
    assert(es.push(Event::Start(Tag::List(Some(n)))).drop_last() =~= es);
    assert(es.push(Event::Start(Tag::List(None))).drop_last() =~= es);
    assert(es.push(Event::End(TagEnd::List(true))).drop_last() =~= es);
    assert(es.push(Event::End(TagEnd::List(false))).drop_last() =~= es);
    assert(es.push(Event::Code(t)).drop_last() =~= es);
    assert(es.push(Event::Start(Tag::Link { dest_url: url, title: t })).drop_last() =~= es);
    assert(es.push(Event::End(TagEnd::Link)).drop_last() =~= es);
    assert(es.push(Event::Start(Tag::Image { dest_url: url, title: t })).drop_last() =~= es);
    assert(es.push(Event::Start(Tag::TableCell)).drop_last() =~= es);
    assert(es.push(Event::End(TagEnd::TableCell)).drop_last() =~= es);
    assert(es.push(Event::SoftBreak).drop_last() =~= es);
}

} // verus!
