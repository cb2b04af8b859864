//! Lexical analysis of Mermaid flowchart syntax.

use vstd::prelude::*;
use crate::text::{
    chars_of, find_at, find_char, find_from, index_of, is_whitespace, is_ws, lemma_find_from_bounds,
    seq_eq, slice_of, string_of, trim, trim_of, eq_str,
};
use crate::unicode::{char_is_alphabetic, char_is_alphanumeric, unicode_alphabetic, unicode_alphanumeric};

verus! {

#[derive(Debug, Clone, PartialEq, Eq)]
pub enum Token {
    /// `graph`, `flowchart` or `sequenceDiagram`
    KeywordGraph,
    /// `TB`, `TD`, `BT`, `RL`, `LR`
    Direction(String),
    /// A node identifier (e.g., `A`, `Node1`)
    Identifier(String),
    /// A node label with its shape (`[Label]`, `(Label)`, `((Label))`, `{Label}`)
    NodeLabel { text: String, shape: NodeShape },
    /// An edge without a label (`-->`, `---`)
    Edge(EdgeStyle),
    /// An edge with an attached label.
    LabeledEdge { style: EdgeStyle, label: String },
    /// Newline or semicolon ending a statement
    StatementTerminator,
    /// End of input
    Eof,
}

#[derive(Debug, Clone, Copy, PartialEq, Eq)]
pub enum NodeShape {
    /// `[Text]`
    Square,
    /// `(Text)`
    Round,
    /// `((Text))`
    Circle,
    /// `{Text}`
    Rhombus,
}

#[derive(Debug, Clone, Copy, PartialEq, Eq)]
pub enum EdgeStyle {
    /// `---`
    SolidLine,
    /// `-->`
    SolidArrow,
    /// `-.->`
    DottedArrow,
    /// `==>`
    ThickArrow,
}

#[derive(Debug, Clone, Copy, PartialEq, Eq)]
pub enum LexerError {
    /// An unexpected character (kept for callers that match on it; the lexer
    /// skips characters it does not know).
    UnexpectedChar(char),
    /// A `[`, `(`, `((` or `{` label that is never closed.
    UnterminatedLabel,
}

/// The mathematical content of a token.
pub ghost enum SpecToken {
    KeywordGraph,
    Direction(Seq<char>),
    Identifier(Seq<char>),
    NodeLabel { text: Seq<char>, shape: NodeShape },
    Edge(EdgeStyle),
    LabeledEdge { style: EdgeStyle, label: Seq<char> },
    StatementTerminator,
    Eof,
}

impl View for Token {
    type V = SpecToken;

    open spec fn view(&self) -> SpecToken {
        match self {
            Token::KeywordGraph => SpecToken::KeywordGraph,
            Token::Direction(d) => SpecToken::Direction(d@),
            Token::Identifier(i) => SpecToken::Identifier(i@),
            Token::NodeLabel { text, shape } => SpecToken::NodeLabel { text: text@, shape: *shape },
            Token::Edge(s) => SpecToken::Edge(*s),
            Token::LabeledEdge { style, label } => SpecToken::LabeledEdge {
                style: *style,
                label: label@,
            },
            Token::StatementTerminator => SpecToken::StatementTerminator,
            Token::Eof => SpecToken::Eof,
        }
    }
}

pub open spec fn token_views(v: Seq<Token>) -> Seq<SpecToken> {
    v.map_values(|t: Token| t@)
}

// ── Character runs ───────────────────────────────────────────────────────────

/// The end of the run of characters satisfying `p` that starts at `i`.
pub open spec fn run_end(s: Seq<char>, i: int, p: spec_fn(char) -> bool) -> int
    decreases s.len() - i,
{
    if 0 <= i < s.len() && p(s[i]) {
        run_end(s, i + 1, p)
    } else {
        i
    }
}

pub proof fn lemma_run_end(s: Seq<char>, i: int, p: spec_fn(char) -> bool)
    requires
        0 <= i <= s.len(),
    ensures
        i <= run_end(s, i, p) <= s.len(),
        forall|j: int| i <= j < run_end(s, i, p) ==> p(s[j]),
        run_end(s, i, p) < s.len() ==> !p(s[run_end(s, i, p)]),
    decreases s.len() - i,
{
    if i < s.len() && p(s[i]) {
        lemma_run_end(s, i + 1, p);
    }
}

pub open spec fn ident_pred() -> spec_fn(char) -> bool {
    |c: char| unicode_alphanumeric(c) || c == '_'
}

pub open spec fn non_ws_pred() -> spec_fn(char) -> bool {
    |c: char| !is_ws(c)
}

pub open spec fn not_eol_pred() -> spec_fn(char) -> bool {
    |c: char| c != '\n' && c != ';'
}

pub open spec fn not_nl_pred() -> spec_fn(char) -> bool {
    |c: char| c != '\n'
}

pub open spec fn edge_char_pred() -> spec_fn(char) -> bool {
    |c: char| c == '<' || c == '-' || c == '=' || c == '.' || c == '>'
}

pub open spec fn inline_space_pred() -> spec_fn(char) -> bool {
    |c: char| is_ws(c) && c != '\n'
}

pub open spec fn not_bar_pred() -> spec_fn(char) -> bool {
    |c: char| c != '|'
}

// ── Edges ────────────────────────────────────────────────────────────────────

/// The length of the first of `-->`, `==>`, `-.->`, `---`, `<-->`, `<==>`
/// (in that order) that starts at `q`.
pub open spec fn edge_suffix_at(s: Seq<char>, q: int) -> Option<int> {
    if crate::text::occurs_at(s, "-->"@, q) {
        Some(3)
    } else if crate::text::occurs_at(s, "==>"@, q) {
        Some(3)
    } else if crate::text::occurs_at(s, "-.->"@, q) {
        Some(4)
    } else if crate::text::occurs_at(s, "---"@, q) {
        Some(3)
    } else if crate::text::occurs_at(s, "<-->"@, q) {
        Some(4)
    } else if crate::text::occurs_at(s, "<==>"@, q) {
        Some(4)
    } else {
        None
    }
}

/// The first position at or after `q`, on the same line, where an edge
/// arrow begins, with the arrow's length.
pub open spec fn next_arrow(s: Seq<char>, q: int) -> Option<(int, int)>
    decreases s.len() - q,
{
    if q < 0 || q >= s.len() || s[q] == '\n' {
        None
    } else {
        match edge_suffix_at(s, q) {
            Some(l) => Some((q, l)),
            None => next_arrow(s, q + 1),
        }
    }
}

pub open spec fn style_of(leading: Seq<char>) -> EdgeStyle {
    if index_of(leading, '=') is Some {
        EdgeStyle::ThickArrow
    } else if index_of(leading, '.') is Some {
        EdgeStyle::DottedArrow
    } else if index_of(leading, '>') is Some {
        EdgeStyle::SolidArrow
    } else {
        EdgeStyle::SolidLine
    }
}

/// Whether the arrow characters only open a link whose text follows, as
/// `--`, `==` and `-.` do in `A == text ==> B`: they hold no `>` and are not
/// the plain line `---`.
pub open spec fn opens_label(leading: Seq<char>) -> bool {
    index_of(leading, '>') is None && leading != "---"@
}

/// The edge token that starts at `pos` and where lexing resumes after it.
///
/// The arrow characters are read first; then spaces on the same line. A
/// `|label|` there becomes the label. When the arrow only opens a link
/// (`--`, `==`, `-.`), the text up to the next arrow on the line becomes the
/// label when it is not blank, and the position moves past that arrow. A
/// complete arrow such as `-->` takes no such text, so `A --> B --> C` is a
/// chain.
pub open spec fn edge_token(s: Seq<char>, pos: int) -> (SpecToken, int) {
    let e1 = run_end(s, pos, edge_char_pred());
    let style = style_of(s.subrange(pos, e1));
    let p2 = run_end(s, e1, inline_space_pred());
    if p2 < s.len() && s[p2] == '|' {
        let q = run_end(s, p2 + 1, not_bar_pred());
        let label = trim(s.subrange(p2 + 1, q));
        let next = if q < s.len() {
            q + 1
        } else {
            q
        };
        (SpecToken::LabeledEdge { style, label }, next)
    } else if !opens_label(s.subrange(pos, e1)) {
        (SpecToken::Edge(style), p2)
    } else {
        match next_arrow(s, p2) {
            Some((q, l)) => {
                let text = trim(s.subrange(p2, q));
                if text.len() > 0 {
                    (SpecToken::LabeledEdge { style, label: text }, q + l)
                } else {
                    (SpecToken::Edge(style), p2)
                }
            },
            None => (SpecToken::Edge(style), p2),
        }
    }
}

// ── Words ────────────────────────────────────────────────────────────────────

pub open spec fn graph_keyword(w: Seq<char>) -> bool {
    w == "graph"@ || w == "flowchart"@ || w == "sequenceDiagram"@
}

pub open spec fn direction_word(w: Seq<char>) -> bool {
    w == "TB"@ || w == "TD"@ || w == "BT"@ || w == "RL"@ || w == "LR"@
}

/// Words that start a line the flowchart lexer skips up to the next `\n` or `;`.
pub open spec fn skipped_word(w: Seq<char>) -> bool {
    ||| w == "classDef"@
    ||| w == "class"@
    ||| w == "direction"@
    ||| w == "participant"@
    ||| w == "Note"@
    ||| w == "note"@
    ||| w == "loop"@
    ||| w == "alt"@
    ||| w == "else"@
    ||| w == "activate"@
    ||| w == "deactivate"@
}

/// `toks` with a statement terminator added unless it already ends with one.
pub open spec fn push_terminator(toks: Seq<SpecToken>) -> Seq<SpecToken> {
    if toks.len() > 0 && toks.last() == SpecToken::StatementTerminator {
        toks
    } else {
        toks.push(SpecToken::StatementTerminator)
    }
}

pub enum LexOutcome {
    Next(int, Seq<SpecToken>),
    Fail(LexerError),
}

/// One step of the lexer at `pos`: the tokens emitted and where it resumes,
/// or the error that stops it.
pub open spec fn lex_step(s: Seq<char>, pos: int, toks: Seq<SpecToken>) -> LexOutcome {
    let c = s[pos];
    if is_ws(c) {
        LexOutcome::Next(
            pos + 1,
            if c == '\n' {
                push_terminator(toks)
            } else {
                toks
            },
        )
    } else if c == ';' {
        LexOutcome::Next(pos + 1, push_terminator(toks))
    } else if pos + 2 < s.len() && c == ':' && s[pos + 1] == ':' && s[pos + 2] == ':' {
        LexOutcome::Next(run_end(s, pos + 3, non_ws_pred()), toks)
    } else if unicode_alphabetic(c) {
        let e = run_end(s, pos + 1, ident_pred());
        let w = s.subrange(pos, e);
        if graph_keyword(w) {
            LexOutcome::Next(e, toks.push(SpecToken::KeywordGraph))
        } else if direction_word(w) {
            LexOutcome::Next(e, toks.push(SpecToken::Direction(w)))
        } else if skipped_word(w) {
            LexOutcome::Next(run_end(s, e, not_eol_pred()), toks)
        } else if w == "subgraph"@ {
            LexOutcome::Next(run_end(s, e, not_nl_pred()), toks)
        } else if w == "end"@ {
            LexOutcome::Next(e, toks)
        } else {
            LexOutcome::Next(e, toks.push(SpecToken::Identifier(w)))
        }
    } else if c == '-' || c == '=' || c == '.' || c == '<' {
        let (t, p) = edge_token(s, pos);
        LexOutcome::Next(p, toks.push(t))
    } else if c == '[' {
        match find_from(s, seq![']'], pos + 1) {
            None => LexOutcome::Fail(LexerError::UnterminatedLabel),
            Some(q) => LexOutcome::Next(
                q + 1,
                toks.push(SpecToken::NodeLabel { text: s.subrange(pos + 1, q), shape: NodeShape::Square }),
            ),
        }
    } else if c == '(' {
        if pos + 1 < s.len() && s[pos + 1] == '(' {
            match find_from(s, seq![')', ')'], pos + 2) {
                None => LexOutcome::Fail(LexerError::UnterminatedLabel),
                Some(q) => LexOutcome::Next(
                    q + 2,
                    toks.push(SpecToken::NodeLabel { text: s.subrange(pos + 2, q), shape: NodeShape::Circle }),
                ),
            }
        } else {
            match find_from(s, seq![')'], pos + 1) {
                None => LexOutcome::Fail(LexerError::UnterminatedLabel),
                Some(q) => LexOutcome::Next(
                    q + 1,
                    toks.push(SpecToken::NodeLabel { text: s.subrange(pos + 1, q), shape: NodeShape::Round }),
                ),
            }
        }
    } else if c == '{' {
        match find_from(s, seq!['}'], pos + 1) {
            None => LexOutcome::Fail(LexerError::UnterminatedLabel),
            Some(q) => LexOutcome::Next(
                q + 1,
                toks.push(SpecToken::NodeLabel { text: s.subrange(pos + 1, q), shape: NodeShape::Rhombus }),
            ),
        }
    } else {
        LexOutcome::Next(pos + 1, toks)
    }
}

pub proof fn lemma_next_arrow(s: Seq<char>, q: int)
    requires
        0 <= q,
    ensures
        next_arrow(s, q) matches Some((a, l)) ==> q <= a < s.len() && (l == 3 || l == 4)
            && edge_suffix_at(s, a) == Some(l) && a + l <= s.len(),
    decreases s.len() - q,
{
    reveal_strlit("-->");
    reveal_strlit("==>");
    reveal_strlit("-.->");
    reveal_strlit("---");
    reveal_strlit("<-->");
    reveal_strlit("<==>");
    if q < s.len() && s[q] != '\n' {
        if edge_suffix_at(s, q) is None {
            lemma_next_arrow(s, q + 1);
        }
    }
}

pub proof fn lemma_lex_step_progress(s: Seq<char>, pos: int, toks: Seq<SpecToken>)
    requires
        0 <= pos < s.len(),
    ensures
        lex_step(s, pos, toks) matches LexOutcome::Next(p, _) ==> pos < p <= s.len(),
{
    reveal_strlit("-->");
    reveal_strlit("==>");
    reveal_strlit("-.->");
    reveal_strlit("---");
    reveal_strlit("<-->");
    reveal_strlit("<==>");
    lemma_run_end(s, pos + 1, ident_pred());
    if pos + 3 <= s.len() {
        lemma_run_end(s, pos + 3, non_ws_pred());
    }
    let e = run_end(s, pos + 1, ident_pred());
    lemma_run_end(s, e, not_eol_pred());
    lemma_run_end(s, e, not_nl_pred());
    lemma_run_end(s, pos, edge_char_pred());
    let e1 = run_end(s, pos, edge_char_pred());
    lemma_run_end(s, e1, inline_space_pred());
    let p2 = run_end(s, e1, inline_space_pred());
    if p2 + 1 <= s.len() {
        lemma_run_end(s, p2 + 1, not_bar_pred());
    }
    lemma_next_arrow(s, p2);
    lemma_find_from_bounds(s, seq![']'], pos + 1);
    lemma_find_from_bounds(s, seq!['}'], pos + 1);
    lemma_find_from_bounds(s, seq![')'], pos + 1);
    lemma_find_from_bounds(s, seq![')', ')'], pos + 2);
}

/// The tokens of `s` from `pos` on, after the tokens `toks` already read.
pub open spec fn lex_from(s: Seq<char>, pos: int, toks: Seq<SpecToken>) -> Result<
    Seq<SpecToken>,
    LexerError,
>
    decreases s.len() - pos,
{
    if pos < 0 || pos >= s.len() {
        Ok(toks.push(SpecToken::Eof))
    } else {
        proof {
            lemma_lex_step_progress(s, pos, toks);
        }
        match lex_step(s, pos, toks) {
            LexOutcome::Fail(e) => Err(e),
            LexOutcome::Next(p, t) => lex_from(s, p, t),
        }
    }
}

/// The token sequence of a Mermaid flowchart source.
pub open spec fn lex_spec(s: Seq<char>) -> Result<Seq<SpecToken>, LexerError> {
    lex_from(s, 0, seq![])
}

// ── Executable lexer ─────────────────────────────────────────────────────────

fn ident_run_end(s: &[char], start: usize) -> (r: usize)
    requires
        start <= s@.len(),
    ensures
        r == run_end(s@, start as int, ident_pred()),
        start <= r <= s@.len(),
{
    let n = s.len();
    let mut i = start;
    proof {
        lemma_run_end(s@, start as int, ident_pred());
    }
    while i < n && (char_is_alphanumeric(s[i]) || s[i] == '_')
        invariant
            start <= i <= n == s@.len(),
            run_end(s@, start as int, ident_pred()) == run_end(s@, i as int, ident_pred()),
        decreases n - i,
    {
        i += 1;
    }
    i
}

fn non_ws_run_end(s: &[char], start: usize) -> (r: usize)
    requires
        start <= s@.len(),
    ensures
        r == run_end(s@, start as int, non_ws_pred()),
        start <= r <= s@.len(),
{
    let n = s.len();
    let mut i = start;
    proof {
        lemma_run_end(s@, start as int, non_ws_pred());
    }
    while i < n && (!is_whitespace(s[i]))
        invariant
            start <= i <= n == s@.len(),
            run_end(s@, start as int, non_ws_pred()) == run_end(s@, i as int, non_ws_pred()),
        decreases n - i,
    {
        i += 1;
    }
    i
}

fn not_eol_run_end(s: &[char], start: usize) -> (r: usize)
    requires
        start <= s@.len(),
    ensures
        r == run_end(s@, start as int, not_eol_pred()),
        start <= r <= s@.len(),
{
    let n = s.len();
    let mut i = start;
    proof {
        lemma_run_end(s@, start as int, not_eol_pred());
    }
    while i < n && (s[i] != '\n' && s[i] != ';')
        invariant
            start <= i <= n == s@.len(),
            run_end(s@, start as int, not_eol_pred()) == run_end(s@, i as int, not_eol_pred()),
        decreases n - i,
    {
        i += 1;
    }
    i
}

fn not_nl_run_end(s: &[char], start: usize) -> (r: usize)
    requires
        start <= s@.len(),
    ensures
        r == run_end(s@, start as int, not_nl_pred()),
        start <= r <= s@.len(),
{
    let n = s.len();
    let mut i = start;
    proof {
        lemma_run_end(s@, start as int, not_nl_pred());
    }
    while i < n && (s[i] != '\n')
        invariant
            start <= i <= n == s@.len(),
            run_end(s@, start as int, not_nl_pred()) == run_end(s@, i as int, not_nl_pred()),
        decreases n - i,
    {
        i += 1;
    }
    i
}

fn edge_char_run_end(s: &[char], start: usize) -> (r: usize)
    requires
        start <= s@.len(),
    ensures
        r == run_end(s@, start as int, edge_char_pred()),
        start <= r <= s@.len(),
{
    let n = s.len();
    let mut i = start;
    proof {
        lemma_run_end(s@, start as int, edge_char_pred());
    }
    while i < n && (s[i] == '<' || s[i] == '-' || s[i] == '=' || s[i] == '.' || s[i] == '>')
        invariant
            start <= i <= n == s@.len(),
            run_end(s@, start as int, edge_char_pred()) == run_end(s@, i as int, edge_char_pred()),
        decreases n - i,
    {
        i += 1;
    }
    i
}

fn inline_space_run_end(s: &[char], start: usize) -> (r: usize)
    requires
        start <= s@.len(),
    ensures
        r == run_end(s@, start as int, inline_space_pred()),
        start <= r <= s@.len(),
{
    let n = s.len();
    let mut i = start;
    proof {
        lemma_run_end(s@, start as int, inline_space_pred());
    }
    while i < n && (is_whitespace(s[i]) && s[i] != '\n')
        invariant
            start <= i <= n == s@.len(),
            run_end(s@, start as int, inline_space_pred()) == run_end(s@, i as int, inline_space_pred()),
        decreases n - i,
    {
        i += 1;
    }
    i
}

fn not_bar_run_end(s: &[char], start: usize) -> (r: usize)
    requires
        start <= s@.len(),
    ensures
        r == run_end(s@, start as int, not_bar_pred()),
        start <= r <= s@.len(),
{
    let n = s.len();
    let mut i = start;
    proof {
        lemma_run_end(s@, start as int, not_bar_pred());
    }
    while i < n && (s[i] != '|')
        invariant
            start <= i <= n == s@.len(),
            run_end(s@, start as int, not_bar_pred()) == run_end(s@, i as int, not_bar_pred()),
        decreases n - i,
    {
        i += 1;
    }
    i
}

fn edge_suffix_len(s: &[char], q: usize) -> (r: Option<usize>)
    ensures
        r matches Some(l) ==> edge_suffix_at(s@, q as int) == Some(l as int),
        r is None ==> edge_suffix_at(s@, q as int) is None,
{
    if crate::text::is_at(s, chars_of("-->").as_slice(), q) {
        Some(3)
    } else if crate::text::is_at(s, chars_of("==>").as_slice(), q) {
        Some(3)
    } else if crate::text::is_at(s, chars_of("-.->").as_slice(), q) {
        Some(4)
    } else if crate::text::is_at(s, chars_of("---").as_slice(), q) {
        Some(3)
    } else if crate::text::is_at(s, chars_of("<-->").as_slice(), q) {
        Some(4)
    } else if crate::text::is_at(s, chars_of("<==>").as_slice(), q) {
        Some(4)
    } else {
        None
    }
}

fn find_next_arrow(s: &[char], start: usize) -> (r: Option<(usize, usize)>)
    requires
        start <= s@.len(),
    ensures
        r matches Some((a, l)) ==> next_arrow(s@, start as int) == Some((a as int, l as int)),
        r is None ==> next_arrow(s@, start as int) is None,
{
    let n = s.len();
    let mut q = start;
    while q < n && s[q] != '\n'
        invariant
            start <= q <= n == s@.len(),
            next_arrow(s@, start as int) == next_arrow(s@, q as int),
        decreases n - q,
    {
        match edge_suffix_len(s, q) {
            Some(l) => {
                return Some((q, l));
            },
            None => {},
        }
        q += 1;
    }
    None
}

fn style_from(leading: &[char]) -> (r: EdgeStyle)
    ensures
        r == style_of(leading@),
{
    if find_char(leading, '=').is_some() {
        EdgeStyle::ThickArrow
    } else if find_char(leading, '.').is_some() {
        EdgeStyle::DottedArrow
    } else if find_char(leading, '>').is_some() {
        EdgeStyle::SolidArrow
    } else {
        EdgeStyle::SolidLine
    }
}

/// Reads the edge token that starts at `pos` (an arrow character).
fn lex_edge_token(chars: &[char], pos: usize) -> (r: (Token, usize))
    requires
        pos < chars@.len(),
    ensures
        (r.0@, r.1 as int) == edge_token(chars@, pos as int),
        r.1 <= chars@.len(),
{
    let n = chars.len();
    let e1 = edge_char_run_end(chars, pos);
    let leading = slice_of(chars, pos, e1);
    let style = style_from(leading.as_slice());
    let p2 = inline_space_run_end(chars, e1);
    if p2 < n && chars[p2] == '|' {
        let q = not_bar_run_end(chars, p2 + 1);
        let text = slice_of(chars, p2 + 1, q);
        let label = trim_of(text.as_slice());
        let next = if q < n {
            q + 1
        } else {
            q
        };
        (Token::LabeledEdge { style, label: string_of(label.as_slice()) }, next)
    } else if find_char(leading.as_slice(), '>').is_some() || eq_str(leading.as_slice(), "---") {
        (Token::Edge(style), p2)
    } else {
        proof {
            lemma_next_arrow(chars@, p2 as int);
        }
        match find_next_arrow(chars, p2) {
            Some((q, l)) => {
                let text = slice_of(chars, p2, q);
                let label = trim_of(text.as_slice());
                if label.len() > 0 {
                    (Token::LabeledEdge { style, label: string_of(label.as_slice()) }, q + l)
                } else {
                    (Token::Edge(style), p2)
                }
            },
            None => (Token::Edge(style), p2),
        }
    }
}

fn push_terminator_exec(tokens: &mut Vec<Token>)
    ensures
        token_views(final(tokens)@) == push_terminator(token_views(old(tokens)@)),
{
    let ghost before = tokens@;
    let n = tokens.len();
    let already = n > 0 && match &tokens[n - 1] {
        Token::StatementTerminator => true,
        _ => false,
    };
    if !already {
        tokens.push(Token::StatementTerminator);
        assert(token_views(tokens@) == token_views(before).push(SpecToken::StatementTerminator));
    } else {
        assert(token_views(before).last() == SpecToken::StatementTerminator);
    }
}

fn word_is(w: &[char], lit: &str) -> (r: bool)
    ensures
        r == (w@ == lit@),
{
    eq_str(w, lit)
}

fn label_until(
    chars: &[char],
    from: usize,
    close: &[char],
    shape: NodeShape,
    tokens: &mut Vec<Token>,
) -> (r: Option<usize>)
    requires
        from <= chars@.len(),
    ensures
        r matches Some(next) ==> (find_from(chars@, close@, from as int) matches Some(q) && next
            == q + close@.len() && token_views(final(tokens)@) == token_views(old(tokens)@).push(
            SpecToken::NodeLabel { text: chars@.subrange(from as int, q), shape },
        )),
        r is None ==> find_from(chars@, close@, from as int) is None,
{
    proof {
        lemma_find_from_bounds(chars@, close@, from as int);
    }
    match find_at(chars, close, from) {
        Some(q) => {
            let cl = chars.len();
            assert(q + close@.len() <= cl);
            let text = slice_of(chars, from, q);
            let ghost before = tokens@;
            tokens.push(Token::NodeLabel { text: string_of(text.as_slice()), shape });
            assert(token_views(tokens@) == token_views(before).push(
                SpecToken::NodeLabel { text: text@, shape },
            ));
            Some(q + close.len())
        },
        None => None,
    }
}

/// Tokenizes a Mermaid flowchart string.
pub fn lex(input: &str) -> (r: Result<Vec<Token>, LexerError>)
    ensures
        r matches Ok(toks) ==> lex_spec(input@) == Ok::<Seq<SpecToken>, LexerError>(
            token_views(toks@),
        ),
        r matches Err(e) ==> lex_spec(input@) == Err::<Seq<SpecToken>, LexerError>(e),
{
    let chars_v = chars_of(input);
    let chars = chars_v.as_slice();
    let n = chars.len();
    let mut tokens: Vec<Token> = Vec::new();
    let mut pos: usize = 0;
    assert(token_views(tokens@) =~= Seq::<SpecToken>::empty());
    while pos < n
        invariant
            pos <= n == chars@.len(),
            chars@ == input@,
            lex_spec(input@) == lex_from(chars@, pos as int, token_views(tokens@)),
        decreases n - pos,
    {
        proof {
            lemma_lex_step_progress(chars@, pos as int, token_views(tokens@));
        }
        let ghost before = token_views(tokens@);
        let c = chars[pos];
        if is_whitespace(c) {
            if c == '\n' {
                push_terminator_exec(&mut tokens);
            }
            pos += 1;
        } else if c == ';' {
            push_terminator_exec(&mut tokens);
            pos += 1;
        } else if n - pos > 2 && c == ':' && chars[pos + 1] == ':' && chars[pos + 2] == ':' {
            pos = non_ws_run_end(chars, pos + 3);
        } else if char_is_alphabetic(c) {
            let e = ident_run_end(chars, pos + 1);
            let w = slice_of(chars, pos, e);
            let ws = w.as_slice();
            if word_is(ws, "graph") || word_is(ws, "flowchart") || word_is(ws, "sequenceDiagram") {
                tokens.push(Token::KeywordGraph);
                assert(token_views(tokens@) == before.push(SpecToken::KeywordGraph));
                pos = e;
            } else if word_is(ws, "TB") || word_is(ws, "TD") || word_is(ws, "BT") || word_is(ws, "RL")
                || word_is(ws, "LR") {
                tokens.push(Token::Direction(string_of(ws)));
                assert(token_views(tokens@) == before.push(SpecToken::Direction(w@)));
                pos = e;
            } else if word_is(ws, "classDef") || word_is(ws, "class") || word_is(ws, "direction")
                || word_is(ws, "participant") || word_is(ws, "Note") || word_is(ws, "note")
                || word_is(ws, "loop") || word_is(ws, "alt") || word_is(ws, "else") || word_is(
                ws,
                "activate",
            ) || word_is(ws, "deactivate") {
                pos = not_eol_run_end(chars, e);
            } else if word_is(ws, "subgraph") {
                pos = not_nl_run_end(chars, e);
            } else if word_is(ws, "end") {
                pos = e;
            } else {
                tokens.push(Token::Identifier(string_of(ws)));
                assert(token_views(tokens@) == before.push(SpecToken::Identifier(w@)));
                pos = e;
            }
        } else if c == '-' || c == '=' || c == '.' || c == '<' {
            let (t, p) = lex_edge_token(chars, pos);
            tokens.push(t);
            assert(token_views(tokens@) == before.push(t@));
            pos = p;
        } else if c == '[' {
            let close = vec![']'];
            assert(close@ == seq![']']);
            match label_until(chars, pos + 1, close.as_slice(), NodeShape::Square, &mut tokens) {
                Some(p) => {
                    pos = p;
                },
                None => {
                    return Err(LexerError::UnterminatedLabel);
                },
            }
        } else if c == '(' {
            if pos + 1 < n && chars[pos + 1] == '(' {
                let close = vec![')', ')'];
                assert(close@ == seq![')', ')']);
                match label_until(chars, pos + 2, close.as_slice(), NodeShape::Circle, &mut tokens) {
                    Some(p) => {
                        pos = p;
                    },
                    None => {
                        return Err(LexerError::UnterminatedLabel);
                    },
                }
            } else {
                let close = vec![')'];
                assert(close@ == seq![')']);
                match label_until(chars, pos + 1, close.as_slice(), NodeShape::Round, &mut tokens) {
                    Some(p) => {
                        pos = p;
                    },
                    None => {
                        return Err(LexerError::UnterminatedLabel);
                    },
                }
            }
        } else if c == '{' {
            let close = vec!['}'];
            assert(close@ == seq!['}']);
            match label_until(chars, pos + 1, close.as_slice(), NodeShape::Rhombus, &mut tokens) {
                Some(p) => {
                    pos = p;
                },
                None => {
                    return Err(LexerError::UnterminatedLabel);
                },
            }
        } else {
            pos += 1;
        }
    }
    let ghost before = token_views(tokens@);
    tokens.push(Token::Eof);
    assert(token_views(tokens@) == before.push(SpecToken::Eof));
    Ok(tokens)
}

// ── Shape of the token stream ────────────────────────────────────────────────

/// Tokens read so far: no end marker among them, and never two statement
/// terminators in a row.
pub open spec fn well_formed_prefix(toks: Seq<SpecToken>) -> bool {
    &&& forall|i: int| 0 <= i < toks.len() ==> toks[i] != SpecToken::Eof
    &&& forall|i: int, j: int|
        0 <= i && j == i + 1 && j < toks.len() ==> !(#[trigger] toks[i] == SpecToken::StatementTerminator
            && #[trigger] toks[j] == SpecToken::StatementTerminator)
}

proof fn lemma_push_keeps_prefix(toks: Seq<SpecToken>, x: SpecToken)
    requires
        well_formed_prefix(toks),
        x != SpecToken::Eof,
        x != SpecToken::StatementTerminator,
    ensures
        well_formed_prefix(toks.push(x)),
{
    assert forall|i: int, j: int| 0 <= i && j == i + 1 && j < toks.push(x).len() implies !(
    #[trigger] toks.push(x)[i] == SpecToken::StatementTerminator && #[trigger] toks.push(x)[j]
        == SpecToken::StatementTerminator) by {
        if j < toks.len() {
            assert(toks.push(x)[i] == toks[i] && toks.push(x)[j] == toks[j]);
        }
    }
}

proof fn lemma_terminator_keeps_prefix(toks: Seq<SpecToken>)
    requires
        well_formed_prefix(toks),
    ensures
        well_formed_prefix(push_terminator(toks)),
{
    let t = push_terminator(toks);
    if !(toks.len() > 0 && toks.last() == SpecToken::StatementTerminator) {
        assert forall|i: int, j: int| 0 <= i && j == i + 1 && j < t.len() implies !(
        #[trigger] t[i] == SpecToken::StatementTerminator && #[trigger] t[j]
            == SpecToken::StatementTerminator) by {
            if j < toks.len() {
                assert(t[i] == toks[i] && t[j] == toks[j]);
            } else {
                assert(t[i] == toks.last());
            }
        }
    }
}

proof fn lemma_step_keeps_prefix(s: Seq<char>, pos: int, toks: Seq<SpecToken>)
    requires
        0 <= pos < s.len(),
        well_formed_prefix(toks),
    ensures
        lex_step(s, pos, toks) matches LexOutcome::Next(_, t) ==> well_formed_prefix(t),
{
    let c = s[pos];
    lemma_terminator_keeps_prefix(toks);
    if c == '-' || c == '=' || c == '.' || c == '<' {
        let (t, p) = edge_token(s, pos);
        assert(t is Edge || t is LabeledEdge);
        lemma_push_keeps_prefix(toks, t);
    }
    if unicode_alphabetic(c) {
        let e = run_end(s, pos + 1, ident_pred());
        let w = s.subrange(pos, e);
        lemma_push_keeps_prefix(toks, SpecToken::KeywordGraph);
        lemma_push_keeps_prefix(toks, SpecToken::Direction(w));
        lemma_push_keeps_prefix(toks, SpecToken::Identifier(w));
    }
    if c == '[' || c == '(' || c == '{' {
        assert forall|text: Seq<char>, shape: NodeShape| #[trigger] well_formed_prefix(
            toks.push(SpecToken::NodeLabel { text, shape }),
        ) by {
            lemma_push_keeps_prefix(toks, SpecToken::NodeLabel { text, shape });
        }
    }
}

proof fn lemma_lex_from_shape(s: Seq<char>, pos: int, toks: Seq<SpecToken>)
    requires
        0 <= pos,
        well_formed_prefix(toks),
    ensures
        lex_from(s, pos, toks) matches Ok(ts) ==> ts.len() > 0 && ts.last() == SpecToken::Eof
            && well_formed_prefix(ts.drop_last()),
    decreases s.len() - pos,
{
    if pos >= s.len() {
        assert(toks.push(SpecToken::Eof).drop_last() =~= toks);
    } else {
        lemma_lex_step_progress(s, pos, toks);
        lemma_step_keeps_prefix(s, pos, toks);
        if let LexOutcome::Next(p, t) = lex_step(s, pos, toks) {
            lemma_lex_from_shape(s, p, t);
        }
    }
}

/// The lexer's tokens end with exactly one end marker, and the statement
/// terminators it emits are never repeated back to back.
pub proof fn law_lex_ends_with_eof(input: Seq<char>)
    ensures
        lex_spec(input) matches Ok(ts) ==> ts.len() > 0 && ts.last() == SpecToken::Eof
            && well_formed_prefix(ts.drop_last()),
{
    lemma_lex_from_shape(input, 0, seq![]);
}

} // verus!
