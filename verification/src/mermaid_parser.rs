//! The flowchart AST and its parser over lexer tokens.

use vstd::prelude::*;
use crate::config::copy_opt;
use crate::mermaid_graph::{SpecStyle, StyleSpec};
use crate::mermaid_lexer::{EdgeStyle, LexerError, NodeShape, SpecToken, Token, token_views};
use crate::text::{seq_eq, string_of};
use crate::mermaid_lexer::{lex, lex_spec};
use crate::mermaid_source::{
    extract_node_styles, extract_subgraphs, node_styles, normalize_flowchart_source,
    normalized_source, subgraph_views, subgraphs_of, SpecSubgraph,
};

verus! {

/// A parsed Mermaid flowchart.
#[derive(Debug, Clone, PartialEq, Eq)]
pub struct Ast {
    /// Graph direction (e.g., "TD", "LR")
    pub direction: String,
    /// Statements in the graph (node declarations, edges, chains)
    pub statements: Vec<Statement>,
    pub subgraphs: Vec<SubgraphDef>,
}

#[derive(Debug, Clone, PartialEq, Eq)]
pub enum Statement {
    /// A standalone node definition (e.g., `A[Label]`)
    Node(NodeDef),
    /// A single connection `A --> B`
    Edge(EdgeDef),
    /// A chain of connections `A --> B --> C`
    Chain(Vec<NodeDef>, Vec<EdgeLink>),
}

#[derive(Debug, Clone, PartialEq, Eq)]
pub struct NodeDef {
    pub id: String,
    pub label: Option<String>,
    pub shape: Option<NodeShape>,
    pub style: Option<StyleSpec>,
}

#[derive(Debug, Clone, PartialEq, Eq)]
pub struct EdgeDef {
    pub from: NodeDef,
    pub to: NodeDef,
    pub style: EdgeStyle,
    pub label: Option<String>,
}

#[derive(Debug, Clone, PartialEq, Eq)]
pub struct EdgeLink {
    pub style: EdgeStyle,
    pub label: Option<String>,
}

#[derive(Debug, Clone, PartialEq, Eq)]
pub struct SubgraphDef {
    pub title: String,
    pub nodes: Vec<String>,
    pub parent_title: Option<String>,
    pub depth: usize,
}

#[derive(Debug)]
pub enum ParseError {
    Lex(LexerError),
    UnexpectedToken(Token),
    UnexpectedEof,
    MissingGraphKeyword,
}

// ── Views ────────────────────────────────────────────────────────────────────

pub open spec fn opt_seq(o: Option<String>) -> Option<Seq<char>> {
    match o {
        Some(s) => Some(s@),
        None => None,
    }
}

pub ghost struct SpecNodeDef {
    pub id: Seq<char>,
    pub label: Option<Seq<char>>,
    pub shape: Option<NodeShape>,
    pub style: Option<SpecStyle>,
}

pub ghost struct SpecEdgeLink {
    pub style: EdgeStyle,
    pub label: Option<Seq<char>>,
}

pub ghost enum SpecStatement {
    Node(SpecNodeDef),
    Edge { from: SpecNodeDef, to: SpecNodeDef, style: EdgeStyle, label: Option<Seq<char>> },
    Chain(Seq<SpecNodeDef>, Seq<SpecEdgeLink>),
}

pub ghost enum SpecParseError {
    Lex(LexerError),
    UnexpectedToken(SpecToken),
    UnexpectedEof,
    MissingGraphKeyword,
}

impl View for NodeDef {
    type V = SpecNodeDef;

    open spec fn view(&self) -> SpecNodeDef {
        SpecNodeDef {
            id: self.id@,
            label: opt_seq(self.label),
            shape: self.shape,
            style: match self.style {
                Some(st) => Some(st@),
                None => None,
            },
        }
    }
}

impl View for EdgeLink {
    type V = SpecEdgeLink;

    open spec fn view(&self) -> SpecEdgeLink {
        SpecEdgeLink { style: self.style, label: opt_seq(self.label) }
    }
}

pub open spec fn node_views(v: Seq<NodeDef>) -> Seq<SpecNodeDef> {
    v.map_values(|n: NodeDef| n@)
}

pub open spec fn link_views(v: Seq<EdgeLink>) -> Seq<SpecEdgeLink> {
    v.map_values(|l: EdgeLink| l@)
}

impl View for Statement {
    type V = SpecStatement;

    open spec fn view(&self) -> SpecStatement {
        match self {
            Statement::Node(n) => SpecStatement::Node(n@),
            Statement::Edge(e) => SpecStatement::Edge {
                from: e.from@,
                to: e.to@,
                style: e.style,
                label: opt_seq(e.label),
            },
            Statement::Chain(ns, ls) => SpecStatement::Chain(node_views(ns@), link_views(ls@)),
        }
    }
}

pub open spec fn statement_views(v: Seq<Statement>) -> Seq<SpecStatement> {
    v.map_values(|s: Statement| s@)
}

impl View for ParseError {
    type V = SpecParseError;

    open spec fn view(&self) -> SpecParseError {
        match self {
            ParseError::Lex(e) => SpecParseError::Lex(*e),
            ParseError::UnexpectedToken(t) => SpecParseError::UnexpectedToken(t@),
            ParseError::UnexpectedEof => SpecParseError::UnexpectedEof,
            ParseError::MissingGraphKeyword => SpecParseError::MissingGraphKeyword,
        }
    }
}

// ── The grammar ──────────────────────────────────────────────────────────────

pub open spec fn style_views(v: Seq<(String, StyleSpec)>) -> Seq<(Seq<char>, SpecStyle)> {
    v.map_values(|p: (String, StyleSpec)| (p.0@, p.1@))
}

/// The style recorded for `id` (the first entry with that name).
pub open spec fn lookup_style(st: Seq<(Seq<char>, SpecStyle)>, id: Seq<char>) -> Option<SpecStyle>
    decreases st.len(),
{
    if st.len() == 0 {
        None
    } else if st[0].0 == id {
        Some(st[0].1)
    } else {
        lookup_style(st.drop_first(), id)
    }
}

pub open spec fn tok(toks: Seq<SpecToken>, i: int) -> Option<SpecToken> {
    if 0 <= i < toks.len() {
        Some(toks[i])
    } else {
        None
    }
}

/// A node: an identifier, optionally followed by a shaped label.
pub open spec fn node_def_at(toks: Seq<SpecToken>, i: int, st: Seq<(Seq<char>, SpecStyle)>) -> Result<
    (SpecNodeDef, int),
    SpecParseError,
> {
    match tok(toks, i) {
        None => Err(SpecParseError::UnexpectedEof),
        Some(SpecToken::Identifier(name)) => match tok(toks, i + 1) {
            Some(SpecToken::NodeLabel { text, shape }) => Ok(
                (
                    SpecNodeDef {
                        id: name,
                        label: Some(text),
                        shape: Some(shape),
                        style: lookup_style(st, name),
                    },
                    i + 2,
                ),
            ),
            _ => Ok(
                (SpecNodeDef { id: name, label: None, shape: None, style: lookup_style(st, name) }, i + 1),
            ),
        },
        Some(t) => Err(SpecParseError::UnexpectedToken(t)),
    }
}

pub open spec fn link_at(toks: Seq<SpecToken>, i: int) -> Option<SpecEdgeLink> {
    match tok(toks, i) {
        Some(SpecToken::Edge(style)) => Some(SpecEdgeLink { style, label: None }),
        Some(SpecToken::LabeledEdge { style, label }) => Some(SpecEdgeLink { style, label: Some(label) }),
        _ => None,
    }
}

/// The rest of a chain: while an edge follows, an edge and a node.
pub open spec fn chain_from(
    toks: Seq<SpecToken>,
    i: int,
    st: Seq<(Seq<char>, SpecStyle)>,
    nodes: Seq<SpecNodeDef>,
    links: Seq<SpecEdgeLink>,
) -> Result<(Seq<SpecNodeDef>, Seq<SpecEdgeLink>, int), SpecParseError>
    decreases toks.len() - i,
{
    match link_at(toks, i) {
        None => Ok((nodes, links, i)),
        Some(l) => match node_def_at(toks, i + 1, st) {
            Err(e) => Err(e),
            Ok((n, j)) => chain_from(toks, j, st, nodes.push(n), links.push(l)),
        },
    }
}

/// A statement from its nodes and links: one node, one edge, or a chain.
pub open spec fn as_statement(nodes: Seq<SpecNodeDef>, links: Seq<SpecEdgeLink>) -> SpecStatement {
    if nodes.len() == 1 {
        SpecStatement::Node(nodes[0])
    } else if nodes.len() == 2 {
        SpecStatement::Edge { from: nodes[0], to: nodes[1], style: links[0].style, label: links[0].label }
    } else {
        SpecStatement::Chain(nodes, links)
    }
}

pub open spec fn statement_at(toks: Seq<SpecToken>, i: int, st: Seq<(Seq<char>, SpecStyle)>) -> Result<
    (SpecStatement, int),
    SpecParseError,
> {
    match node_def_at(toks, i, st) {
        Err(e) => Err(e),
        Ok((n, j)) => match chain_from(toks, j, st, seq![n], seq![]) {
            Err(e) => Err(e),
            Ok((nodes, links, k)) => Ok((as_statement(nodes, links), k)),
        },
    }
}

/// The position after the statement terminators that start at `i`.
pub open spec fn skip_terminators(toks: Seq<SpecToken>, i: int) -> int
    decreases toks.len() - i,
{
    if tok(toks, i) == Some(SpecToken::StatementTerminator) {
        skip_terminators(toks, i + 1)
    } else {
        i
    }
}

pub proof fn lemma_chain_progress(
    toks: Seq<SpecToken>,
    i: int,
    st: Seq<(Seq<char>, SpecStyle)>,
    nodes: Seq<SpecNodeDef>,
    links: Seq<SpecEdgeLink>,
)
    ensures
        chain_from(toks, i, st, nodes, links) matches Ok((ns, ls, k)) ==> k >= i && ns.len() == nodes.len()
            + ls.len() - links.len() && ls.len() >= links.len() && (i <= toks.len() ==> k
            <= toks.len()),
    decreases toks.len() - i,
{
    match link_at(toks, i) {
        None => {},
        Some(l) => match node_def_at(toks, i + 1, st) {
            Err(e) => {},
            Ok((n, j)) => {
                lemma_chain_progress(toks, j, st, nodes.push(n), links.push(l));
            },
        },
    }
}

pub proof fn lemma_skip_terminators(toks: Seq<SpecToken>, i: int)
    ensures
        skip_terminators(toks, i) >= i,
        i <= toks.len() ==> skip_terminators(toks, i) <= toks.len(),
    decreases toks.len() - i,
{
    if tok(toks, i) == Some(SpecToken::StatementTerminator) {
        lemma_skip_terminators(toks, i + 1);
    }
}

/// The statements from position `i` on, after those in `acc`.
pub open spec fn statements_from(
    toks: Seq<SpecToken>,
    i: int,
    st: Seq<(Seq<char>, SpecStyle)>,
    acc: Seq<SpecStatement>,
) -> Result<Seq<SpecStatement>, SpecParseError>
    decreases toks.len() - i,
{
    match tok(toks, i) {
        None => Ok(acc),
        Some(SpecToken::Eof) => Ok(acc),
        Some(SpecToken::StatementTerminator) => {
            proof {
                lemma_skip_terminators(toks, i + 1);
            }
            statements_from(toks, skip_terminators(toks, i + 1), st, acc)
        },
        Some(_) => match statement_at(toks, i, st) {
            Err(e) => Err(e),
            Ok((s, k)) => {
                proof {
                    match node_def_at(toks, i, st) {
                        Ok((n, j)) => {
                            lemma_chain_progress(toks, j, st, seq![n], seq![]);
                        },
                        Err(_) => {},
                    }
                }
                statements_from(toks, k, st, acc.push(s))
            },
        },
    }
}

/// The direction and statements of a flowchart token sequence: the
/// `graph`/`flowchart` keyword, a direction, then statements separated by
/// terminators up to the end of input.
pub open spec fn parse_tokens(toks: Seq<SpecToken>, st: Seq<(Seq<char>, SpecStyle)>) -> Result<
    (Seq<char>, Seq<SpecStatement>),
    SpecParseError,
> {
    match tok(toks, 0) {
        None => Err(SpecParseError::UnexpectedEof),
        Some(t) => if t != SpecToken::KeywordGraph {
            Err(SpecParseError::MissingGraphKeyword)
        } else {
            match tok(toks, 1) {
                None => Err(SpecParseError::UnexpectedEof),
                Some(SpecToken::Direction(d)) => match statements_from(
                    toks,
                    skip_terminators(toks, 2),
                    st,
                    seq![],
                ) {
                    Ok(stmts) => Ok((d, stmts)),
                    Err(e) => Err(e),
                },
                Some(t2) => Err(SpecParseError::UnexpectedToken(t2)),
            }
        },
    }
}

// ── The parser ───────────────────────────────────────────────────────────────

pub fn copy_token(t: &Token) -> (r: Token)
    ensures
        r@ == t@,
{
    match t {
        Token::KeywordGraph => Token::KeywordGraph,
        Token::Direction(d) => Token::Direction(d.clone()),
        Token::Identifier(i) => Token::Identifier(i.clone()),
        Token::NodeLabel { text, shape } => Token::NodeLabel { text: text.clone(), shape: *shape },
        Token::Edge(s) => Token::Edge(*s),
        Token::LabeledEdge { style, label } => Token::LabeledEdge { style: *style, label: label.clone() },
        Token::StatementTerminator => Token::StatementTerminator,
        Token::Eof => Token::Eof,
    }
}

fn lookup_style_exec(st: &Vec<(String, StyleSpec)>, id: &String) -> (r: Option<StyleSpec>)
    ensures
        match r {
            Some(x) => lookup_style(style_views(st@), id@) == Some(x@),
            None => lookup_style(style_views(st@), id@) is None,
        },
{
    let n = st.len();
    let idv = crate::text::chars_of(id.as_str());
    let ghost all = style_views(st@);
    assert(all.skip(0) == all);
    for i in 0..n
        invariant
            n == st@.len(),
            all == style_views(st@),
            idv@ == id@,
            lookup_style(all, id@) == lookup_style(all.skip(i as int), id@),
    {
        assert(all.skip(i as int)[0] == (st@[i as int].0@, st@[i as int].1@));
        assert(all.skip(i as int).drop_first() == all.skip(i + 1));
        let name = crate::text::chars_of(st[i].0.as_str());
        if seq_eq(name.as_slice(), idv.as_slice()) {
            return Some(st[i].1.copied());
        }
    }
    assert(all.skip(n as int) == Seq::<(Seq<char>, SpecStyle)>::empty());
    None
}

fn node_def_exec(toks: &[Token], i: usize, st: &Vec<(String, StyleSpec)>) -> (r: Result<
    (NodeDef, usize),
    ParseError,
>)
    ensures
        r matches Ok((n, j)) ==> node_def_at(token_views(toks@), i as int, style_views(st@)) == Ok::<
            (SpecNodeDef, int),
            SpecParseError,
        >((n@, j as int)) && j <= toks@.len(),
        r matches Err(e) ==> node_def_at(token_views(toks@), i as int, style_views(st@)) == Err::<
            (SpecNodeDef, int),
            SpecParseError,
        >(e@),
{
    let n = toks.len();
    if i >= n {
        return Err(ParseError::UnexpectedEof);
    }
    match &toks[i] {
        Token::Identifier(name) => {
            let style = lookup_style_exec(st, name);
            if i + 1 < n {
                match &toks[i + 1] {
                    Token::NodeLabel { text, shape } => {
                        return Ok(
                            (
                                NodeDef {
                                    id: name.clone(),
                                    label: Some(text.clone()),
                                    shape: Some(*shape),
                                    style,
                                },
                                i + 2,
                            ),
                        );
                    },
                    _ => {},
                }
            }
            Ok((NodeDef { id: name.clone(), label: None, shape: None, style }, i + 1))
        },
        t => Err(ParseError::UnexpectedToken(copy_token(t))),
    }
}

fn statement_exec(toks: &[Token], i: usize, st: &Vec<(String, StyleSpec)>) -> (r: Result<
    (Statement, usize),
    ParseError,
>)
    ensures
        r matches Ok((s, k)) ==> statement_at(token_views(toks@), i as int, style_views(st@)) == Ok::<
            (SpecStatement, int),
            SpecParseError,
        >((s@, k as int)) && k <= toks@.len(),
        r matches Err(e) ==> statement_at(token_views(toks@), i as int, style_views(st@)) == Err::<
            (SpecStatement, int),
            SpecParseError,
        >(e@),
{
    let ghost tv = token_views(toks@);
    let ghost sv = style_views(st@);
    let (first, j) = match node_def_exec(toks, i, st) {
        Ok(p) => p,
        Err(e) => {
            return Err(e);
        },
    };
    let ghost first_v = first@;
    let mut nodes: Vec<NodeDef> = Vec::new();
    nodes.push(first);
    let mut links: Vec<EdgeLink> = Vec::new();
    let mut k = j;
    let n = toks.len();
    assert(node_views(nodes@) =~= seq![first_v]);
    assert(link_views(links@) =~= Seq::<SpecEdgeLink>::empty());
    loop
        invariant
            k <= n == toks@.len(),
            tv == token_views(toks@),
            sv == style_views(st@),
            node_views(nodes@).len() == link_views(links@).len() + 1,
            chain_from(tv, j as int, sv, seq![first_v], seq![]) == chain_from(
                tv,
                k as int,
                sv,
                node_views(nodes@),
                link_views(links@),
            ),
            statement_at(tv, i as int, sv) == (match chain_from(tv, j as int, sv, seq![first_v], seq![]) {
                Err(e) => Err(e),
                Ok((ns, ls, kk)) => Ok((as_statement(ns, ls), kk)),
            }),
        ensures
            k <= n == toks@.len(),
            node_views(nodes@).len() == link_views(links@).len() + 1,
            chain_from(tv, j as int, sv, seq![first_v], seq![]) == chain_from(
                tv,
                k as int,
                sv,
                node_views(nodes@),
                link_views(links@),
            ),
            link_at(tv, k as int) is None,
        decreases n - k,
    {
        if k >= n {
            break ;
        }
        let link = match &toks[k] {
            Token::Edge(style) => EdgeLink { style: *style, label: None },
            Token::LabeledEdge { style, label } => EdgeLink { style: *style, label: Some(label.clone()) },
            _ => {
                break ;
            },
        };
        let ghost lv = link@;
        assert(link_at(tv, k as int) == Some(lv));
        let (next, j2) = match node_def_exec(toks, k + 1, st) {
            Ok(p) => p,
            Err(e) => {
                return Err(e);
            },
        };
        let ghost nodes_before = node_views(nodes@);
        let ghost links_before = link_views(links@);
        nodes.push(next);
        links.push(link);
        assert(node_views(nodes@) == nodes_before.push(next@));
        assert(link_views(links@) == links_before.push(lv));
        k = j2;
    }
    let ghost ns = node_views(nodes@);
    let ghost ls = link_views(links@);
    assert(chain_from(tv, k as int, sv, ns, ls) == Ok::<
        (Seq<SpecNodeDef>, Seq<SpecEdgeLink>, int),
        SpecParseError,
    >((ns, ls, k as int)));
    if nodes.len() == 1 {
        let node = nodes.pop().unwrap();
        assert(node@ == ns[0]);
        Ok((Statement::Node(node), k))
    } else if nodes.len() == 2 {
        let to = nodes.pop().unwrap();
        let from = nodes.pop().unwrap();
        let link = links.pop().unwrap();
        assert(to@ == ns[1]);
        assert(from@ == ns[0]);
        assert(link@ == ls[0]);
        Ok((Statement::Edge(EdgeDef { from, to, style: link.style, label: link.label }), k))
    } else {
        Ok((Statement::Chain(nodes, links), k))
    }
}

fn is_terminator(t: &Token) -> (b: bool)
    ensures
        b == (t@ == SpecToken::StatementTerminator),
{
    match t {
        Token::StatementTerminator => true,
        _ => false,
    }
}

/// A flowchart parser over a token sequence, with the node styles that
/// `class` statements assign (one entry per node name).
pub struct Parser {
    tokens: Vec<Token>,
    pos: usize,
    node_styles: Vec<(String, StyleSpec)>,
}

impl Parser {
    pub closed spec fn token_seq(&self) -> Seq<SpecToken> {
        token_views(self.tokens@)
    }

    pub closed spec fn styles(&self) -> Seq<(Seq<char>, SpecStyle)> {
        style_views(self.node_styles@)
    }

    pub closed spec fn position(&self) -> int {
        self.pos as int
    }

    /// The tokens not yet read.
    pub open spec fn unread(&self) -> Seq<SpecToken> {
        if self.position() <= self.token_seq().len() {
            self.token_seq().skip(self.position())
        } else {
            seq![]
        }
    }

    pub fn new(tokens: Vec<Token>, node_styles: Vec<(String, StyleSpec)>) -> (r: Self)
        ensures
            r.token_seq() == token_views(tokens@),
            r.styles() == style_views(node_styles@),
            r.position() == 0,
    {
        Parser { tokens, pos: 0, node_styles }
    }

    /// Parses the unread tokens as a flowchart.
    pub fn parse(&mut self) -> (r: Result<Ast, ParseError>)
        ensures
            r matches Ok(ast) ==> parse_tokens(old(self).unread(), old(self).styles()) == Ok::<
                (Seq<char>, Seq<SpecStatement>),
                SpecParseError,
            >((ast.direction@, statement_views(ast.statements@))) && ast.subgraphs@.len() == 0,
            r matches Err(e) ==> parse_tokens(old(self).unread(), old(self).styles()) == Err::<
                (Seq<char>, Seq<SpecStatement>),
                SpecParseError,
            >(e@),
    {
        let total = self.tokens.len();
        let start = if self.pos <= total {
            self.pos
        } else {
            total
        };
        let toks = &self.tokens.as_slice()[start..total];
        let ghost tv = token_views(toks@);
        let ghost sv = style_views(self.node_styles@);
        assert(tv =~= self.unread());
        let n = toks.len();
        if n == 0 {
            return Err(ParseError::UnexpectedEof);
        }
        match &toks[0] {
            Token::KeywordGraph => {},
            _ => {
                return Err(ParseError::MissingGraphKeyword);
            },
        }
        if n < 2 {
            return Err(ParseError::UnexpectedEof);
        }
        let direction = match &toks[1] {
            Token::Direction(d) => d.clone(),
            t => {
                return Err(ParseError::UnexpectedToken(copy_token(t)));
            },
        };
        let mut i: usize = 2;
        while i < n && is_terminator(&toks[i])
            invariant
                2 <= i <= n == toks@.len(),
                tv == token_views(toks@),
                skip_terminators(tv, 2) == skip_terminators(tv, i as int),
            decreases n - i,
        {
            i += 1;
        }
        let mut statements: Vec<Statement> = Vec::new();
        assert(statement_views(statements@) =~= Seq::<SpecStatement>::empty());
        let ghost target = statements_from(tv, i as int, sv, seq![]);
        assert(parse_tokens(tv, sv) == (match target {
            Ok(stmts) => Ok((direction@, stmts)),
            Err(e) => Err(e),
        }));
        loop
            invariant
                i <= n == toks@.len(),
                tv == token_views(toks@),
                sv == style_views(self.node_styles@),
                target == statements_from(tv, i as int, sv, statement_views(statements@)),
                parse_tokens(tv, sv) == (match target {
                    Ok(stmts) => Ok((direction@, stmts)),
                    Err(e) => Err(e),
                }),
                tv == old(self).unread(),
                sv == old(self).styles(),
            ensures
                target == Ok::<Seq<SpecStatement>, SpecParseError>(statement_views(statements@)),
            decreases n - i,
        {
            if i >= n {
                break ;
            }
            let is_term = match &toks[i] {
                Token::Eof => {
                    break ;
                },
                Token::StatementTerminator => true,
                _ => false,
            };
            if is_term {
                let ghost from = i + 1;
                i += 1;
                while i < n && is_terminator(&toks[i])
                    invariant
                        from <= i <= n == toks@.len(),
                        tv == token_views(toks@),
                        skip_terminators(tv, from) == skip_terminators(tv, i as int),
                    decreases n - i,
                {
                    i += 1;
                }
            } else {
                assert(tok(tv, i as int) == Some(toks@[i as int]@));
                assert(toks@[i as int]@ != SpecToken::Eof);
                assert(toks@[i as int]@ != SpecToken::StatementTerminator);
                let (stmt, k) = match statement_exec(toks, i, &self.node_styles) {
                    Ok(p) => p,
                    Err(e) => {
                        assert(target == Err::<Seq<SpecStatement>, SpecParseError>(e@));
                        return Err(e);
                    },
                };
                proof {
                    match node_def_at(tv, i as int, sv) {
                        Ok((nd, j)) => {
                            lemma_chain_progress(tv, j, sv, seq![nd], seq![]);
                        },
                        Err(_) => {},
                    }
                }
                let ghost before = statement_views(statements@);
                statements.push(stmt);
                assert(statement_views(statements@) == before.push(stmt@));
                i = k;
            }
        }
        self.pos = start + i;
        Ok(Ast { direction, statements, subgraphs: Vec::new() })
    }
}

/// The direction, statements and subgraphs of a flowchart source, or why
/// it is not one: lexing works on the normalized source, node styles and
/// subgraphs come from the raw source.
pub open spec fn parse_spec(s: Seq<char>) -> Result<
    (Seq<char>, Seq<SpecStatement>, Seq<SpecSubgraph>),
    SpecParseError,
> {
    match lex_spec(normalized_source(s)) {
        Err(e) => Err(SpecParseError::Lex(e)),
        Ok(toks) => match parse_tokens(toks, node_styles(s)) {
            Ok((d, stmts)) => Ok((d, stmts, subgraphs_of(s))),
            Err(e) => Err(e),
        },
    }
}

/// Parses a Mermaid flowchart.
pub fn parse(input: &str) -> (r: Result<Ast, ParseError>)
    ensures
        r matches Ok(ast) ==> parse_spec(input@) == Ok::<
            (Seq<char>, Seq<SpecStatement>, Seq<SpecSubgraph>),
            SpecParseError,
        >((ast.direction@, statement_views(ast.statements@), subgraph_views(ast.subgraphs@))),
        r matches Err(e) ==> parse_spec(input@) == Err::<
            (Seq<char>, Seq<SpecStatement>, Seq<SpecSubgraph>),
            SpecParseError,
        >(e@),
{
    let node_styles = extract_node_styles(input);
    let subgraphs = extract_subgraphs(input);
    let normalized = normalize_flowchart_source(input);
    let tokens = match lex(normalized.as_str()) {
        Ok(t) => t,
        Err(e) => {
            return Err(ParseError::Lex(e));
        },
    };
    let mut parser = Parser::new(tokens, node_styles);
    assert(parser.unread() =~= parser.token_seq());
    let mut ast = parser.parse()?;
    ast.subgraphs = subgraphs;
    Ok(ast)
}

} // verus!
