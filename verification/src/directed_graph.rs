//! A flowchart as a directed graph: its nodes with their labels, shapes and
//! styles, in the order they first appear, and its edges in source order.

use vstd::prelude::*;
use crate::config::copy_opt;
use crate::mermaid_graph::{
    edge_views, merge_style, new_style, no_style, opt_chars, overlay, sanitize_label, sanitized,
    subgraph_list_views, Edge, SpecEdge, SpecStyle, StyleSpec, Subgraph,
};
use crate::mermaid_lexer::{EdgeStyle, NodeShape};
use crate::mermaid_parser::{
    lemma_chain_progress, lemma_skip_terminators, node_def_at, parse, parse_spec, parse_tokens,
    ParseError, SpecParseError,
    skip_terminators, statement_at, statement_views, statements_from, tok, Ast, EdgeLink, NodeDef,
    SpecEdgeLink, SpecNodeDef, SpecStatement, Statement,
};
use crate::mermaid_source::{node_styles, normalized_source, str_views, subgraph_views, SpecSubgraph};
use crate::mermaid_lexer::{lex_spec, SpecToken};
use crate::text::{chars_of, seq_eq};

verus! {

/// A node of the graph.
#[derive(Debug, Clone)]
pub struct NodeDetails {
    pub id: String,
    pub label: String,
    pub shape: Option<NodeShape>,
    pub style: StyleSpec,
}

pub ghost struct SpecNode {
    pub id: Seq<char>,
    pub label: Seq<char>,
    pub shape: Option<NodeShape>,
    pub style: SpecStyle,
}

impl View for NodeDetails {
    type V = SpecNode;

    open spec fn view(&self) -> SpecNode {
        SpecNode { id: self.id@, label: self.label@, shape: self.shape, style: self.style@ }
    }
}

pub open spec fn detail_views(v: Seq<NodeDetails>) -> Seq<SpecNode> {
    v.map_values(|n: NodeDetails| n@)
}

/// A flowchart as a graph.
///
/// The nodes are kept in a `Vec` in the order of their first appearance,
/// each id once (`wf`), and looked up by id; the order is what the layout
/// walks, so the graph's behaviour does not hang on a hash order.
#[derive(Debug, Clone)]
pub struct DirectedGraph {
    pub direction: String,
    pub nodes: Vec<NodeDetails>,
    pub edges: Vec<Edge>,
    pub subgraphs: Vec<Subgraph>,
}

pub ghost struct GraphView {
    pub direction: Seq<char>,
    pub nodes: Seq<SpecNode>,
    pub edges: Seq<SpecEdge>,
    pub subgraphs: Seq<SpecSubgraph>,
}

impl View for DirectedGraph {
    type V = GraphView;

    open spec fn view(&self) -> GraphView {
        GraphView {
            direction: self.direction@,
            nodes: detail_views(self.nodes@),
            edges: edge_views(self.edges@),
            subgraphs: subgraph_list_views(self.subgraphs@),
        }
    }
}

/// No two nodes share an id.
pub open spec fn ids_distinct(nodes: Seq<SpecNode>) -> bool {
    forall|i: int, j: int| 0 <= i < j < nodes.len() ==> nodes[i].id != nodes[j].id
}

impl DirectedGraph {
    /// The graph holds each node id once.
    pub open spec fn wf(&self) -> bool {
        ids_distinct(self@.nodes)
    }
}

/// The position of the node with id `id`.
pub open spec fn find_node(nodes: Seq<SpecNode>, id: Seq<char>) -> Option<int>
    decreases nodes.len(),
{
    if nodes.len() == 0 {
        None
    } else {
        match find_node(nodes.drop_last(), id) {
            Some(k) => Some(k),
            None => if nodes.last().id == id {
                Some(nodes.len() - 1)
            } else {
                None
            },
        }
    }
}

pub proof fn lemma_find_node(nodes: Seq<SpecNode>, id: Seq<char>)
    ensures
        find_node(nodes, id) matches Some(k) ==> 0 <= k < nodes.len() && nodes[k].id == id
            && forall|j: int| 0 <= j < k ==> nodes[j].id != id,
        find_node(nodes, id) is None ==> forall|j: int| 0 <= j < nodes.len() ==> nodes[j].id != id,
    decreases nodes.len(),
{
    if nodes.len() > 0 {
        lemma_find_node(nodes.drop_last(), id);
        assert forall|j: int| 0 <= j < nodes.len() - 1 implies nodes[j] == nodes.drop_last()[j] by {}
    }
}

/// The nodes after declaring `id` with an optional label, shape and style:
/// a new id is appended, labelled by its id when no label is given; a known
/// node takes the label (and a given shape) only while its label is still
/// its id, and the given style is laid over its own.
pub open spec fn added_node(
    nodes: Seq<SpecNode>,
    id: Seq<char>,
    label: Option<Seq<char>>,
    shape: Option<NodeShape>,
    style: Option<SpecStyle>,
) -> Seq<SpecNode> {
    match find_node(nodes, id) {
        None => nodes.push(
            SpecNode {
                id,
                label: sanitized(
                    match label {
                        Some(l) => l,
                        None => id,
                    },
                ),
                shape,
                style: match style {
                    Some(s) => s,
                    None => no_style(),
                },
            },
        ),
        Some(k) => {
            let n = nodes[k];
            let relabeled = if label is Some && n.label == n.id {
                SpecNode {
                    id: n.id,
                    label: sanitized(label->0),
                    shape: if shape is Some {
                        shape
                    } else {
                        n.shape
                    },
                    style: n.style,
                }
            } else {
                n
            };
            let restyled = match style {
                Some(s) => SpecNode {
                    id: relabeled.id,
                    label: relabeled.label,
                    shape: relabeled.shape,
                    style: overlay(relabeled.style, s),
                },
                None => relabeled,
            };
            nodes.update(k, restyled)
        },
    }
}

pub open spec fn opt_style(o: Option<StyleSpec>) -> Option<SpecStyle> {
    match o {
        Some(s) => Some(s@),
        None => None,
    }
}

fn same_text(a: &String, b: &str) -> (r: bool)
    ensures
        r == (a@ == b@),
{
    let av = chars_of(a.as_str());
    let bv = chars_of(b);
    seq_eq(av.as_slice(), bv.as_slice())
}

fn node_position(nodes: &Vec<NodeDetails>, id: &str) -> (r: Option<usize>)
    ensures
        r matches Some(k) ==> find_node(detail_views(nodes@), id@) == Some(k as int),
        r is None ==> find_node(detail_views(nodes@), id@) is None,
{
    let ghost w = detail_views(nodes@);
    proof {
        lemma_find_node(w, id@);
    }
    let n = nodes.len();
    let mut i: usize = 0;
    while i < n
        invariant
            n == nodes@.len() == w.len(),
            w == detail_views(nodes@),
            i <= n,
            forall|j: int| 0 <= j < i ==> w[j].id != id@,
            find_node(w, id@) matches Some(k) ==> 0 <= k < w.len() && w[k].id == id@ && forall|
                j: int,
            | 0 <= j < k ==> w[j].id != id@,
            find_node(w, id@) is None ==> forall|j: int| 0 <= j < w.len() ==> w[j].id != id@,
        decreases n - i,
    {
        if same_text(&nodes[i].id, id) {
            assert(w[i as int].id == id@);
            return Some(i);
        }
        i = i + 1;
    }
    None
}

fn copy_node(n: &NodeDetails) -> (r: NodeDetails)
    ensures
        r@ == n@,
{
    NodeDetails { id: n.id.clone(), label: n.label.clone(), shape: n.shape, style: n.style.copied() }
}

fn copy_style_opt(o: &Option<StyleSpec>) -> (r: Option<StyleSpec>)
    ensures
        opt_style(r) == opt_style(*o),
{
    match o {
        Some(s) => Some(s.copied()),
        None => None,
    }
}

impl DirectedGraph {
    pub fn new(direction: String) -> (g: Self)
        ensures
            g.wf(),
            g@ == (GraphView {
                direction: direction@,
                nodes: seq![],
                edges: seq![],
                subgraphs: seq![],
            }),
    {
        let g = DirectedGraph { direction, nodes: Vec::new(), edges: Vec::new(), subgraphs: Vec::new() };
        assert(g@.nodes =~= seq![]);
        assert(g@.edges =~= seq![]);
        assert(g@.subgraphs =~= seq![]);
        g
    }

    /// Declares a node, or adds what a later mention says of a known one.
    pub fn add_node(
        &mut self,
        id: String,
        label: Option<String>,
        shape: Option<NodeShape>,
        style: Option<StyleSpec>,
    )
        requires
            old(self).wf(),
        ensures
            final(self).wf(),
            final(self)@.nodes == added_node(
                old(self)@.nodes,
                id@,
                opt_chars(label),
                shape,
                opt_style(style),
            ),
            final(self).edges == old(self).edges,
            final(self).direction == old(self).direction,
            final(self).subgraphs == old(self).subgraphs,
    {
        let ghost w = self@.nodes;
        proof {
            lemma_find_node(w, id@);
        }
        match node_position(&self.nodes, id.as_str()) {
            None => {
                let label_str = match label {
                    Some(l) => sanitize_label(l),
                    None => sanitize_label(id.clone()),
                };
                let st = match style {
                    Some(s) => s,
                    None => new_style(),
                };
                let n = NodeDetails { id, label: label_str, shape, style: st };
                self.nodes.push(n);
                assert(self@.nodes =~= added_node(w, n.id@, opt_chars(label), shape, opt_style(style)));
            },
            Some(k) => {
                let mut node = copy_node(&self.nodes[k]);
                match label {
                    Some(l) => {
                        if same_text(&node.label, node.id.as_str()) {
                            node.label = sanitize_label(l);
                            if shape.is_some() {
                                node.shape = shape;
                            }
                        }
                    },
                    None => {},
                }
                match style {
                    Some(s) => {
                        merge_style(&mut node.style, &s);
                    },
                    None => {},
                }
                self.nodes.set(k, node);
                assert(self@.nodes =~= added_node(w, id@, opt_chars(label), shape, opt_style(style)));
            },
        }
    }

    /// Appends an edge.
    pub fn add_edge(&mut self, from: String, to: String, style: EdgeStyle, label: Option<String>)
        ensures
            final(self)@.edges == old(self)@.edges.push(
                SpecEdge { from: from@, to: to@, style, label: opt_chars(label) },
            ),
            final(self).nodes == old(self).nodes,
            final(self).direction == old(self).direction,
            final(self).subgraphs == old(self).subgraphs,
    {
        let e = Edge { from, to, style, label };
        self.edges.push(e);
        assert(self@.edges =~= old(self)@.edges.push(e@));
    }

    pub fn nodes(&self) -> (r: &Vec<NodeDetails>)
        ensures
            r@ == self.nodes@,
    {
        &self.nodes
    }

    pub fn edges(&self) -> (r: &[Edge])
        ensures
            r@ == self.edges@,
    {
        self.edges.as_slice()
    }

    /// The edges that leave `node_id`, in the order they were added.
    pub fn out_edges(&self, node_id: &str) -> (r: Vec<&Edge>)
        ensures
            r@.map_values(|e: &Edge| e@) == outgoing(self@.edges, node_id@),
    {
        let mut r: Vec<&Edge> = Vec::new();
        let n = self.edges.len();
        for i in 0..n
            invariant
                n == self.edges@.len(),
                r@.map_values(|e: &Edge| e@) == outgoing(self@.edges.take(i as int), node_id@),
        {
            let e = &self.edges[i];
            assert(self@.edges.take(i + 1).drop_last() =~= self@.edges.take(i as int));
            if same_text(&e.from, node_id) {
                r.push(e);
            }
            assert(r@.map_values(|e: &Edge| e@) =~= outgoing(self@.edges.take(i + 1), node_id@));
        }
        assert(self@.edges.take(n as int) =~= self@.edges);
        r
    }
}

/// The edges of `edges` that leave `id`, in order.
pub open spec fn outgoing(edges: Seq<SpecEdge>, id: Seq<char>) -> Seq<SpecEdge>
    decreases edges.len(),
{
    if edges.len() == 0 {
        seq![]
    } else if edges.last().from == id {
        outgoing(edges.drop_last(), id).push(edges.last())
    } else {
        outgoing(edges.drop_last(), id)
    }
}

// ── From the AST ─────────────────────────────────────────────────────────────

/// Nodes and edges built so far.
pub type Built = (Seq<SpecNode>, Seq<SpecEdge>);

pub open spec fn apply_node(g: Built, n: SpecNodeDef) -> Built {
    (added_node(g.0, n.id, n.label, n.shape, n.style), g.1)
}

pub open spec fn link_edge(ns: Seq<SpecNodeDef>, ls: Seq<SpecEdgeLink>, i: int) -> SpecEdge {
    SpecEdge { from: ns[i - 1].id, to: ns[i].id, style: ls[i - 1].style, label: ls[i - 1].label }
}

/// The first `k` nodes of a chain, each with the edge from its predecessor.
pub open spec fn chain_upto(g: Built, ns: Seq<SpecNodeDef>, ls: Seq<SpecEdgeLink>, k: int) -> Built
    decreases k,
{
    if k <= 0 {
        g
    } else {
        let h = apply_node(chain_upto(g, ns, ls, k - 1), ns[k - 1]);
        if k - 1 > 0 {
            (h.0, h.1.push(link_edge(ns, ls, k - 1)))
        } else {
            h
        }
    }
}

pub open spec fn apply_statement(g: Built, s: SpecStatement) -> Built {
    match s {
        SpecStatement::Node(n) => apply_node(g, n),
        SpecStatement::Edge { from, to, style, label } => {
            let h = apply_node(apply_node(g, from), to);
            (h.0, h.1.push(SpecEdge { from: from.id, to: to.id, style, label }))
        },
        SpecStatement::Chain(ns, ls) => chain_upto(g, ns, ls, ns.len() as int),
    }
}

pub open spec fn apply_statements(g: Built, ss: Seq<SpecStatement>) -> Built
    decreases ss.len(),
{
    if ss.len() == 0 {
        g
    } else {
        apply_statement(apply_statements(g, ss.drop_last()), ss.last())
    }
}

/// Every chain has a link between each two of its nodes.
pub open spec fn chains_linked(ss: Seq<SpecStatement>) -> bool {
    forall|i: int|
        0 <= i < ss.len() ==> match #[trigger] ss[i] {
            SpecStatement::Chain(ns, ls) => ns.len() <= ls.len() + 1,
            _ => true,
        }
}

proof fn lemma_statements_linked(
    toks: Seq<SpecToken>,
    i: int,
    st: Seq<(Seq<char>, SpecStyle)>,
    acc: Seq<SpecStatement>,
)
    requires
        chains_linked(acc),
    ensures
        statements_from(toks, i, st, acc) matches Ok(ss) ==> chains_linked(ss),
    decreases toks.len() - i,
{
    match tok(toks, i) {
        None => {},
        Some(SpecToken::Eof) => {},
        Some(SpecToken::StatementTerminator) => {
            lemma_skip_terminators(toks, i + 1);
            lemma_statements_linked(toks, skip_terminators(toks, i + 1), st, acc);
        },
        Some(_) => match node_def_at(toks, i, st) {
            Err(_) => {},
            Ok((n, j)) => {
                lemma_chain_progress(toks, j, st, seq![n], seq![]);
                match statement_at(toks, i, st) {
                    Err(_) => {},
                    Ok((s, k)) => {
                        let acc2 = acc.push(s);
                        assert forall|q: int| 0 <= q < acc2.len() implies match #[trigger] acc2[q] {
                            SpecStatement::Chain(ns, ls) => ns.len() <= ls.len() + 1,
                            _ => true,
                        } by {
                            if q < acc.len() {
                                assert(acc2[q] == acc[q]);
                            }
                        }
                        lemma_statements_linked(toks, k, st, acc2);
                    },
                }
            },
        },
    }
}

/// Every chain that the flowchart parser produces links each two of its
/// nodes, so its statements can always be built into a graph.
pub proof fn law_parsed_chains_linked(src: Seq<char>)
    ensures
        parse_spec(src) matches Ok((d, ss, subs)) ==> chains_linked(ss),
{
    match lex_spec(normalized_source(src)) {
        Err(_) => {},
        Ok(toks) => {
            lemma_statements_linked(toks, skip_terminators(toks, 2), node_styles(src), seq![]);
        },
    }
}

fn copy_strings(v: &Vec<String>) -> (r: Vec<String>)
    ensures
        str_views(r@) == str_views(v@),
{
    let mut r: Vec<String> = Vec::new();
    for i in 0..v.len()
        invariant
            r@.len() == i,
            forall|j: int| 0 <= j < i ==> r@[j]@ == v@[j]@,
    {
        r.push(v[i].clone());
    }
    assert(str_views(r@) =~= str_views(v@));
    r
}

fn add_node_def(g: &mut DirectedGraph, n: &NodeDef)
    requires
        old(g).wf(),
    ensures
        final(g).wf(),
        (final(g)@.nodes, final(g)@.edges) == apply_node((old(g)@.nodes, old(g)@.edges), n@),
        final(g).direction == old(g).direction,
        final(g).subgraphs == old(g).subgraphs,
{
    g.add_node(n.id.clone(), copy_opt(&n.label), n.shape, copy_style_opt(&n.style));
}

/// Builds the graph of a parsed flowchart.
pub fn ast_to_graph(ast: Ast) -> (g: DirectedGraph)
    requires
        chains_linked(statement_views(ast.statements@)),
    ensures
        g.wf(),
        g@.direction == ast.direction@,
        g@.subgraphs == subgraph_views(ast.subgraphs@),
        (g@.nodes, g@.edges) == apply_statements((seq![], seq![]), statement_views(ast.statements@)),
{
    let mut graph = DirectedGraph::new(ast.direction.clone());
    let mut subs: Vec<Subgraph> = Vec::new();
    for i in 0..ast.subgraphs.len()
        invariant
            subs@.len() == i,
            forall|j: int| 0 <= j < i ==> subs@[j]@ == (#[trigger] ast.subgraphs@[j])@,
    {
        let s = &ast.subgraphs[i];
        subs.push(
            Subgraph {
                title: s.title.clone(),
                nodes: copy_strings(&s.nodes),
                parent_title: copy_opt(&s.parent_title),
                depth: s.depth,
            },
        );
    }
    assert(subgraph_list_views(subs@) =~= subgraph_views(ast.subgraphs@));
    graph.subgraphs = subs;
    let ghost ss = statement_views(ast.statements@);
    let n = ast.statements.len();
    for i in 0..n
        invariant
            n == ast.statements@.len() == ss.len(),
            ss == statement_views(ast.statements@),
            chains_linked(ss),
            graph.wf(),
            graph@.direction == ast.direction@,
            graph@.subgraphs == subgraph_views(ast.subgraphs@),
            (graph@.nodes, graph@.edges) == apply_statements((seq![], seq![]), ss.take(i as int)),
    {
        assert(ss.take(i + 1).drop_last() =~= ss.take(i as int));
        let ghost before: Built = (graph@.nodes, graph@.edges);
        match &ast.statements[i] {
            Statement::Node(nd) => {
                add_node_def(&mut graph, nd);
            },
            Statement::Edge(e) => {
                add_node_def(&mut graph, &e.from);
                add_node_def(&mut graph, &e.to);
                graph.add_edge(e.from.id.clone(), e.to.id.clone(), e.style, copy_opt(&e.label));
            },
            Statement::Chain(nodes, links) => {
                assert(ss[i as int] == SpecStatement::Chain(
                    nodes@.map_values(|x: NodeDef| x@),
                    links@.map_values(|x: EdgeLink| x@),
                ));
                let ghost nsv = nodes@.map_values(|x: NodeDef| x@);
                let ghost lsv = links@.map_values(|x: EdgeLink| x@);
                let m = nodes.len();
                for k in 0..m
                    invariant
                        m == nodes@.len() == nsv.len(),
                        nsv == nodes@.map_values(|x: NodeDef| x@),
                        lsv == links@.map_values(|x: EdgeLink| x@),
                        nsv.len() <= lsv.len() + 1,
                        lsv.len() == links@.len(),
                        graph.wf(),
                        graph@.direction == ast.direction@,
                        graph@.subgraphs == subgraph_views(ast.subgraphs@),
                        (graph@.nodes, graph@.edges) == chain_upto(before, nsv, lsv, k as int),
                {
                    add_node_def(&mut graph, &nodes[k]);
                    if k > 0 {
                        let prev = &nodes[k - 1];
                        let link = &links[k - 1];
                        graph.add_edge(
                            prev.id.clone(),
                            nodes[k].id.clone(),
                            link.style,
                            copy_opt(&link.label),
                        );
                    }
                }
            },
        }
    }
    assert(ss.take(n as int) =~= ss);
    graph
}

/// Parses a flowchart and builds its graph.
pub fn flowchart_graph(input: &str) -> (r: Result<DirectedGraph, ParseError>)
    ensures
        r matches Ok(g) ==> parse_spec(input@) matches Ok((d, ss, subs)) && g.wf() && g@.direction == d
            && g@.subgraphs == subs && (g@.nodes, g@.edges) == apply_statements((seq![], seq![]), ss),
        r matches Err(e) ==> parse_spec(input@) == Err::<
            (Seq<char>, Seq<SpecStatement>, Seq<SpecSubgraph>),
            SpecParseError,
        >(e@),
{
    match parse(input) {
        Ok(ast) => {
            proof {
                law_parsed_chains_linked(input@);
            }
            Ok(ast_to_graph(ast))
        },
        Err(e) => Err(e),
    }
}

} // verus!
