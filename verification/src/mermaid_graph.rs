//! Graph-level data of a flowchart: node styles, edges and subgraphs.

use vstd::prelude::*;
use crate::config::copy_opt;
use crate::mermaid_lexer::EdgeStyle;
use crate::text::{chars_of, replace, replace_str, string_of};
use crate::mermaid_source::{str_views, SpecSubgraph};

verus! {

/// Visual style of a node, from `classDef` declarations.
#[derive(Debug, Clone, Default, PartialEq, Eq)]
pub struct StyleSpec {
    pub fill: Option<String>,
    pub stroke: Option<String>,
    pub stroke_width: Option<String>,
    pub stroke_dasharray: Option<String>,
    pub color: Option<String>,
}

/// A connection between two nodes of the graph.
#[derive(Debug, Clone)]
pub struct Edge {
    pub from: String,
    pub to: String,
    pub style: EdgeStyle,
    pub label: Option<String>,
}

/// A titled group of nodes, possibly nested in another one.
#[derive(Debug, Clone)]
pub struct Subgraph {
    pub title: String,
    pub nodes: Vec<String>,
    pub parent_title: Option<String>,
    pub depth: usize,
}

/// The content of a style: the text of each property that is set.
pub ghost struct SpecStyle {
    pub fill: Option<Seq<char>>,
    pub stroke: Option<Seq<char>>,
    pub stroke_width: Option<Seq<char>>,
    pub stroke_dasharray: Option<Seq<char>>,
    pub color: Option<Seq<char>>,
}

pub open spec fn opt_chars(o: Option<String>) -> Option<Seq<char>> {
    match o {
        Some(s) => Some(s@),
        None => None,
    }
}

impl View for StyleSpec {
    type V = SpecStyle;

    open spec fn view(&self) -> SpecStyle {
        SpecStyle {
            fill: opt_chars(self.fill),
            stroke: opt_chars(self.stroke),
            stroke_width: opt_chars(self.stroke_width),
            stroke_dasharray: opt_chars(self.stroke_dasharray),
            color: opt_chars(self.color),
        }
    }
}

/// The content of an edge.
pub ghost struct SpecEdge {
    pub from: Seq<char>,
    pub to: Seq<char>,
    pub style: EdgeStyle,
    pub label: Option<Seq<char>>,
}

impl View for Edge {
    type V = SpecEdge;

    open spec fn view(&self) -> SpecEdge {
        SpecEdge { from: self.from@, to: self.to@, style: self.style, label: opt_chars(self.label) }
    }
}

impl View for Subgraph {
    type V = SpecSubgraph;

    open spec fn view(&self) -> SpecSubgraph {
        SpecSubgraph {
            title: self.title@,
            nodes: str_views(self.nodes@),
            parent_title: opt_chars(self.parent_title),
            depth: self.depth as int,
        }
    }
}

pub open spec fn edge_views(v: Seq<Edge>) -> Seq<SpecEdge> {
    v.map_values(|e: Edge| e@)
}

pub open spec fn subgraph_list_views(v: Seq<Subgraph>) -> Seq<SpecSubgraph> {
    v.map_values(|g: Subgraph| g@)
}

pub open spec fn no_style() -> SpecStyle {
    SpecStyle { fill: None, stroke: None, stroke_width: None, stroke_dasharray: None, color: None }
}

/// `target` with every property that `incoming` sets taken from `incoming`.
pub open spec fn overlay(target: SpecStyle, incoming: SpecStyle) -> SpecStyle {
    SpecStyle {
        fill: if incoming.fill is Some { incoming.fill } else { target.fill },
        stroke: if incoming.stroke is Some { incoming.stroke } else { target.stroke },
        stroke_width: if incoming.stroke_width is Some {
            incoming.stroke_width
        } else {
            target.stroke_width
        },
        stroke_dasharray: if incoming.stroke_dasharray is Some {
            incoming.stroke_dasharray
        } else {
            target.stroke_dasharray
        },
        color: if incoming.color is Some { incoming.color } else { target.color },
    }
}

/// The style with no property set.
pub open spec fn empty_style() -> StyleSpec {
    StyleSpec { fill: None, stroke: None, stroke_width: None, stroke_dasharray: None, color: None }
}

pub fn new_style() -> (r: StyleSpec)
    ensures
        r == empty_style(),
{
    StyleSpec { fill: None, stroke: None, stroke_width: None, stroke_dasharray: None, color: None }
}

pub fn is_empty_style(s: &StyleSpec) -> (r: bool)
    ensures
        r == (*s == empty_style()),
        r == (s@ == no_style()),
{
    s.fill.is_none() && s.stroke.is_none() && s.stroke_width.is_none()
        && s.stroke_dasharray.is_none() && s.color.is_none()
}

/// `target` with every property that `incoming` sets taken from `incoming`.
pub open spec fn merged_style(target: StyleSpec, incoming: StyleSpec) -> StyleSpec {
    StyleSpec {
        fill: if incoming.fill is Some { incoming.fill } else { target.fill },
        stroke: if incoming.stroke is Some { incoming.stroke } else { target.stroke },
        stroke_width: if incoming.stroke_width is Some {
            incoming.stroke_width
        } else {
            target.stroke_width
        },
        stroke_dasharray: if incoming.stroke_dasharray is Some {
            incoming.stroke_dasharray
        } else {
            target.stroke_dasharray
        },
        color: if incoming.color is Some { incoming.color } else { target.color },
    }
}

impl StyleSpec {
    pub fn copied(&self) -> (r: Self)
        ensures
            r == *self,
    {
        StyleSpec {
            fill: copy_opt(&self.fill),
            stroke: copy_opt(&self.stroke),
            stroke_width: copy_opt(&self.stroke_width),
            stroke_dasharray: copy_opt(&self.stroke_dasharray),
            color: copy_opt(&self.color),
        }
    }
}

/// Overlays the properties that `incoming` sets onto `target`.
pub fn merge_style(target: &mut StyleSpec, incoming: &StyleSpec)
    ensures
        *final(target) == merged_style(*old(target), *incoming),
        final(target)@ == overlay(old(target)@, incoming@),
{
    if incoming.fill.is_some() {
        target.fill = copy_opt(&incoming.fill);
    }
    if incoming.stroke.is_some() {
        target.stroke = copy_opt(&incoming.stroke);
    }
    if incoming.stroke_width.is_some() {
        target.stroke_width = copy_opt(&incoming.stroke_width);
    }
    if incoming.stroke_dasharray.is_some() {
        target.stroke_dasharray = copy_opt(&incoming.stroke_dasharray);
    }
    if incoming.color.is_some() {
        target.color = copy_opt(&incoming.color);
    }
}

/// Merging styles is associative: overlaying `b` then `c` equals overlaying
/// the overlay of `c` on `b`.
pub proof fn law_merge_style_associative(a: SpecStyle, b: SpecStyle, c: SpecStyle)
    ensures
        overlay(overlay(a, b), c) == overlay(a, overlay(b, c)),
{
}

/// The empty style changes nothing, and overlaying a style twice is the same
/// as overlaying it once.
pub proof fn law_merge_style_identity_idempotent(a: SpecStyle, b: SpecStyle)
    ensures
        overlay(a, no_style()) == a,
        overlay(no_style(), a) == a,
        overlay(overlay(a, b), b) == overlay(a, b),
{
}

/// A label with HTML line breaks turned into spaces.
pub open spec fn sanitized(label: Seq<char>) -> Seq<char> {
    replace(replace(replace(label, "<br/>"@, " "@), "<br />"@, " "@), "<br>"@, " "@)
}

pub fn sanitize_label(label: String) -> (r: String)
    ensures
        r@ == sanitized(label@),
{
    proof {
        reveal_strlit("<br/>");
        reveal_strlit("<br />");
        reveal_strlit("<br>");
    }
    let v = chars_of(label.as_str());
    let a = replace_str(v.as_slice(), "<br/>", " ");
    let b = replace_str(a.as_slice(), "<br />", " ");
    let c = replace_str(b.as_slice(), "<br>", " ");
    string_of(c.as_slice())
}

} // verus!
