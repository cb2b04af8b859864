//! Parsing of Mermaid mind maps: indented lines become a tree.

use vstd::prelude::*;
use crate::text::{
    chars_of, is_whitespace, is_ws, lines, lines_of, slice_of, starts_with, string_of, trim,
    trim_of, views,
};

verus! {

pub struct MindmapNode {
    pub label: String,
    pub children: Vec<MindmapNode>,
}

pub struct MindmapDiagram {
    pub root: MindmapNode,
}

/// The number of whitespace characters that start `s`.
pub open spec fn indent(s: Seq<char>) -> nat
    decreases s.len(),
{
    if s.len() > 0 && is_ws(s[0]) {
        1 + indent(s.drop_first())
    } else {
        0
    }
}

/// `s` without any number of leading `::`.
pub open spec fn without_colons(s: Seq<char>) -> Seq<char>
    decreases s.len(),
{
    if s.len() >= 2 && s[0] == ':' && s[1] == ':' {
        without_colons(s.skip(2))
    } else {
        s
    }
}

/// The (level, label) entries of the source: one per non-blank line other
/// than `mindmap`, its level half its indentation.
pub open spec fn entries(ls: Seq<Seq<char>>) -> Seq<(nat, Seq<char>)>
    decreases ls.len(),
{
    if ls.len() == 0 {
        seq![]
    } else {
        let rest = entries(ls.drop_last());
        let raw = ls.last();
        let t = trim(raw);
        let label = trim(without_colons(t));
        if t.len() == 0 || t == "mindmap"@ || label.len() == 0 {
            rest
        } else {
            rest.push((indent(raw) / 2, label))
        }
    }
}

/// The first entry from `k` on at level `lvl` or shallower (the end of the
/// subtree of an entry at level `lvl`).
pub open spec fn subtree_end(es: Seq<(nat, Seq<char>)>, k: int, lvl: nat) -> int
    decreases es.len() - k,
{
    if k < 0 || k >= es.len() {
        es.len() as int
    } else if es[k].0 <= lvl {
        k
    } else {
        subtree_end(es, k + 1, lvl)
    }
}

pub proof fn lemma_subtree_end_bounds(es: Seq<(nat, Seq<char>)>, k: int, lvl: nat)
    requires
        0 <= k,
    ensures
        k <= subtree_end(es, k, lvl) || k > es.len(),
        subtree_end(es, k, lvl) <= es.len(),
        forall|m: int| k <= m < subtree_end(es, k, lvl) ==> es[m].0 > lvl,
        subtree_end(es, k, lvl) < es.len() ==> es[subtree_end(es, k, lvl)].0 <= lvl,
    decreases es.len() - k,
{
    if k < es.len() && es[k].0 > lvl {
        lemma_subtree_end_bounds(es, k + 1, lvl);
    }
}

/// Whether `n` is the node built from entry `i`: its label, and as children
/// the entries deeper than it up to the end of its subtree.
pub open spec fn node_from(n: MindmapNode, es: Seq<(nat, Seq<char>)>, i: int) -> bool
    decreases es.len() - i, 0nat,
{
    &&& 0 <= i < es.len()
    &&& n.label@ == es[i].1
    &&& children_from(n.children@, es, i + 1, es[i].0)
}

/// Whether `cs` are the children built from entry `j` on under a parent at
/// level `lvl`: one per entry deeper than `lvl`, each followed by its own
/// subtree.
pub open spec fn children_from(cs: Seq<MindmapNode>, es: Seq<(nat, Seq<char>)>, j: int, lvl: nat) -> bool
    decreases es.len() - j, 1nat,
{
    if 0 <= j < es.len() && es[j].0 > lvl {
        proof {
            lemma_subtree_end_bounds(es, j + 1, es[j].0);
        }
        &&& cs.len() > 0
        &&& node_from(cs[0], es, j)
        &&& children_from(cs.drop_first(), es, subtree_end(es, j + 1, es[j].0), lvl)
    } else {
        cs.len() == 0
    }
}

/// The children `cs`, from entry `j`, end just before entry `k`.
pub open spec fn children_upto(cs: Seq<MindmapNode>, es: Seq<(nat, Seq<char>)>, j: int, lvl: nat, k: int) -> bool
    decreases cs.len(),
{
    if cs.len() == 0 {
        j == k
    } else {
        &&& 0 <= j < es.len()
        &&& es[j].0 > lvl
        &&& node_from(cs[0], es, j)
        &&& children_upto(cs.drop_first(), es, subtree_end(es, j + 1, es[j].0), lvl, k)
    }
}

proof fn lemma_upto_push(cs: Seq<MindmapNode>, c: MindmapNode, es: Seq<(nat, Seq<char>)>, j: int, lvl: nat, k: int)
    requires
        children_upto(cs, es, j, lvl, k),
        0 <= k < es.len(),
        es[k].0 > lvl,
        node_from(c, es, k),
    ensures
        children_upto(cs.push(c), es, j, lvl, subtree_end(es, k + 1, es[k].0)),
    decreases cs.len(),
{
    if cs.len() == 0 {
        assert(cs.push(c)[0] == c);
        assert(cs.push(c).drop_first() =~= Seq::<MindmapNode>::empty());
        assert(children_upto(cs.push(c).drop_first(), es, subtree_end(es, j + 1, es[j].0), lvl, subtree_end(es, k + 1, es[k].0)));
    } else {
        lemma_upto_push(cs.drop_first(), c, es, subtree_end(es, j + 1, es[j].0), lvl, k);
        assert(cs.push(c)[0] == cs[0]);
        assert(cs.push(c).drop_first() =~= cs.drop_first().push(c));
    }
}

proof fn lemma_upto_done(cs: Seq<MindmapNode>, es: Seq<(nat, Seq<char>)>, j: int, lvl: nat, k: int)
    requires
        children_upto(cs, es, j, lvl, k),
        0 <= j,
        !(0 <= k < es.len() && es[k].0 > lvl),
    ensures
        children_from(cs, es, j, lvl),
    decreases cs.len(),
{
    if cs.len() > 0 {
        lemma_subtree_end_bounds(es, j + 1, es[j].0);
        lemma_upto_done(cs.drop_first(), es, subtree_end(es, j + 1, es[j].0), lvl, k);
    }
}

/// Skipping a deeper subtree does not move the end of a shallower one.
proof fn lemma_end_skip(es: Seq<(nat, Seq<char>)>, j: int, lvl: nat, deeper: nat)
    requires
        0 <= j,
        lvl < deeper,
    ensures
        subtree_end(es, j, lvl) == subtree_end(es, subtree_end(es, j, deeper), lvl),
    decreases es.len() - j,
{
    if j < es.len() && es[j].0 > deeper {
        lemma_end_skip(es, j + 1, lvl, deeper);
    }
}

pub open spec fn entry_views(v: Seq<(usize, String)>) -> Seq<(nat, Seq<char>)> {
    v.map_values(|e: (usize, String)| (e.0 as nat, e.1@))
}

fn build(entries: &Vec<(usize, String)>, idx: &mut usize, level: usize) -> (node: MindmapNode)
    requires
        *old(idx) < entries@.len(),
        level == entries@[*old(idx) as int].0,
    ensures
        node_from(node, entry_views(entries@), *old(idx) as int),
        *final(idx) == subtree_end(entry_views(entries@), *old(idx) + 1, level as nat),
    decreases entries@.len() - *old(idx),
{
    let ghost es = entry_views(entries@);
    let ghost start = *idx as int;
    let label = entries[*idx].1.clone();
    let total = entries.len();
    assert(*idx < total);
    *idx = *idx + 1;
    let mut children: Vec<MindmapNode> = Vec::new();
    proof {
        lemma_subtree_end_bounds(es, start + 1, level as nat);
    }
    while *idx < entries.len() && entries[*idx].0 > level
        invariant
            es == entry_views(entries@),
            start == *old(idx),
            0 <= start < es.len(),
            es[start].0 == level,
            start < *idx <= entries@.len(),
            children_upto(children@, es, start + 1, level as nat, *idx as int),
            subtree_end(es, start + 1, level as nat) == subtree_end(es, *idx as int, level as nat),
        decreases entries@.len() - *idx,
    {
        let next_level = entries[*idx].0;
        let ghost k = *idx as int;
        assert(es[k].0 == next_level);
        let child = build(entries, idx, next_level);
        proof {
            lemma_upto_push(children@, child, es, start + 1, level as nat, k);
            lemma_end_skip(es, k + 1, level as nat, next_level as nat);
            lemma_subtree_end_bounds(es, k + 1, next_level as nat);
        }
        children.push(child);
    }
    proof {
        lemma_upto_done(children@, es, start + 1, level as nat, *idx as int);
    }
    MindmapNode { label, children }
}

fn indent_of(s: &[char]) -> (r: usize)
    ensures
        r == indent(s@),
{
    let mut i: usize = 0;
    assert(s@.skip(0) =~= s@);
    while i < s.len() && is_whitespace(s[i])
        invariant
            i <= s@.len(),
            indent(s@) == i + indent(s@.skip(i as int)),
        decreases s@.len() - i,
    {
        assert(s@.skip(i as int)[0] == s@[i as int]);
        assert(s@.skip(i as int).drop_first() =~= s@.skip(i + 1));
        i += 1;
    }
    if i < s.len() {
        assert(s@.skip(i as int)[0] == s@[i as int]);
    }
    i
}

fn without_colons_of(s: &[char]) -> (r: Vec<char>)
    ensures
        r@ == without_colons(s@),
{
    let mut i: usize = 0;
    assert(s@.skip(0) =~= s@);
    while i < s.len() && i + 1 < s.len() && s[i] == ':' && s[i + 1] == ':'
        invariant
            i <= s@.len(),
            without_colons(s@) == without_colons(s@.skip(i as int)),
        decreases s@.len() - i,
    {
        assert(s@.skip(i as int)[0] == s@[i as int]);
        assert(s@.skip(i as int)[1] == s@[i + 1]);
        assert(s@.skip(i as int).skip(2) =~= s@.skip(i + 2));
        i += 2;
    }
    if i < s.len() && i + 1 < s.len() {
        assert(s@.skip(i as int)[0] == s@[i as int]);
        assert(s@.skip(i as int)[1] == s@[i + 1]);
    }
    let r = slice_of(s, i, s.len());
    assert(r@ =~= s@.skip(i as int));
    r
}

/// The tree of a mind map: the first entry is the root, and each entry's
/// children are the deeper entries that follow it up to the next entry at
/// its level or shallower.
pub open spec fn mindmap_ok(d: MindmapDiagram, input: Seq<char>) -> bool {
    node_from(d.root, entries(lines(input)), 0)
}

/// Parses a mind map, or gives the error for a source without nodes.
pub fn parse_mindmap_diagram(input: &str) -> (r: Result<MindmapDiagram, String>)
    ensures
        match r {
            Ok(d) => mindmap_ok(d, input@),
            Err(e) => entries(lines(input@)).len() == 0 && e@ == "Mindmap has no nodes"@,
        },
{
    let src = chars_of(input);
    let ls = lines_of(src.as_slice());
    let mut es: Vec<(usize, String)> = Vec::new();
    let n = ls.len();
    assert(entry_views(es@) =~= Seq::<(nat, Seq<char>)>::empty());
    assert(views(ls@).take(0) =~= Seq::<Seq<char>>::empty());
    for i in 0..n
        invariant
            n == ls@.len(),
            views(ls@) == lines(src@),
            src@ == input@,
            entry_views(es@) == entries(views(ls@).take(i as int)),
    {
        assert(views(ls@).take(i + 1).drop_last() =~= views(ls@).take(i as int));
        assert(views(ls@).take(i + 1).last() == ls@[i as int]@);
        let raw = ls[i].as_slice();
        let t = trim_of(raw);
        let nc = without_colons_of(t.as_slice());
        let label = trim_of(nc.as_slice());
        if !(t.len() == 0 || crate::text::eq_str(t.as_slice(), "mindmap") || label.len() == 0) {
            let level = indent_of(raw) / 2;
            let ghost before = es@;
            es.push((level, string_of(label.as_slice())));
            assert(entry_views(es@) =~= entry_views(before).push((level as nat, label@)));
        }
    }
    assert(views(ls@).take(n as int) =~= views(ls@));
    if es.len() == 0 {
        return Err(String::from_str("Mindmap has no nodes"));
    }
    let mut idx: usize = 0;
    let level = es[0].0;
    let root = build(&es, &mut idx, level);
    Ok(MindmapDiagram { root })
}

} // verus!
