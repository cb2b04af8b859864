//! Breaking the cycles of a flowchart: a depth-first search from each node,
//! in node order, reverses every edge that leads back to a node still on the
//! search path.

use vstd::prelude::*;
use crate::config::copy_opt;
use crate::directed_graph::{detail_views, DirectedGraph, GraphView, SpecNode};
use crate::mermaid_graph::{edge_views, Edge, SpecEdge};
use crate::text::{chars_of, seq_eq};

verus! {

/// `e` with its ends swapped.
pub open spec fn reversed(e: SpecEdge) -> SpecEdge {
    SpecEdge { from: e.to, to: e.from, style: e.style, label: e.label }
}

/// `rank` strictly decreases along every edge that is not a loop.
pub open spec fn ranks_down(edges: Seq<SpecEdge>, rank: spec_fn(Seq<char>) -> int) -> bool {
    forall|i: int|
        0 <= i < edges.len() && edges[i].from != edges[i].to ==> #[trigger] rank(edges[i].from)
            > rank(edges[i].to)
}

/// Some ranking of the node ids strictly decreases along every edge that is
/// not a loop: the edges form no cycle but through a single node.
pub open spec fn acyclic_except_loops(edges: Seq<SpecEdge>) -> bool {
    exists|rank: spec_fn(Seq<char>) -> int| #[trigger] ranks_down(edges, rank)
}

/// Some edge goes from `x` to `y`.
pub open spec fn step(edges: Seq<SpecEdge>, x: Seq<char>, y: Seq<char>) -> bool {
    exists|i: int| 0 <= i < edges.len() && edges[i].from == x && edges[i].to == y
}

/// `p` is a nonempty walk along the edges.
pub open spec fn edge_walk(edges: Seq<SpecEdge>, p: Seq<Seq<char>>) -> bool {
    p.len() >= 1 && forall|k: int| #![trigger p[k]] 0 < k < p.len() ==> step(edges, p[k - 1], p[k])
}

/// A walk along the edges leads from `x` to `y`.
pub open spec fn reaches(edges: Seq<SpecEdge>, x: Seq<char>, y: Seq<char>) -> bool {
    exists|p: Seq<Seq<char>>| #[trigger] edge_walk(edges, p) && p[0] == x && p.last() == y
}

/// Every edge leaves a node that a walk along the edges reaches from a
/// declared node (a declared node reaches itself).
pub open spec fn sources_reachable(g: GraphView) -> bool {
    forall|i: int|
        0 <= i < g.edges.len() ==> exists|d: int|
            0 <= d < g.nodes.len() && reaches(g.edges, g.nodes[d].id, #[trigger] g.edges[i].from)
}

// ── Vertex numbering ─────────────────────────────────────────────────────────

pub open spec fn texts(v: Seq<Vec<char>>) -> Seq<Seq<char>> {
    v.map_values(|x: Vec<char>| x@)
}

pub open spec fn all_distinct(s: Seq<Seq<char>>) -> bool {
    forall|i: int, j: int| 0 <= i < j < s.len() ==> s[i] != s[j]
}

/// The table after adding `s`: unchanged when it holds `s` already.
pub open spec fn with_vertex(t: Seq<Seq<char>>, s: Seq<char>) -> Seq<Seq<char>> {
    if t.contains(s) {
        t
    } else {
        t.push(s)
    }
}

/// The table after adding the ends of each edge, the source first.
pub open spec fn table_from(t: Seq<Seq<char>>, edges: Seq<SpecEdge>) -> Seq<Seq<char>>
    decreases edges.len(),
{
    if edges.len() == 0 {
        t
    } else {
        with_vertex(with_vertex(table_from(t, edges.drop_last()), edges.last().from), edges.last().to)
    }
}

/// The vertices of a graph, numbered: its nodes in order, then each other
/// edge end in the order the edges first name it.
pub open spec fn vertex_ids(g: GraphView) -> Seq<Seq<char>> {
    table_from(g.nodes.map_values(|n: SpecNode| n.id), g.edges)
}

pub open spec fn vertex_index(t: Seq<Seq<char>>, s: Seq<char>) -> int {
    choose|k: int| 0 <= k < t.len() && t[k] == s
}

/// The number of the source (or target) of each edge.
pub open spec fn end_indices(g: GraphView, from: bool) -> Seq<usize> {
    g.edges.map_values(
        |e: SpecEdge|
            vertex_index(
                vertex_ids(g),
                if from {
                    e.from
                } else {
                    e.to
                },
            ) as usize,
    )
}

/// The edges that the depth-first search meets as back edges: the search
/// starts from each node in declaration order that it has not reached yet,
/// and looks at the out-edges of a vertex in edge order.
pub open spec fn back_edge_marks(g: GraphView) -> Seq<bool> {
    search_marks(end_indices(g, true), end_indices(g, false), vertex_ids(g).len(), g.nodes.len() as int)
}

/// The number of `s` in the vertex table (its index; the table holds it once).
fn vertex_of(table: &mut Vec<Vec<char>>, s: &[char]) -> (k: usize)
    requires
        all_distinct(texts(old(table)@)),
    ensures
        all_distinct(texts(final(table)@)),
        k < final(table)@.len(),
        texts(final(table)@)[k as int] == s@,
        texts(final(table)@).take(old(table)@.len() as int) == texts(old(table)@),
        final(table)@.len() == old(table)@.len() || final(table)@.len() == old(table)@.len() + 1,
        texts(final(table)@) == with_vertex(texts(old(table)@), s@),
{
    let n = table.len();
    let mut i: usize = 0;
    while i < n
        invariant
            n == table@.len(),
            i <= n,
            all_distinct(texts(table@)),
            forall|j: int| 0 <= j < i ==> texts(table@)[j] != s@,
        decreases n - i,
    {
        if seq_eq(table[i].as_slice(), s) {
            assert(texts(table@).take(n as int) =~= texts(table@));
            assert(texts(table@)[i as int] == s@);
            assert(texts(table@).contains(s@));
            return i;
        }
        i = i + 1;
    }
    let ghost before = texts(table@);
    assert(!before.contains(s@));
    let mut c: Vec<char> = Vec::new();
    for j in 0..s.len()
        invariant
            c@ == s@.take(j as int),
    {
        c.push(s[j]);
        assert(c@ =~= s@.take(j + 1));
    }
    assert(c@ =~= s@);
    table.push(c);
    assert(texts(table@) =~= before.push(s@));
    assert(texts(table@).take(n as int) =~= before);
    n
}

/// The number given to each node id, then to each other edge end, and the
/// numbers of the ends of each edge.
pub(crate) fn vertex_table(g: &DirectedGraph) -> (r: (Vec<Vec<char>>, Vec<usize>, Vec<usize>))
    requires
        g.wf(),
    ensures
        all_distinct(texts(r.0@)),
        r.0@.len() >= g@.nodes.len(),
        r.0@.len() <= g@.nodes.len() + 2 * g@.edges.len(),
        forall|k: int| 0 <= k < g@.nodes.len() ==> texts(r.0@)[k] == g@.nodes[k].id,
        r.1@.len() == g@.edges.len(),
        r.2@.len() == g@.edges.len(),
        forall|i: int|
            0 <= i < g@.edges.len() ==> r.1@[i] < r.0@.len() && texts(r.0@)[r.1@[i] as int]
                == g@.edges[i].from,
        forall|i: int|
            0 <= i < g@.edges.len() ==> r.2@[i] < r.0@.len() && texts(r.0@)[r.2@[i] as int]
                == g@.edges[i].to,
        texts(r.0@) == vertex_ids(g@),
{
    let mut table: Vec<Vec<char>> = Vec::new();
    let nn = g.nodes.len();
    for k in 0..nn
        invariant
            nn == g@.nodes.len(),
            g.wf(),
            table@.len() == k,
            forall|q: int| 0 <= q < k ==> texts(table@)[q] == g@.nodes[q].id,
            all_distinct(texts(table@)),
    {
        let c = chars_of(g.nodes[k].id.as_str());
        let ghost before = table@;
        table.push(c);
        assert(table@ == before.push(c));
        assert(texts(table@)[k as int] == g@.nodes[k as int].id);
        assert forall|q: int| 0 <= q < k + 1 implies texts(table@)[q] == g@.nodes[q].id by {
            if q < k {
                assert(table@[q] == before[q]);
                assert(texts(before)[q] == g@.nodes[q].id);
            }
        }
        assert forall|p: int, q: int| 0 <= p < q < table@.len() implies texts(table@)[p] != texts(
            table@,
        )[q] by {
            assert(texts(table@)[p] == g@.nodes[p].id);
            assert(texts(table@)[q] == g@.nodes[q].id);
        }
    }
    let ghost ids = g@.nodes.map_values(|n: SpecNode| n.id);
    assert(texts(table@) =~= ids);
    assert(g@.edges.take(0) =~= Seq::<SpecEdge>::empty());
    let mut fi: Vec<usize> = Vec::new();
    let mut ti: Vec<usize> = Vec::new();
    let m = g.edges.len();
    for i in 0..m
        invariant
            m == g@.edges.len(),
            nn == g@.nodes.len(),
            ids == g@.nodes.map_values(|n: SpecNode| n.id),
            texts(table@) == table_from(ids, g@.edges.take(i as int)),
            table@.len() >= nn,
            table@.len() <= nn + 2 * i,
            all_distinct(texts(table@)),
            forall|q: int| 0 <= q < nn ==> texts(table@)[q] == g@.nodes[q].id,
            fi@.len() == i,
            ti@.len() == i,
            forall|q: int|
                0 <= q < i ==> fi@[q] < table@.len() && texts(table@)[fi@[q] as int]
                    == g@.edges[q].from,
            forall|q: int|
                0 <= q < i ==> ti@[q] < table@.len() && texts(table@)[ti@[q] as int]
                    == g@.edges[q].to,
    {
        let ghost t0 = texts(table@);
        let fc = chars_of(g.edges[i].from.as_str());
        let a = vertex_of(&mut table, fc.as_slice());
        let ghost t1 = texts(table@);
        assert forall|q: int| 0 <= q < t0.len() implies t1[q] == t0[q] by {
            assert(t1.take(t0.len() as int)[q] == t1[q]);
        }
        let tc = chars_of(g.edges[i].to.as_str());
        let b = vertex_of(&mut table, tc.as_slice());
        let ghost t2 = texts(table@);
        assert forall|q: int| 0 <= q < t1.len() implies t2[q] == t1[q] by {
            assert(t2.take(t1.len() as int)[q] == t2[q]);
        }
        fi.push(a);
        ti.push(b);
        proof {
            assert(g@.edges.take(i + 1).drop_last() =~= g@.edges.take(i as int));
            assert(g@.edges.take(i + 1).last() == g@.edges[i as int]);
        }
    }
    assert(g@.edges.take(m as int) =~= g@.edges);
    (table, fi, ti)
}

// ── Depth-first search ───────────────────────────────────────────────────────

pub open spec fn unvisited(s: Seq<bool>) -> nat
    decreases s.len(),
{
    if s.len() == 0 {
        0
    } else {
        unvisited(s.drop_last()) + if s.last() {
            0nat
        } else {
            1nat
        }
    }
}

pub(crate) proof fn lemma_unvisited_mono(a: Seq<bool>, b: Seq<bool>, k: int)
    requires
        a.len() == b.len(),
        forall|i: int| 0 <= i < a.len() && a[i] ==> b[i],
    ensures
        unvisited(b) <= unvisited(a),
        0 <= k < a.len() && !a[k] && b[k] ==> unvisited(b) < unvisited(a),
    decreases a.len(),
{
    if a.len() > 0 {
        let a1 = a.drop_last();
        let b1 = b.drop_last();
        assert forall|i: int| 0 <= i < a1.len() && a1[i] implies b1[i] by {
            assert(a1[i] == a[i] && b1[i] == b[i]);
        }
        lemma_unvisited_mono(a1, b1, k);
        if 0 <= k < a1.len() {
            assert(a1[k] == a[k] && b1[k] == b[k]);
        }
    }
}

/// Some edge goes from vertex `x` to vertex `y`.
spec fn linked(fi: Seq<usize>, ti: Seq<usize>, x: int, y: int) -> bool {
    exists|i: int| 0 <= i < fi.len() && fi[i] == x && ti[i] == y
}

/// `p` is a nonempty walk along edges.
spec fn walk(fi: Seq<usize>, ti: Seq<usize>, p: Seq<int>) -> bool {
    p.len() >= 1 && forall|k: int| #![trigger p[k]] 0 < k < p.len() ==> linked(fi, ti, p[k - 1], p[k])
}

/// A walk leads from `x` to `y`.
spec fn reach(fi: Seq<usize>, ti: Seq<usize>, x: int, y: int) -> bool {
    exists|p: Seq<int>| #[trigger] walk(fi, ti, p) && p[0] == x && p.last() == y
}

/// The state of the search. The ghost fields record, for each vertex, when
/// it was finished and where it stands on the search path, and which edges
/// have been looked at.
struct Search {
    visited: Vec<bool>,
    stacked: Vec<bool>,
    marks: Vec<bool>,
    fin: Ghost<Seq<int>>,
    clock: Ghost<int>,
    path: Ghost<Seq<int>>,
    depth: Ghost<Seq<int>>,
    seen: Ghost<Seq<bool>>,
}

spec fn finished(st: Search, v: int) -> bool {
    st.visited@[v] && !st.stacked@[v]
}

spec fn inv(st: Search, n: int, fi: Seq<usize>, ti: Seq<usize>) -> bool {
    let m = fi.len();
    &&& ti.len() == m
    &&& forall|i: int| 0 <= i < m ==> fi[i] < n && ti[i] < n
    &&& st.visited@.len() == n
    &&& st.stacked@.len() == n
    &&& st.fin@.len() == n
    &&& st.depth@.len() == n
    &&& st.marks@.len() == m
    &&& st.seen@.len() == m
    &&& st.clock@ >= 0
    &&& forall|k: int|
        0 <= k < st.path@.len() ==> 0 <= #[trigger] st.path@[k] < n && st.stacked@[st.path@[k]]
            && st.depth@[st.path@[k]] == k
    &&& forall|v: int|
        0 <= v < n && #[trigger] st.stacked@[v] ==> st.visited@[v] && 0 <= st.depth@[v]
            < st.path@.len() && st.path@[st.depth@[v]] == v
    &&& forall|v: int| 0 <= v < n && finished(st, v) ==> 0 <= #[trigger] st.fin@[v] < st.clock@
    &&& forall|i: int| 0 <= i < m && #[trigger] st.marks@[i] ==> st.seen@[i]
    &&& forall|k: int|
        #![trigger st.path@[k]]
        0 < k < st.path@.len() ==> linked(fi, ti, st.path@[k - 1], st.path@[k])
    &&& forall|i: int| 0 <= i < m && #[trigger] st.marks@[i] ==> reach(fi, ti, ti[i] as int, fi[i] as int)
    &&& forall|i: int| 0 <= i < m && #[trigger] st.seen@[i] ==> st.visited@[fi[i] as int]
    &&& forall|i: int| 0 <= i < m && finished(st, fi[i] as int) ==> #[trigger] st.seen@[i]
    &&& forall|i: int|
        0 <= i < m && #[trigger] st.seen@[i] && !st.marks@[i] ==> {
            let a = fi[i] as int;
            let b = ti[i] as int;
            finished(st, b) && (finished(st, a) ==> st.fin@[a] > st.fin@[b])
        }
    &&& forall|i: int|
        0 <= i < m && #[trigger] st.marks@[i] && fi[i] != ti[i] ==> {
            let a = fi[i] as int;
            let b = ti[i] as int;
            &&& finished(st, b) ==> finished(st, a) && st.fin@[a] < st.fin@[b]
            &&& !finished(st, b) ==> st.stacked@[b] && (finished(st, a) || (st.stacked@[a]
                && st.depth@[a] > st.depth@[b]))
        }
}

/// Vertices finished in `a` are still finished in `b`, at the same time.
spec fn keeps(a: Search, b: Search, n: int) -> bool {
    forall|v: int| 0 <= v < n && #[trigger] finished(a, v) ==> finished(b, v) && b.fin@[v] == a.fin@[v]
}

proof fn lemma_keeps_trans(a: Search, b: Search, c: Search, n: int)
    requires
        keeps(a, b, n),
        keeps(b, c, n),
    ensures
        keeps(a, c, n),
{
    assert forall|v: int| 0 <= v < n && #[trigger] finished(a, v) implies finished(c, v) && c.fin@[v]
        == a.fin@[v] by {
        assert(finished(b, v));
    }
}

/// What a finished search keeps of the state it started from.
spec fn grows(old_st: Search, st: Search, n: int) -> bool {
    &&& forall|v: int| 0 <= v < n && old_st.visited@[v] ==> #[trigger] st.visited@[v]
    &&& forall|v: int| 0 <= v < n ==> #[trigger] st.stacked@[v] == old_st.stacked@[v]
    &&& st.path@ == old_st.path@
    &&& forall|v: int| 0 <= v < n && old_st.stacked@[v] ==> #[trigger] st.depth@[v] == old_st.depth@[v]
    &&& keeps(old_st, st, n)
    &&& st.clock@ >= old_st.clock@
    &&& forall|i: int| 0 <= i < st.seen@.len() && old_st.seen@[i] ==> #[trigger] st.seen@[i]
}

// ── The search, as a function ────────────────────────────────────────────────

/// Which vertices have been reached, which are on the search path, and which
/// edges have been found to lead back onto it.
pub ghost struct SearchState {
    pub visited: Seq<bool>,
    pub stacked: Seq<bool>,
    pub marks: Seq<bool>,
}

/// The search from vertex `u` within `f` nested steps: `u` is put on the
/// path, its out-edges are looked at in edge order, and `u` leaves the path.
pub open spec fn dfs_visit(fi: Seq<usize>, ti: Seq<usize>, f: nat, s: SearchState, u: int) -> Option<
    SearchState,
>
    decreases f, 0int,
{
    if f == 0 {
        None
    } else {
        let s1 = SearchState {
            visited: s.visited.update(u, true),
            stacked: s.stacked.update(u, true),
            marks: s.marks,
        };
        match dfs_edges(fi, ti, (f - 1) as nat, s1, u, 0) {
            Some(s2) => Some(SearchState { stacked: s2.stacked.update(u, false), ..s2 }),
            None => None,
        }
    }
}

/// The out-edges of `u` from edge `j` on: an edge to an unreached vertex
/// is searched from there and not marked, an edge back onto the path is
/// marked, any other edge is not.
pub open spec fn dfs_edges(fi: Seq<usize>, ti: Seq<usize>, f: nat, s: SearchState, u: int, j: int) -> Option<
    SearchState,
>
    decreases f, fi.len() - j + 1,
{
    if j < 0 || j >= fi.len() {
        Some(s)
    } else if fi[j] as int != u {
        dfs_edges(fi, ti, f, s, u, j + 1)
    } else {
        let v = ti[j] as int;
        if !s.visited[v] {
            match dfs_visit(fi, ti, f, s, v) {
                Some(s2) => dfs_edges(fi, ti, f, SearchState { marks: s2.marks.update(j, false), ..s2 }, u, j + 1),
                None => None,
            }
        } else if s.stacked[v] {
            dfs_edges(fi, ti, f, SearchState { marks: s.marks.update(j, true), ..s }, u, j + 1)
        } else {
            dfs_edges(fi, ti, f, SearchState { marks: s.marks.update(j, false), ..s }, u, j + 1)
        }
    }
}

/// The searches from the roots `k..roots` in order, each from a root not
/// reached before.
pub open spec fn dfs_roots(fi: Seq<usize>, ti: Seq<usize>, f: nat, s: SearchState, k: int, roots: int) -> Option<
    SearchState,
>
    decreases roots - k,
{
    if k < 0 || k >= roots {
        Some(s)
    } else if s.visited[k] {
        dfs_roots(fi, ti, f, s, k + 1, roots)
    } else {
        match dfs_visit(fi, ti, f, s, k) {
            Some(s2) => dfs_roots(fi, ti, f, s2, k + 1, roots),
            None => None,
        }
    }
}

pub open spec fn initial_state(n: nat, m: nat) -> SearchState {
    SearchState {
        visited: Seq::new(n, |i: int| false),
        stacked: Seq::new(n, |i: int| false),
        marks: Seq::new(m, |i: int| false),
    }
}

/// The marks of the whole search over `n` vertices from the roots `0..roots`.
pub open spec fn search_marks(fi: Seq<usize>, ti: Seq<usize>, n: nat, roots: int) -> Seq<bool> {
    match dfs_roots(fi, ti, n + 1, initial_state(n, fi.len()), 0, roots) {
        Some(s) => s.marks,
        None => seq![],
    }
}

proof fn lemma_unvisited_bound(s: Seq<bool>)
    ensures
        unvisited(s) <= s.len(),
    decreases s.len(),
{
    if s.len() > 0 {
        lemma_unvisited_bound(s.drop_last());
    }
}

spec fn view_of(st: Search) -> SearchState {
    SearchState { visited: st.visited@, stacked: st.stacked@, marks: st.marks@ }
}

fn explore(st: &mut Search, u: usize, n: usize, fi: &Vec<usize>, ti: &Vec<usize>, Ghost(f): Ghost<nat>)
    requires
        f > unvisited(old(st).visited@),
        inv(*old(st), n as int, fi@, ti@),
        u < n,
        !old(st).visited@[u as int],
        old(st).path@.len() == 0 || linked(fi@, ti@, old(st).path@.last(), u as int),
    ensures
        inv(*final(st), n as int, fi@, ti@),
        finished(*final(st), u as int),
        grows(*old(st), *final(st), n as int),
        unvisited(final(st).visited@) < unvisited(old(st).visited@),
        dfs_visit(fi@, ti@, f, view_of(*old(st)), u as int) == Some(view_of(*final(st))),
    decreases unvisited(old(st).visited@),
{
    let ghost st0 = *st;
    let ghost m = fi@.len();
    st.visited.set(u, true);
    st.stacked.set(u, true);
    proof {
        lemma_unvisited_mono(st0.visited@, st.visited@, u as int);
        st.depth@ = st.depth@.update(u as int, st.path@.len() as int);
        st.path@ = st.path@.push(u as int);
        assert forall|v: int| 0 <= v < n && #[trigger] st.stacked@[v] implies st.visited@[v] && 0
            <= st.depth@[v] < st.path@.len() && st.path@[st.depth@[v]] == v by {
            if v != u {
                assert(st0.stacked@[v]);
            }
        }
        assert forall|k: int| 0 <= k < st.path@.len() implies 0 <= #[trigger] st.path@[k] < n
            && st.stacked@[st.path@[k]] && st.depth@[st.path@[k]] == k by {
            if k < st0.path@.len() {
                assert(st.path@[k] == st0.path@[k]);
                assert(st0.stacked@[st0.path@[k]]);
            }
        }
        assert forall|k: int|
            #![trigger st.path@[k]]
            0 < k < st.path@.len() implies linked(fi@, ti@, st.path@[k - 1], st.path@[k]) by {
            assert(st.path@[k - 1] == st0.path@[k - 1]);
            if k < st0.path@.len() {
                assert(st.path@[k] == st0.path@[k]);
            }
        }
    }
    let ghost st1 = *st;
    let mm = fi.len();
    let mut j: usize = 0;
    while j < mm
        invariant
            mm == fi@.len() == m,
            st0 == *old(st),
            u < n,
            inv(*st, n as int, fi@, ti@),
            st.stacked@[u as int],
            st.depth@[u as int] == st.path@.len() - 1,
            st.path@ == st0.path@.push(u as int),
            forall|v: int| 0 <= v < n && v != u ==> #[trigger] st.stacked@[v] == st0.stacked@[v],
            forall|v: int| 0 <= v < n && st0.stacked@[v] ==> #[trigger] st.depth@[v] == st0.depth@[v],
            forall|v: int| 0 <= v < n && st0.visited@[v] ==> #[trigger] st.visited@[v],
            keeps(st0, *st, n as int),
            st.clock@ >= st0.clock@,
            forall|i: int| 0 <= i < m && st0.seen@[i] ==> #[trigger] st.seen@[i],
            forall|i: int| 0 <= i < j && fi@[i] == u ==> #[trigger] st.seen@[i],
            unvisited(st.visited@) < unvisited(st0.visited@),
            j <= mm,
            f > unvisited(st0.visited@),
            dfs_edges(fi@, ti@, (f - 1) as nat, view_of(st1), u as int, 0) == dfs_edges(
                fi@,
                ti@,
                (f - 1) as nat,
                view_of(*st),
                u as int,
                j as int,
            ),
        decreases mm - j,
    {
        let ghost top = *st;
        if fi[j] == u {
            let v = ti[j];
            if !st.visited[v] {
                let ghost before = *st;
                assert(unvisited(st.visited@) < unvisited(st0.visited@));
                assert(fi@[j as int] == u && ti@[j as int] == v);
                assert(linked(fi@, ti@, st.path@.last(), v as int));
                explore(st, v, n, fi, ti, Ghost((f - 1) as nat));
                proof {
                    lemma_unvisited_mono(before.visited@, st.visited@, v as int);
                    lemma_keeps_trans(st0, before, *st, n as int);
                }
                st.marks.set(j, false);
                proof {
                    st.seen@ = st.seen@.update(j as int, true);
                }
            } else if st.stacked[v] {
                st.marks.set(j, true);
                proof {
                    st.seen@ = st.seen@.update(j as int, true);
                    if v != u {
                        assert(st.path@[st.depth@[v as int]] == v);
                    }
                    let p = st.path@.subrange(st.depth@[v as int], st.path@.len() as int);
                    assert forall|k: int| #![trigger p[k]] 0 < k < p.len() implies linked(
                        fi@,
                        ti@,
                        p[k - 1],
                        p[k],
                    ) by {
                        let d = st.depth@[v as int];
                        assert(p[k] == st.path@[d + k]);
                        assert(p[k - 1] == st.path@[d + k - 1]);
                    }
                    assert(walk(fi@, ti@, p));
                    assert(p[0] == v);
                    assert(p.last() == u);
                    assert(reach(fi@, ti@, ti@[j as int] as int, fi@[j as int] as int));
                }
            } else {
                st.marks.set(j, false);
                proof {
                    st.seen@ = st.seen@.update(j as int, true);
                }
            }
        }
        proof {
            assert(dfs_edges(fi@, ti@, (f - 1) as nat, view_of(top), u as int, j as int) == dfs_edges(
                fi@,
                ti@,
                (f - 1) as nat,
                view_of(*st),
                u as int,
                j + 1,
            ));
        }
        j = j + 1;
    }
    let ghost st2 = *st;
    st.stacked.set(u, false);
    proof {
        assert(view_of(st1) == SearchState {
            visited: st0.visited@.update(u as int, true),
            stacked: st0.stacked@.update(u as int, true),
            marks: st0.marks@,
        });
        assert(dfs_edges(fi@, ti@, (f - 1) as nat, view_of(st2), u as int, mm as int) == Some(view_of(st2)));
        assert(view_of(*st) == SearchState { stacked: st2.stacked@.update(u as int, false), ..view_of(st2) });
    }
    proof {
        st.fin@ = st.fin@.update(u as int, st.clock@);
        st.clock@ = st.clock@ + 1;
        st.path@ = st.path@.drop_last();
        assert(st.path@ == st0.path@);
        assert forall|i: int| 0 <= i < m && #[trigger] st.marks@[i] && fi@[i] != ti@[i] implies {
            let a = fi@[i] as int;
            let b = ti@[i] as int;
            &&& finished(*st, b) ==> finished(*st, a) && st.fin@[a] < st.fin@[b]
            &&& !finished(*st, b) ==> st.stacked@[b] && (finished(*st, a) || (st.stacked@[a]
                && st.depth@[a] > st.depth@[b]))
        } by {
            let a = fi@[i] as int;
            let b = ti@[i] as int;
            if b == u {
                assert(!finished(st2, b));
                if st2.stacked@[a] {
                    assert(st2.path@[st2.depth@[a]] == a);
                }
            }
        }
        assert forall|i: int| 0 <= i < m && #[trigger] st.seen@[i] && !st.marks@[i] implies {
            let a = fi@[i] as int;
            let b = ti@[i] as int;
            finished(*st, b) && (finished(*st, a) ==> st.fin@[a] > st.fin@[b])
        } by {
            let b = ti@[i] as int;
            assert(finished(st2, b));
        }
        assert forall|i: int| 0 <= i < m && finished(*st, fi@[i] as int) implies #[trigger] st.seen@[i] by {
            if fi@[i] != u {
                assert(finished(st2, fi@[i] as int));
            }
        }
        assert forall|v: int| 0 <= v < n && finished(*st, v) implies 0 <= #[trigger] st.fin@[v] < st.clock@ by {
            if v != u {
                assert(finished(st2, v));
            }
        }
        assert forall|k: int| 0 <= k < st.path@.len() implies 0 <= #[trigger] st.path@[k] < n
            && st.stacked@[st.path@[k]] && st.depth@[st.path@[k]] == k by {
            assert(st.path@[k] == st2.path@[k]);
            assert(st2.stacked@[st2.path@[k]]);
            assert(st2.depth@[st2.path@[k]] == k);
        }
        assert forall|v: int| 0 <= v < n && #[trigger] st.stacked@[v] implies st.visited@[v] && 0
            <= st.depth@[v] < st.path@.len() && st.path@[st.depth@[v]] == v by {
            assert(st2.stacked@[v]);
            assert(st2.path@[st2.depth@[v]] == v);
        }
        assert forall|k: int|
            #![trigger st.path@[k]]
            0 < k < st.path@.len() implies linked(fi@, ti@, st.path@[k - 1], st.path@[k]) by {
            assert(st.path@[k] == st2.path@[k]);
            assert(st.path@[k - 1] == st2.path@[k - 1]);
        }
        assert forall|v: int|
            0 <= v < n && #[trigger] finished(st0, v) implies finished(*st, v) && st.fin@[v]
                == st0.fin@[v] by {
            assert(finished(st2, v));
        }
    }
}

/// Marks the back edges of a depth-first search from vertices `0..roots`,
/// in order, and gives a finishing time to each vertex, such that every
/// edge from a reached vertex goes from a later to an earlier time, or,
/// when marked and not a loop, from an earlier to a later one. The reached
/// vertices hold the roots and are closed under the edges.
fn back_edges(n: usize, roots: usize, fi: &Vec<usize>, ti: &Vec<usize>) -> (r: (
    Vec<bool>,
    Ghost<Seq<int>>,
    Ghost<Seq<bool>>,
))
    requires
        roots <= n,
        fi@.len() == ti@.len(),
        forall|i: int| 0 <= i < fi@.len() ==> fi@[i] < n && ti@[i] < n,
    ensures
        r.0@.len() == fi@.len(),
        r.1@.len() == n,
        r.2@.len() == n,
        forall|q: int| 0 <= q < roots ==> #[trigger] r.2@[q],
        forall|i: int| 0 <= i < fi@.len() && r.2@[#[trigger] fi@[i] as int] ==> r.2@[ti@[i] as int],
        forall|i: int|
            0 <= i < fi@.len() && r.2@[#[trigger] fi@[i] as int] ==> {
                let a = fi@[i] as int;
                let b = ti@[i] as int;
                &&& !r.0@[i] ==> r.1@[a] > r.1@[b]
                &&& r.0@[i] && a != b ==> r.1@[b] > r.1@[a]
            },
        forall|i: int| 0 <= i < fi@.len() && #[trigger] r.0@[i] ==> reach(fi@, ti@, ti@[i] as int, fi@[i] as int),
        r.0@ == search_marks(fi@, ti@, n as nat, roots as int),
{
    let m = fi.len();
    let mut visited: Vec<bool> = Vec::new();
    let mut stacked: Vec<bool> = Vec::new();
    for k in 0..n
        invariant
            visited@ == Seq::new(k as nat, |i: int| false),
            stacked@ == Seq::new(k as nat, |i: int| false),
    {
        visited.push(false);
        stacked.push(false);
    }
    let mut marks: Vec<bool> = Vec::new();
    for k in 0..m
        invariant
            marks@ == Seq::new(k as nat, |i: int| false),
    {
        marks.push(false);
    }
    let mut st = Search {
        visited,
        stacked,
        marks,
        fin: Ghost(Seq::new(n as nat, |i: int| 0)),
        clock: Ghost(0),
        path: Ghost(Seq::empty()),
        depth: Ghost(Seq::new(n as nat, |i: int| 0)),
        seen: Ghost(Seq::new(m as nat, |i: int| false)),
    };
    let ghost big = (n + 1) as nat;
    let ghost s0 = view_of(st);
    assert(s0 == initial_state(n as nat, m as nat));
    for k in 0..roots
        invariant
            roots <= n,
            m == fi@.len(),
            big == n + 1,
            inv(st, n as int, fi@, ti@),
            st.path@.len() == 0,
            forall|q: int| 0 <= q < k ==> #[trigger] st.visited@[q],
            dfs_roots(fi@, ti@, big, s0, 0, roots as int) == dfs_roots(fi@, ti@, big, view_of(st), k as int, roots as int),
    {
        if !st.visited[k] {
            let ghost before = st;
            proof {
                lemma_unvisited_bound(st.visited@);
            }
            explore(&mut st, k, n, fi, ti, Ghost(big));
            assert forall|q: int| 0 <= q < k + 1 implies #[trigger] st.visited@[q] by {
                if q < k {
                    assert(before.visited@[q]);
                }
            }
        }
    }
    assert(dfs_roots(fi@, ti@, big, view_of(st), roots as int, roots as int) == Some(view_of(st)));
    proof {
        assert forall|v: int| 0 <= v < n implies !#[trigger] st.stacked@[v] by {
            if st.stacked@[v] {
                assert(0 <= st.depth@[v] < st.path@.len());
            }
        }
        assert forall|i: int| 0 <= i < m && st.visited@[#[trigger] fi@[i] as int] implies {
            let a = fi@[i] as int;
            let b = ti@[i] as int;
            &&& !st.marks@[i] ==> st.fin@[a] > st.fin@[b]
            &&& st.marks@[i] && a != b ==> st.fin@[b] > st.fin@[a]
        } by {
            let a = fi@[i] as int;
            assert(!st.stacked@[a]);
            assert(finished(st, a));
            assert(st.seen@[i]);
            let b = ti@[i] as int;
            assert(!st.stacked@[b]);
        }
        assert forall|i: int| 0 <= i < m && st.visited@[#[trigger] fi@[i] as int] implies st.visited@[ti@[i] as int] by {
            let a = fi@[i] as int;
            let b = ti@[i] as int;
            assert(!st.stacked@[a]);
            assert(finished(st, a));
            assert(st.seen@[i]);
            assert(!st.stacked@[b]);
        }
    }
    let ghost reached = st.visited@;
    (st.marks, st.fin, Ghost(reached))
}

proof fn lemma_lift_reach(
    vs: Seq<Seq<char>>,
    edges: Seq<SpecEdge>,
    fi: Seq<usize>,
    ti: Seq<usize>,
    x: int,
    y: int,
)
    requires
        reach(fi, ti, x, y),
        fi.len() == ti.len() == edges.len(),
        forall|e: int| 0 <= e < edges.len() ==> vs[fi[e] as int] == (#[trigger] edges[e]).from,
        forall|e: int| 0 <= e < edges.len() ==> vs[ti[e] as int] == (#[trigger] edges[e]).to,
    ensures
        reaches(edges, vs[x], vs[y]),
{
    let q = choose|q: Seq<int>| #[trigger] walk(fi, ti, q) && q[0] == x && q.last() == y;
    let p = q.map_values(|v: int| vs[v]);
    assert forall|k: int| #![trigger p[k]] 0 < k < p.len() implies step(edges, p[k - 1], p[k]) by {
        assert(q[k] == q[k]);
        assert(linked(fi, ti, q[k - 1], q[k]));
        let e = choose|e: int| 0 <= e < fi.len() && fi[e] == q[k - 1] && ti[e] == q[k];
        assert(edges[e].from == p[k - 1]);
        assert(edges[e].to == p[k]);
    }
    assert(edge_walk(edges, p));
}

/// A vertex that a walk reaches from a reached vertex is reached, when the
/// reached vertices are closed under the edges.
proof fn lemma_walk_reached(
    vs: Seq<Seq<char>>,
    edges: Seq<SpecEdge>,
    fi: Seq<usize>,
    ti: Seq<usize>,
    reached: Seq<bool>,
    d: int,
    y: Seq<char>,
)
    requires
        all_distinct(vs),
        reached.len() == vs.len(),
        fi.len() == ti.len() == edges.len(),
        forall|e: int| 0 <= e < edges.len() ==> fi[e] < vs.len() && ti[e] < vs.len(),
        forall|e: int| 0 <= e < edges.len() ==> vs[fi[e] as int] == (#[trigger] edges[e]).from,
        forall|e: int| 0 <= e < edges.len() ==> vs[ti[e] as int] == (#[trigger] edges[e]).to,
        forall|e: int| 0 <= e < edges.len() && reached[#[trigger] fi[e] as int] ==> reached[ti[e] as int],
        0 <= d < vs.len(),
        reached[d],
        reaches(edges, vs[d], y),
    ensures
        forall|j: int| 0 <= j < vs.len() && vs[j] == y ==> reached[j],
{
    let p = choose|p: Seq<Seq<char>>| #[trigger] edge_walk(edges, p) && p[0] == vs[d] && p.last() == y;
    lemma_prefix_reached(vs, edges, fi, ti, reached, d, p, p.len() as int);
}

proof fn lemma_prefix_reached(
    vs: Seq<Seq<char>>,
    edges: Seq<SpecEdge>,
    fi: Seq<usize>,
    ti: Seq<usize>,
    reached: Seq<bool>,
    d: int,
    p: Seq<Seq<char>>,
    k: int,
)
    requires
        all_distinct(vs),
        reached.len() == vs.len(),
        fi.len() == ti.len() == edges.len(),
        forall|e: int| 0 <= e < edges.len() ==> fi[e] < vs.len() && ti[e] < vs.len(),
        forall|e: int| 0 <= e < edges.len() ==> vs[fi[e] as int] == (#[trigger] edges[e]).from,
        forall|e: int| 0 <= e < edges.len() ==> vs[ti[e] as int] == (#[trigger] edges[e]).to,
        forall|e: int| 0 <= e < edges.len() && reached[#[trigger] fi[e] as int] ==> reached[ti[e] as int],
        0 <= d < vs.len(),
        reached[d],
        edge_walk(edges, p),
        p[0] == vs[d],
        1 <= k <= p.len(),
    ensures
        forall|j: int| 0 <= j < vs.len() && vs[j] == p[k - 1] ==> reached[j],
    decreases k,
{
    if k == 1 {
        assert forall|j: int| 0 <= j < vs.len() && vs[j] == p[k - 1] implies reached[j] by {
            if j != d {
                assert(vs[j] != vs[d]);
            }
        }
    } else {
        lemma_prefix_reached(vs, edges, fi, ti, reached, d, p, k - 1);
        assert(p[k - 1] == p[k - 1]);
        assert(step(edges, p[k - 2], p[k - 1]));
        let e = choose|e: int| 0 <= e < edges.len() && edges[e].from == p[k - 2] && edges[e].to == p[k - 1];
        assert(vs[fi[e] as int] == edges[e].from);
        assert(reached[fi[e] as int]);
        assert(reached[ti[e] as int]);
        assert forall|j: int| 0 <= j < vs.len() && vs[j] == p[k - 1] implies reached[j] by {
            if j != ti[e] as int {
                assert(vs[j] != vs[ti[e] as int]);
            }
        }
    }
}

fn copy_edge(e: &Edge, flip: bool) -> (r: Edge)
    ensures
        r@ == if flip {
            reversed(e@)
        } else {
            e@
        },
{
    if flip {
        Edge { from: e.to.clone(), to: e.from.clone(), style: e.style, label: copy_opt(&e.label) }
    } else {
        Edge { from: e.from.clone(), to: e.to.clone(), style: e.style, label: copy_opt(&e.label) }
    }
}

/// Reverses the edges that a depth-first search from each node, in node
/// order, meets as back edges.
pub fn remove_cycles(graph: &mut DirectedGraph)
    requires
        old(graph).wf(),
    ensures
        final(graph).wf(),
        final(graph).nodes == old(graph).nodes,
        final(graph).direction == old(graph).direction,
        final(graph).subgraphs == old(graph).subgraphs,
        final(graph)@.edges.len() == old(graph)@.edges.len(),
        forall|i: int|
            0 <= i < old(graph)@.edges.len() ==> #[trigger] final(graph)@.edges[i] == if back_edge_marks(
                old(graph)@,
            )[i] {
                reversed(old(graph)@.edges[i])
            } else {
                old(graph)@.edges[i]
            },
        forall|i: int|
            0 <= i < old(graph)@.edges.len() ==> #[trigger] final(graph)@.edges[i] == old(graph)@.edges[i]
                || (final(graph)@.edges[i] == reversed(old(graph)@.edges[i]) && reaches(
                old(graph)@.edges,
                old(graph)@.edges[i].to,
                old(graph)@.edges[i].from,
            )),
        sources_reachable(old(graph)@) ==> acyclic_except_loops(final(graph)@.edges),
        (forall|i: int|
            0 <= i < old(graph)@.edges.len() ==> !reaches(
                old(graph)@.edges,
                #[trigger] old(graph)@.edges[i].to,
                old(graph)@.edges[i].from,
            )) ==> final(graph)@.edges == old(graph)@.edges,
{
    let (table, fi, ti) = vertex_table(graph);
    let (marks, fin, reached) = back_edges(table.len(), graph.nodes.len(), &fi, &ti);
    proof {
        let g = graph@;
        let t = vertex_ids(g);
        assert(texts(table@) == t);
        assert forall|i: int| 0 <= i < fi@.len() implies fi@[i] == #[trigger] end_indices(g, true)[i] by {
            let k = vertex_index(t, g.edges[i].from);
            assert(t[fi@[i] as int] == g.edges[i].from);
            assert(0 <= k < t.len() && t[k] == g.edges[i].from);
            assert(k == fi@[i]);
        }
        assert forall|i: int| 0 <= i < ti@.len() implies ti@[i] == #[trigger] end_indices(g, false)[i] by {
            let k = vertex_index(t, g.edges[i].to);
            assert(t[ti@[i] as int] == g.edges[i].to);
            assert(0 <= k < t.len() && t[k] == g.edges[i].to);
            assert(k == ti@[i]);
        }
        assert(fi@ =~= end_indices(g, true));
        assert(ti@ =~= end_indices(g, false));
        assert(marks@ == back_edge_marks(g));
    }
    let ghost vs = texts(table@);
    let ghost old_edges = graph@.edges;
    let m = graph.edges.len();
    let mut out: Vec<Edge> = Vec::new();
    for i in 0..m
        invariant
            m == graph.edges@.len() == marks@.len(),
            old_edges == graph@.edges,
            out@.len() == i,
            forall|q: int|
                0 <= q < i ==> (#[trigger] out@[q])@ == if marks@[q] {
                    reversed(old_edges[q])
                } else {
                    old_edges[q]
                },
    {
        out.push(copy_edge(&graph.edges[i], marks[i]));
    }
    graph.edges = out;
    proof {
        let new_edges = graph@.edges;
        assert forall|i: int| 0 <= i < m implies #[trigger] new_edges[i] == old_edges[i] || (
        new_edges[i] == reversed(old_edges[i]) && reaches(
            old_edges,
            old_edges[i].to,
            old_edges[i].from,
        )) by {
            assert(new_edges[i] == graph.edges@[i]@);
            if marks@[i] {
                lemma_lift_reach(vs, old_edges, fi@, ti@, ti@[i] as int, fi@[i] as int);
            }
        }
        if forall|i: int|
            0 <= i < old_edges.len() ==> !reaches(
                old_edges,
                #[trigger] old_edges[i].to,
                old_edges[i].from,
            ) {
            assert forall|i: int| 0 <= i < m implies new_edges[i] == old_edges[i] by {
                assert(new_edges[i] == old_edges[i] || reaches(old_edges, old_edges[i].to, old_edges[i].from));
            }
            assert(new_edges =~= old_edges);
        }
        if sources_reachable(old(graph)@) {
            let rank = |s: Seq<char>| fin@[choose|k: int| 0 <= k < vs.len() && vs[k] == s];
            assert forall|i: int|
                0 <= i < new_edges.len() && new_edges[i].from != new_edges[i].to implies #[trigger] rank(
                new_edges[i].from,
            ) > rank(new_edges[i].to) by {
                let a = fi@[i] as int;
                let b = ti@[i] as int;
                assert(new_edges[i] == graph.edges@[i]@);
                let nodes = old(graph)@.nodes;
                let d = choose|d: int|
                    0 <= d < nodes.len() && reaches(old_edges, nodes[d].id, #[trigger] old_edges[i].from);
                assert(vs[d] == nodes[d].id);
                lemma_walk_reached(vs, old_edges, fi@, ti@, reached@, d, old_edges[i].from);
                let ca = choose|k: int| 0 <= k < vs.len() && vs[k] == old_edges[i].from;
                let cb = choose|k: int| 0 <= k < vs.len() && vs[k] == old_edges[i].to;
                assert(vs[a] == old_edges[i].from);
                assert(vs[b] == old_edges[i].to);
                assert(ca == a);
                assert(cb == b);
                assert(reached@[a]);
            }
            assert(ranks_down(new_edges, rank));
            assert(acyclic_except_loops(new_edges));
        }
    }
}

} // verus!
