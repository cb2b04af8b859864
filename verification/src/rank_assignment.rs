//! Layering a flowchart: each node whose ancestors form no cycle gets the
//! length of the longest path that leads to it, and each other node that an
//! edge from such a node reaches gets one more than the largest such source.

use vstd::prelude::*;
use crate::cycle_removal::{
    acyclic_except_loops, all_distinct, lemma_unvisited_mono, ranks_down, texts, unvisited, vertex_table,
};
use crate::directed_graph::{find_node, lemma_find_node, DirectedGraph, GraphView, NodeDetails, SpecNode};
use crate::mermaid_graph::{edge_views, subgraph_list_views, Edge, Subgraph};
use crate::mermaid_source::str_views;
use crate::text::string_of;

verus! {

// ── Over vertex numbers ──────────────────────────────────────────────────────

/// Within `f` rounds of peeling off vertices whose incoming edges all come
/// from peeled vertices, `x` (a node or an edge target) is peeled.
pub open spec fn settled_at(key: Seq<bool>, fi: Seq<usize>, ti: Seq<usize>, x: int, f: nat) -> bool
    decreases f,
{
    if f == 0 {
        false
    } else {
        key[x] && forall|j: int|
            #![trigger ti[j]]
            0 <= j < fi.len() && ti[j] == x ==> settled_at(key, fi, ti, fi[j] as int, (f - 1) as nat)
    }
}

/// One more than the largest rank of a popped source of the edges `0..k`
/// into `x`, and at least 0.
pub open spec fn best(
    fi: Seq<usize>,
    ti: Seq<usize>,
    popped: Seq<bool>,
    rank: Seq<usize>,
    x: int,
    k: int,
) -> int
    decreases k,
{
    if k <= 0 {
        0
    } else {
        let b = best(fi, ti, popped, rank, x, k - 1);
        let s = fi[k - 1] as int;
        if ti[k - 1] == x && popped[s] && rank[s] + 1 > b {
            rank[s] + 1
        } else {
            b
        }
    }
}

proof fn lemma_best_frame(
    fi: Seq<usize>,
    ti: Seq<usize>,
    p1: Seq<bool>,
    r1: Seq<usize>,
    p2: Seq<bool>,
    r2: Seq<usize>,
    x: int,
    k: int,
)
    requires
        forall|j: int|
            0 <= j < k && ti[j] == x ==> p1[fi[j] as int] == p2[fi[j] as int] && (p1[fi[j] as int]
                ==> r1[fi[j] as int] == r2[fi[j] as int]),
    ensures
        best(fi, ti, p1, r1, x, k) == best(fi, ti, p2, r2, x, k),
    decreases k,
{
    if k > 0 {
        lemma_best_frame(fi, ti, p1, r1, p2, r2, x, k - 1);
    }
}

proof fn lemma_best_bound(fi: Seq<usize>, ti: Seq<usize>, p: Seq<bool>, r: Seq<usize>, x: int, k: int, cap: int)
    requires
        cap >= 0,
        forall|j: int| 0 <= j < k && ti[j] == x && p[fi[j] as int] ==> r[fi[j] as int] < cap,
    ensures
        0 <= best(fi, ti, p, r, x, k) <= cap,
    decreases k,
{
    if k > 0 {
        lemma_best_bound(fi, ti, p, r, x, k - 1, cap);
    }
}

proof fn lemma_unvisited_set(s: Seq<bool>, x: int)
    requires
        0 <= x < s.len(),
        !s[x],
    ensures
        unvisited(s.update(x, true)) + 1 == unvisited(s),
    decreases s.len(),
{
    let t = s.update(x, true);
    if x < s.len() - 1 {
        assert(t.drop_last() =~= s.drop_last().update(x, true));
        lemma_unvisited_set(s.drop_last(), x);
    } else {
        assert(t.drop_last() =~= s.drop_last());
    }
}

proof fn lemma_unvisited_bound(s: Seq<bool>)
    ensures
        unvisited(s) <= s.len(),
    decreases s.len(),
{
    if s.len() > 0 {
        lemma_unvisited_bound(s.drop_last());
    }
}

fn best_of(
    fi: &Vec<usize>,
    ti: &Vec<usize>,
    popped: &Vec<bool>,
    rank: &Vec<usize>,
    x: usize,
    cap: usize,
) -> (b: usize)
    requires
        fi@.len() == ti@.len(),
        popped@.len() == rank@.len(),
        forall|j: int| 0 <= j < fi@.len() ==> fi@[j] < popped@.len(),
        forall|j: int|
            0 <= j < fi@.len() && ti@[j] == x && popped@[fi@[j] as int] ==> rank@[fi@[j] as int]
                < cap,
    ensures
        b == best(fi@, ti@, popped@, rank@, x as int, fi@.len() as int),
{
    let m = fi.len();
    let mut b: usize = 0;
    for j in 0..m
        invariant
            m == fi@.len() == ti@.len(),
            popped@.len() == rank@.len(),
            forall|q: int| 0 <= q < m ==> fi@[q] < popped@.len(),
            forall|q: int|
                0 <= q < m && ti@[q] == x && popped@[fi@[q] as int] ==> rank@[fi@[q] as int] < cap,
            b == best(fi@, ti@, popped@, rank@, x as int, j as int),
    {
        let s = fi[j];
        if ti[j] == x && popped[s] && rank[s] + 1 > b {
            b = rank[s] + 1;
        }
    }
    b
}

fn preds_popped(fi: &Vec<usize>, ti: &Vec<usize>, popped: &Vec<bool>, x: usize) -> (r: bool)
    requires
        fi@.len() == ti@.len(),
        forall|j: int| 0 <= j < fi@.len() ==> fi@[j] < popped@.len(),
    ensures
        r == forall|j: int| 0 <= j < fi@.len() && ti@[j] == x ==> popped@[fi@[j] as int],
{
    let m = fi.len();
    for j in 0..m
        invariant
            m == fi@.len() == ti@.len(),
            forall|q: int| 0 <= q < m ==> fi@[q] < popped@.len(),
            forall|q: int| 0 <= q < j && ti@[q] == x ==> popped@[fi@[q] as int],
    {
        if ti[j] == x && !popped[fi[j]] {
            return false;
        }
    }
    true
}

fn has_popped_pred(fi: &Vec<usize>, ti: &Vec<usize>, popped: &Vec<bool>, x: usize) -> (r: bool)
    requires
        fi@.len() == ti@.len(),
        forall|j: int| 0 <= j < fi@.len() ==> fi@[j] < popped@.len(),
    ensures
        r == exists|j: int| 0 <= j < fi@.len() && ti@[j] == x && popped@[fi@[j] as int],
{
    let m = fi.len();
    for j in 0..m
        invariant
            m == fi@.len() == ti@.len(),
            forall|q: int| 0 <= q < m ==> fi@[q] < popped@.len(),
            forall|q: int| 0 <= q < j && ti@[q] == x ==> !popped@[fi@[q] as int],
    {
        if ti[j] == x && popped[fi[j]] {
            return true;
        }
    }
    false
}

/// The bookkeeping of the peeling: the order in which vertices were peeled
/// and the position of each.
spec fn peel_inv(
    key: Seq<bool>,
    fi: Seq<usize>,
    ti: Seq<usize>,
    n: int,
    popped: Seq<bool>,
    rank: Seq<usize>,
    ord: Seq<int>,
    pos: Seq<int>,
) -> bool {
    let m = fi.len();
    &&& key.len() == n
    &&& ti.len() == m
    &&& forall|j: int| 0 <= j < m ==> fi[j] < n && ti[j] < n
    &&& popped.len() == n
    &&& rank.len() == n
    &&& pos.len() == n
    &&& forall|k: int|
        0 <= k < ord.len() ==> 0 <= #[trigger] ord[k] < n && popped[ord[k]] && pos[ord[k]] == k
    &&& forall|x: int|
        0 <= x < n && #[trigger] popped[x] ==> 0 <= pos[x] < ord.len() && ord[pos[x]] == x && key[x]
            && rank[x] < ord.len() && rank[x] == best(fi, ti, popped, rank, x, m as int)
    &&& forall|x: int, j: int|
        0 <= x < n && 0 <= j < m && #[trigger] popped[x] && #[trigger] ti[j] == x ==> popped[fi[j] as int]
            && pos[fi[j] as int] < pos[x]
    &&& ord.len() + unvisited(popped) == n
    &&& forall|x: int| 0 <= x < n ==> #[trigger] rank[x] <= n
}

proof fn lemma_peeled_settled(
    key: Seq<bool>,
    fi: Seq<usize>,
    ti: Seq<usize>,
    n: int,
    popped: Seq<bool>,
    rank: Seq<usize>,
    ord: Seq<int>,
    pos: Seq<int>,
    x: int,
    f: nat,
)
    requires
        peel_inv(key, fi, ti, n, popped, rank, ord, pos),
        0 <= x < n,
        popped[x],
        f > pos[x],
    ensures
        settled_at(key, fi, ti, x, f),
    decreases pos[x],
{
    assert forall|j: int| #![trigger ti[j]] 0 <= j < fi.len() && ti[j] == x implies settled_at(
        key,
        fi,
        ti,
        fi[j] as int,
        (f - 1) as nat,
    ) by {
        assert(popped[x] && ti[j] == x);
        lemma_peeled_settled(key, fi, ti, n, popped, rank, ord, pos, fi[j] as int, (f - 1) as nat);
    }
}

proof fn lemma_settled_peeled(key: Seq<bool>, fi: Seq<usize>, ti: Seq<usize>, n: int, popped: Seq<bool>, x: int, f: nat)
    requires
        key.len() == n,
        popped.len() == n,
        fi.len() == ti.len(),
        forall|j: int| 0 <= j < fi.len() ==> fi[j] < n && ti[j] < n,
        forall|y: int|
            0 <= y < n && key[y] && !popped[y] ==> exists|j: int|
                0 <= j < fi.len() && ti[j] == y && !popped[fi[j] as int],
        0 <= x < n,
        settled_at(key, fi, ti, x, f),
    ensures
        popped[x],
    decreases f,
{
    if !popped[x] {
        let j = choose|j: int| 0 <= j < fi.len() && ti[j] == x && !popped[fi[j] as int];
        assert(ti[j] == x);
        lemma_settled_peeled(key, fi, ti, n, popped, fi[j] as int, (f - 1) as nat);
    }
}

/// Peels the graph and ranks its vertices: `r.0` tells which vertices were
/// peeled, `r.2` which are ranked, `r.1` their ranks.
fn layer(n: usize, key: &Vec<bool>, fi: &Vec<usize>, ti: &Vec<usize>) -> (r: (
    Vec<bool>,
    Vec<usize>,
    Vec<bool>,
))
    requires
        key@.len() == n,
        fi@.len() == ti@.len(),
        forall|j: int| 0 <= j < fi@.len() ==> fi@[j] < n && ti@[j] < n,
    ensures
        r.0@.len() == n,
        r.1@.len() == n,
        r.2@.len() == n,
        forall|x: int| 0 <= x < n && #[trigger] r.0@[x] ==> settled_at(key@, fi@, ti@, x, n as nat),
        forall|x: int, f: nat| 0 <= x < n && #[trigger] settled_at(key@, fi@, ti@, x, f) ==> r.0@[x],
        forall|x: int|
            0 <= x < n ==> (#[trigger] r.2@[x] <==> (r.0@[x] || exists|j: int|
                0 <= j < fi@.len() && ti@[j] == x && r.0@[fi@[j] as int])),
        forall|x: int|
            0 <= x < n && #[trigger] r.2@[x] ==> r.1@[x] == best(
                fi@,
                ti@,
                r.0@,
                r.1@,
                x,
                fi@.len() as int,
            ),
        forall|x: int| 0 <= x < n && #[trigger] r.2@[x] ==> r.1@[x] < n,
{
    let m = fi.len();
    let mut popped: Vec<bool> = Vec::new();
    let mut rank: Vec<usize> = Vec::new();
    for k in 0..n
        invariant
            popped@ == Seq::new(k as nat, |i: int| false),
            rank@ == Seq::new(k as nat, |i: int| 0usize),
    {
        popped.push(false);
        rank.push(0);
    }
    let ghost mut ord: Seq<int> = Seq::empty();
    let ghost mut pos: Seq<int> = Seq::new(n as nat, |i: int| 0);
    proof {
        assert forall|k: int| 0 <= k <= popped@.len() implies unvisited(popped@.take(k)) == k by {
            lemma_unvisited_prefix(popped@, k);
        }
        assert(popped@.take(n as int) =~= popped@);
    }
    loop
        invariant
            m == fi@.len(),
            peel_inv(key@, fi@, ti@, n as int, popped@, rank@, ord, pos),
        ensures
            peel_inv(key@, fi@, ti@, n as int, popped@, rank@, ord, pos),
            forall|y: int|
                0 <= y < n && key@[y] && !popped@[y] ==> exists|j: int|
                    0 <= j < m && ti@[j] == y && !popped@[fi@[j] as int],
        decreases unvisited(popped@),
    {
        let ghost start = popped@;
        let mut changed = false;
        for x in 0..n
            invariant
                m == fi@.len(),
                peel_inv(key@, fi@, ti@, n as int, popped@, rank@, ord, pos),
                forall|v: int| 0 <= v < n && start[v] ==> #[trigger] popped@[v],
                start.len() == n,
                changed ==> unvisited(popped@) < unvisited(start),
                !changed ==> popped@ == start,
                !changed ==> forall|y: int|
                    0 <= y < x && key@[y] && !popped@[y] ==> exists|j: int|
                        0 <= j < m && ti@[j] == y && !popped@[fi@[j] as int],
        {
            if key[x] && !popped[x] && preds_popped(fi, ti, &popped, x) {
                proof {
                    lemma_unvisited_bound(popped@);
                    assert forall|j: int|
                        0 <= j < m && ti@[j] == x && popped@[fi@[j] as int] implies rank@[fi@[j] as int]
                            < ord.len() by {
                        assert(popped@[fi@[j] as int]);
                    }
                }
                let cap = n;
                let b = best_of(fi, ti, &popped, &rank, x, cap);
                proof {
                    lemma_best_bound(fi@, ti@, popped@, rank@, x as int, m as int, ord.len() as int);
                }
                let ghost p0 = popped@;
                let ghost r0 = rank@;
                let ghost o0 = ord;
                rank.set(x, b);
                popped.set(x, true);
                proof {
                    lemma_unvisited_set(p0, x as int);
                    lemma_unvisited_mono(start, p0, 0);
                    pos = pos.update(x as int, ord.len() as int);
                    ord = ord.push(x as int);
                    assert forall|k: int|
                        0 <= k < ord.len() implies 0 <= #[trigger] ord[k] < n && popped@[ord[k]]
                            && pos[ord[k]] == k by {
                        if k < o0.len() {
                            assert(ord[k] == o0[k]);
                            assert(p0[o0[k]]);
                        }
                    }
                    assert forall|y: int|
                        0 <= y < n && #[trigger] popped@[y] implies 0 <= pos[y] < ord.len() && ord[pos[y]]
                            == y && key@[y] && rank@[y] < ord.len() && rank@[y] == best(
                            fi@,
                            ti@,
                            popped@,
                            rank@,
                            y,
                            m as int,
                        ) by {
                        if y == x {
                            lemma_best_frame(fi@, ti@, p0, r0, popped@, rank@, y, m as int);
                        } else {
                            assert(p0[y]);
                            assert forall|j: int| 0 <= j < m && ti@[j] == y implies p0[fi@[j] as int]
                                == popped@[fi@[j] as int] && (p0[fi@[j] as int] ==> r0[fi@[j] as int]
                                == rank@[fi@[j] as int]) by {
                                assert(p0[y] && ti@[j] == y);
                            }
                            lemma_best_frame(fi@, ti@, p0, r0, popped@, rank@, y, m as int);
                        }
                    }
                    assert forall|y: int, j: int|
                        0 <= y < n && 0 <= j < m && #[trigger] popped@[y] && #[trigger] ti@[j] == y implies popped@[fi@[j] as int]
                            && pos[fi@[j] as int] < pos[y] by {
                        if y == x {
                            assert(p0[fi@[j] as int]);
                        } else {
                            assert(p0[y]);
                        }
                    }
                    assert forall|v: int| 0 <= v < n && start[v] implies #[trigger] popped@[v] by {
                        assert(p0[v]);
                    }
                    assert forall|y: int| 0 <= y < n implies #[trigger] rank@[y] <= n by {
                        if y != x {
                            assert(rank@[y] == r0[y]);
                        }
                    }
                }
                changed = true;
            }
        }
        if !changed {
            proof {
                assert forall|y: int|
                    0 <= y < n && key@[y] && !popped@[y] implies exists|j: int|
                        0 <= j < m && ti@[j] == y && !popped@[fi@[j] as int] by {}
            }
            break;
        }
    }
    let ghost pf = popped@;
    proof {
        assert forall|x: int| 0 <= x < n && #[trigger] pf[x] implies settled_at(key@, fi@, ti@, x, n as nat) by {
            lemma_unvisited_bound(pf);
            lemma_peeled_settled(key@, fi@, ti@, n as int, pf, rank@, ord, pos, x, n as nat);
        }
        assert forall|x: int, f: nat| 0 <= x < n && #[trigger] settled_at(key@, fi@, ti@, x, f) implies pf[x] by {
            lemma_settled_peeled(key@, fi@, ti@, n as int, pf, x, f);
        }
    }
    let mut has: Vec<bool> = Vec::new();
    for x in 0..n
        invariant
            m == fi@.len() == ti@.len(),
            forall|j: int| 0 <= j < m ==> fi@[j] < n && ti@[j] < n,
            popped@ == pf,
            pf.len() == n,
            rank@.len() == n,
            has@.len() == x,
            peel_inv(key@, fi@, ti@, n as int, pf, rank@, ord, pos),
            forall|y: int|
                0 <= y < x ==> (#[trigger] has@[y] <==> (pf[y] || exists|j: int|
                    0 <= j < m && ti@[j] == y && pf[fi@[j] as int])),
            forall|y: int| 0 <= y < x && #[trigger] has@[y] ==> rank@[y] == best(fi@, ti@, pf, rank@, y, m as int),
            forall|y: int| 0 <= y < x && #[trigger] has@[y] ==> rank@[y] < n,
            forall|y: int| 0 <= y < n ==> #[trigger] rank@[y] <= n,
    {
        if popped[x] {
            proof {
                lemma_unvisited_bound(pf);
            }
            has.push(true);
        } else if has_popped_pred(fi, ti, &popped, x) {
            proof {
                lemma_unvisited_set(pf, x as int);
                assert forall|j: int| 0 <= j < m && ti@[j] == x && pf[fi@[j] as int] implies rank@[fi@[j] as int] < ord.len() by {
                    assert(pf[fi@[j] as int]);
                }
            }
            let b = best_of(fi, ti, &popped, &rank, x, n);
            proof {
                lemma_best_bound(fi@, ti@, pf, rank@, x as int, m as int, ord.len() as int);
            }
            let ghost r0 = rank@;
            rank.set(x, b);
            has.push(true);
            proof {
                assert forall|y: int| 0 <= y < n && #[trigger] pf[y] implies rank@[y] == r0[y] by {}
                assert forall|y: int| 0 <= y < n implies #[trigger] rank@[y] <= n by {
                    if y != x {
                        assert(rank@[y] == r0[y]);
                    }
                }
                assert forall|y: int| 0 <= y < x + 1 && #[trigger] has@[y] implies rank@[y] == best(
                    fi@,
                    ti@,
                    pf,
                    rank@,
                    y,
                    m as int,
                ) by {
                    lemma_best_frame(fi@, ti@, pf, r0, pf, rank@, y, m as int);
                }
                assert forall|y: int|
                    0 <= y < n && #[trigger] pf[y] implies 0 <= pos[y] < ord.len() && ord[pos[y]] == y
                        && key@[y] && rank@[y] < ord.len() && rank@[y] == best(fi@, ti@, pf, rank@, y, m as int) by {
                    lemma_best_frame(fi@, ti@, pf, r0, pf, rank@, y, m as int);
                }
            }
        } else {
            has.push(false);
        }
    }
    (popped, rank, has)
}

proof fn lemma_unvisited_prefix(s: Seq<bool>, k: int)
    requires
        0 <= k <= s.len(),
        forall|i: int| 0 <= i < s.len() ==> !s[i],
    ensures
        unvisited(s.take(k)) == k,
    decreases k,
{
    if k > 0 {
        assert(s.take(k).drop_last() =~= s.take(k - 1));
        lemma_unvisited_prefix(s, k - 1);
    }
}

// ── Over node ids ────────────────────────────────────────────────────────────

/// `s` is a node or the target of an edge.
pub open spec fn is_key(g: GraphView, s: Seq<char>) -> bool {
    find_node(g.nodes, s) is Some || exists|j: int| 0 <= j < g.edges.len() && g.edges[j].to == s
}

/// Within `f` rounds of peeling off the nodes whose incoming edges all come
/// from peeled nodes, `s` is peeled.
pub open spec fn settled_within(g: GraphView, s: Seq<char>, f: nat) -> bool
    decreases f,
{
    if f == 0 {
        false
    } else {
        is_key(g, s) && forall|j: int|
            #![trigger g.edges[j]]
            0 <= j < g.edges.len() && g.edges[j].to == s ==> settled_within(
                g,
                g.edges[j].from,
                (f - 1) as nat,
            )
    }
}

/// `s` is peeled: no cycle, and no edge from an undeclared source, lies
/// behind it.
pub open spec fn settled(g: GraphView, s: Seq<char>) -> bool {
    exists|f: nat| #[trigger] settled_within(g, s, f)
}

/// `s` gets a rank: it is peeled, or an edge from a peeled node reaches it.
pub open spec fn ranked(g: GraphView, s: Seq<char>) -> bool {
    settled(g, s) || exists|j: int|
        0 <= j < g.edges.len() && g.edges[j].to == s && settled(g, g.edges[j].from)
}

pub open spec fn level_views(v: Seq<Vec<String>>) -> Seq<Seq<Seq<char>>> {
    v.map_values(|l: Vec<String>| str_views(l@))
}

/// The rank at which `s` stands.
pub open spec fn level_of(levels: Seq<Seq<Seq<char>>>, s: Seq<char>) -> int {
    choose|r: int| 0 <= r < levels.len() && levels[r].contains(s)
}

/// One more than the largest rank of a peeled source of the edges `0..k`
/// into `s`, and at least 0.
pub open spec fn longest_in(g: GraphView, levels: Seq<Seq<Seq<char>>>, s: Seq<char>, k: int) -> int
    decreases k,
{
    if k <= 0 {
        0
    } else {
        let b = longest_in(g, levels, s, k - 1);
        let e = g.edges[k - 1];
        if e.to == s && settled(g, e.from) && level_of(levels, e.from) + 1 > b {
            level_of(levels, e.from) + 1
        } else {
            b
        }
    }
}

/// A graph with its nodes grouped into ranks.
#[derive(Debug, Clone)]
pub struct RankedGraph {
    pub direction: String,
    /// The node ids at each rank.
    pub ranks: Vec<Vec<String>>,
    pub nodes: Vec<NodeDetails>,
    pub edges: Vec<Edge>,
    pub subgraphs: Vec<Subgraph>,
}

proof fn lemma_settled_lift(
    g: GraphView,
    vs: Seq<Seq<char>>,
    key: Seq<bool>,
    fi: Seq<usize>,
    ti: Seq<usize>,
    x: int,
    f: nat,
)
    requires
        all_distinct(vs),
        key.len() == vs.len(),
        fi.len() == ti.len() == g.edges.len(),
        forall|j: int| 0 <= j < fi.len() ==> fi[j] < vs.len() && ti[j] < vs.len(),
        forall|j: int| 0 <= j < fi.len() ==> vs[fi[j] as int] == (#[trigger] g.edges[j]).from,
        forall|j: int| 0 <= j < fi.len() ==> vs[ti[j] as int] == (#[trigger] g.edges[j]).to,
        forall|y: int| 0 <= y < vs.len() ==> (#[trigger] key[y] <==> is_key(g, vs[y])),
        0 <= x < vs.len(),
    ensures
        settled_at(key, fi, ti, x, f) <==> settled_within(g, vs[x], f),
    decreases f,
{
    if f > 0 {
        assert forall|j: int| 0 <= j < fi.len() implies (ti[j] == x <==> g.edges[j].to == vs[x]) by {
            assert(vs[ti[j] as int] == g.edges[j].to);
        }
        assert forall|j: int| #![trigger ti[j]] 0 <= j < fi.len() && ti[j] == x implies (settled_at(
            key,
            fi,
            ti,
            fi[j] as int,
            (f - 1) as nat,
        ) <==> settled_within(g, g.edges[j].from, (f - 1) as nat)) by {
            lemma_settled_lift(g, vs, key, fi, ti, fi[j] as int, (f - 1) as nat);
        }
        if settled_at(key, fi, ti, x, f) {
            assert forall|j: int|
                #![trigger g.edges[j]]
                0 <= j < g.edges.len() && g.edges[j].to == vs[x] implies settled_within(
                g,
                g.edges[j].from,
                (f - 1) as nat,
            ) by {
                assert(ti[j] == x);
            }
        }
        if settled_within(g, vs[x], f) {
            assert forall|j: int| #![trigger ti[j]] 0 <= j < fi.len() && ti[j] == x implies settled_at(
                key,
                fi,
                ti,
                fi[j] as int,
                (f - 1) as nat,
            ) by {
                assert(g.edges[j].to == vs[x]);
            }
        }
    }
}

proof fn lemma_longest_lift(
    g: GraphView,
    vs: Seq<Seq<char>>,
    levels: Seq<Seq<Seq<char>>>,
    fi: Seq<usize>,
    ti: Seq<usize>,
    popped: Seq<bool>,
    rank: Seq<usize>,
    x: int,
    k: int,
)
    requires
        all_distinct(vs),
        fi.len() == ti.len() == g.edges.len(),
        0 <= k <= fi.len(),
        forall|j: int| 0 <= j < fi.len() ==> fi[j] < vs.len() && ti[j] < vs.len(),
        forall|j: int| 0 <= j < fi.len() ==> vs[fi[j] as int] == (#[trigger] g.edges[j]).from,
        forall|j: int| 0 <= j < fi.len() ==> vs[ti[j] as int] == (#[trigger] g.edges[j]).to,
        popped.len() == vs.len(),
        forall|y: int| 0 <= y < vs.len() ==> (#[trigger] popped[y] <==> settled(g, vs[y])),
        forall|y: int| 0 <= y < vs.len() && #[trigger] popped[y] ==> level_of(levels, vs[y]) == rank[y],
        0 <= x < vs.len(),
    ensures
        longest_in(g, levels, vs[x], k) == best(fi, ti, popped, rank, x, k),
    decreases k,
{
    if k > 0 {
        lemma_longest_lift(g, vs, levels, fi, ti, popped, rank, x, k - 1);
        let j = k - 1;
        assert(vs[ti[j] as int] == g.edges[j].to);
        assert(vs[fi[j] as int] == g.edges[j].from);
        assert(ti[j] == x <==> g.edges[j].to == vs[x]);
        assert(popped[fi[j] as int] <==> settled(g, vs[fi[j] as int]));
    }
}

fn copy_details(v: &Vec<NodeDetails>) -> (r: Vec<NodeDetails>)
    ensures
        r@ == v@,
{
    let mut r: Vec<NodeDetails> = Vec::new();
    for i in 0..v.len()
        invariant
            r@ == v@.take(i as int),
    {
        let n = &v[i];
        r.push(
            NodeDetails {
                id: n.id.clone(),
                label: n.label.clone(),
                shape: n.shape,
                style: n.style.copied(),
            },
        );
        assert(r@ =~= v@.take(i + 1));
    }
    assert(v@.take(v@.len() as int) =~= v@);
    r
}

fn is_target(ti: &Vec<usize>, x: usize) -> (r: bool)
    ensures
        r == exists|j: int| 0 <= j < ti@.len() && ti@[j] == x,
{
    for j in 0..ti.len()
        invariant
            forall|q: int| 0 <= q < j ==> ti@[q] != x,
    {
        if ti[j] == x {
            return true;
        }
    }
    false
}

/// The ids `vs[x]` of the ranked vertices `x < k` at rank `r`, in order.
fn level_members(
    table: &Vec<Vec<char>>,
    has: &Vec<bool>,
    rank: &Vec<usize>,
    r: usize,
) -> (out: (Vec<String>, Ghost<Seq<int>>))
    requires
        has@.len() == rank@.len() == table@.len(),
    ensures
        out.0@.len() == out.1@.len(),
        forall|k: int| 0 <= k < out.1@.len() ==> 0 <= #[trigger] out.1@[k] < table@.len() && has@[out.1@[k]]
            && rank@[out.1@[k]] == r && out.0@[k]@ == table@[out.1@[k]]@,
        forall|k1: int, k2: int| 0 <= k1 < k2 < out.1@.len() ==> out.1@[k1] < out.1@[k2],
        forall|x: int|
            0 <= x < table@.len() && #[trigger] has@[x] && rank@[x] == r ==> exists|k: int|
                0 <= k < out.1@.len() && out.1@[k] == x,
{
    let n = table.len();
    let mut names: Vec<String> = Vec::new();
    let ghost mut idx: Seq<int> = Seq::empty();
    let mut x: usize = 0;
    while x < n
        invariant
            x <= n,
            n == table@.len() == has@.len() == rank@.len(),
            names@.len() == idx.len(),
            forall|k: int| 0 <= k < idx.len() ==> 0 <= #[trigger] idx[k] < x && has@[idx[k]]
                && rank@[idx[k]] == r && names@[k]@ == table@[idx[k]]@,
            forall|k1: int, k2: int| 0 <= k1 < k2 < idx.len() ==> idx[k1] < idx[k2],
            forall|y: int|
                0 <= y < x && #[trigger] has@[y] && rank@[y] == r ==> exists|k: int|
                    0 <= k < idx.len() && idx[k] == y,
        decreases n - x,
    {
        if has[x] && rank[x] == r {
            let name = string_of(table[x].as_slice());
            names.push(name);
            proof {
                let i0 = idx;
                idx = idx.push(x as int);
                assert forall|y: int|
                    0 <= y < x + 1 && #[trigger] has@[y] && rank@[y] == r implies exists|k: int|
                        0 <= k < idx.len() && idx[k] == y by {
                    if y == x {
                        assert(idx[i0.len() as int] == y);
                    } else {
                        let k = choose|k: int| 0 <= k < i0.len() && i0[k] == y;
                        assert(idx[k] == y);
                    }
                }
            }
        }
        x = x + 1;
    }
    let res = (names, Ghost(idx));
    assert(res.1@ == idx);
    assert forall|y: int|
        0 <= y < table@.len() && #[trigger] has@[y] && rank@[y] == r implies exists|k: int|
            0 <= k < res.1@.len() && res.1@[k] == y by {
        assert(y < x);
        let k = choose|k: int| 0 <= k < idx.len() && idx[k] == y;
        assert(res.1@[k] == y);
    }
    res
}

/// Groups the nodes of a graph into ranks: a node that no cycle or
/// undeclared edge source lies behind stands at the length of the longest
/// path that reaches it; another node that such a node reaches stands one
/// below the lowest of those; the others get no rank.
pub fn assign_ranks(graph: &DirectedGraph) -> (r: RankedGraph)
    requires
        graph.wf(),
    ensures
        r.direction@ == graph@.direction,
        r.nodes@ == graph.nodes@,
        edge_views(r.edges@) == graph@.edges,
        subgraph_list_views(r.subgraphs@) == graph@.subgraphs,
        level_views(r.ranks@).len() >= 1,
        level_views(r.ranks@).len() > 1 ==> level_views(r.ranks@).last().len() > 0,
        forall|a: int, i: int, b: int, j: int|
            0 <= a < r.ranks@.len() && 0 <= i < level_views(r.ranks@)[a].len() && 0 <= b
                < r.ranks@.len() && 0 <= j < level_views(r.ranks@)[b].len() && #[trigger] level_views(
                r.ranks@,
            )[a][i] == #[trigger] level_views(r.ranks@)[b][j] ==> a == b && i == j,
        forall|a: int, i: int|
            0 <= a < r.ranks@.len() && 0 <= i < level_views(r.ranks@)[a].len() ==> ranked(
                graph@,
                #[trigger] level_views(r.ranks@)[a][i],
            ) && a == longest_in(
                graph@,
                level_views(r.ranks@),
                level_views(r.ranks@)[a][i],
                graph@.edges.len() as int,
            ),
        forall|s: Seq<char>|
            #[trigger] ranked(graph@, s) ==> exists|a: int|
                0 <= a < r.ranks@.len() && level_views(r.ranks@)[a].contains(s),
{
    let (table, fi, ti) = vertex_table(graph);
    let ghost vs = texts(table@);
    let ghost g = graph@;
    let n = table.len();
    let nn = graph.nodes.len();
    let mut key: Vec<bool> = Vec::new();
    for x in 0..n
        invariant
            n == table@.len(),
            key@.len() == x,
            forall|y: int|
                0 <= y < x ==> (#[trigger] key@[y] <==> (y < nn || exists|j: int|
                    0 <= j < ti@.len() && ti@[j] == y)),
    {
        let k = x < nn || is_target(&ti, x);
        key.push(k);
    }
    proof {
        assert forall|y: int| 0 <= y < vs.len() implies (#[trigger] key@[y] <==> is_key(g, vs[y])) by {
            lemma_find_node(g.nodes, vs[y]);
            if y < nn {
                assert(vs[y] == g.nodes[y].id);
            }
            if find_node(g.nodes, vs[y]) is Some {
                let k = find_node(g.nodes, vs[y])->0;
                assert(vs[k] == g.nodes[k].id);
            }
            if exists|j: int| 0 <= j < ti@.len() && ti@[j] == y {
                let j = choose|j: int| 0 <= j < ti@.len() && ti@[j] == y;
                assert(g.edges[j].to == vs[y]);
            }
            if exists|j: int| 0 <= j < g.edges.len() && g.edges[j].to == vs[y] {
                let j = choose|j: int| 0 <= j < g.edges.len() && g.edges[j].to == vs[y];
                assert(vs[ti@[j] as int] == vs[y]);
            }
        }
    }
    let (popped, rank, has) = layer(n, &key, &fi, &ti);
    proof {
        assert forall|y: int| 0 <= y < vs.len() implies (#[trigger] popped@[y] <==> settled(g, vs[y])) by {
            if popped@[y] {
                lemma_settled_lift(g, vs, key@, fi@, ti@, y, n as nat);
                assert(settled_within(g, vs[y], n as nat));
            }
            if settled(g, vs[y]) {
                let f = choose|f: nat| #[trigger] settled_within(g, vs[y], f);
                lemma_settled_lift(g, vs, key@, fi@, ti@, y, f);
                assert(settled_at(key@, fi@, ti@, y, f));
            }
        }
    }
    let mut top: usize = 0;
    for x in 0..n
        invariant
            n == has@.len() == rank@.len(),
            forall|y: int| 0 <= y < n && #[trigger] has@[y] ==> rank@[y] < n,
            top < n || (top == 0 && n == 0),
            forall|y: int| 0 <= y < x && #[trigger] has@[y] ==> rank@[y] <= top,
            top > 0 ==> exists|y: int| 0 <= y < n && has@[y] && rank@[y] == top,
    {
        if has[x] && rank[x] > top {
            top = rank[x];
        }
    }
    let mut ranks: Vec<Vec<String>> = Vec::new();
    let ghost mut idxs: Seq<Seq<int>> = Seq::empty();
    let mut lv: usize = 0;
    while lv <= top
        invariant
            vs == texts(table@),
            n == table@.len() == has@.len() == rank@.len(),
            top < n || (top == 0 && n == 0),
            lv <= top + 1,
            ranks@.len() == lv,
            idxs.len() == lv,
            forall|a: int| 0 <= a < lv ==> (#[trigger] ranks@[a])@.len() == idxs[a].len(),
            forall|a: int, k: int|
                0 <= a < lv && 0 <= k < idxs[a].len() ==> 0 <= #[trigger] idxs[a][k] < n && has@[idxs[a][k]]
                    && rank@[idxs[a][k]] == a && ranks@[a]@[k]@ == vs[idxs[a][k]],
            forall|a: int, k1: int, k2: int|
                0 <= a < lv && 0 <= k1 < k2 < idxs[a].len() ==> #[trigger] idxs[a][k1] < #[trigger] idxs[a][k2],
            forall|x: int|
                0 <= x < n && #[trigger] has@[x] && rank@[x] < lv ==> exists|k: int|
                    0 <= k < idxs[rank@[x] as int].len() && idxs[rank@[x] as int][k] == x,
        decreases top + 1 - lv,
    {
        let (names, Ghost(ix)) = level_members(&table, &has, &rank, lv);
        let ghost r0 = ranks@;
        ranks.push(names);
        proof {
            let i0 = idxs;
            idxs = idxs.push(ix);
            assert(ranks@[lv as int] == names);
            assert forall|a: int, k: int|
                0 <= a < lv + 1 && 0 <= k < idxs[a].len() implies 0 <= #[trigger] idxs[a][k] < n && has@[idxs[a][k]]
                    && rank@[idxs[a][k]] == a && ranks@[a]@[k]@ == vs[idxs[a][k]] by {
                if a < lv {
                    assert(ranks@[a] == r0[a]);
                    assert(idxs[a] == i0[a]);
                } else {
                    assert(idxs[a] == ix);
                    assert(0 <= ix[k] < n);
                    assert(has@[ix[k]]);
                    assert(rank@[ix[k]] == lv);
                    assert(names@[k]@ == table@[ix[k]]@);
                    assert(vs[ix[k]] == table@[ix[k]]@);
                }
            }
            assert forall|a: int| 0 <= a < lv + 1 implies (#[trigger] ranks@[a])@.len() == idxs[a].len() by {
                if a < lv {
                    assert(ranks@[a] == r0[a]);
                }
            }
            assert forall|a: int, k1: int, k2: int|
                0 <= a < lv + 1 && 0 <= k1 < k2 < idxs[a].len() implies #[trigger] idxs[a][k1] < #[trigger] idxs[a][k2] by {
                if a < lv {
                    assert(idxs[a] == i0[a]);
                }
            }
            assert forall|x: int|
                0 <= x < n && #[trigger] has@[x] && rank@[x] < lv + 1 implies exists|k: int|
                    0 <= k < idxs[rank@[x] as int].len() && idxs[rank@[x] as int][k] == x by {
                if rank@[x] == lv {
                    let k = choose|k: int| 0 <= k < ix.len() && ix[k] == x;
                    assert(idxs[lv as int] == ix);
                } else {
                    assert(idxs[rank@[x] as int] == i0[rank@[x] as int]);
                }
            }
        }
        lv = lv + 1;
    }
    let ghost levels = level_views(ranks@);
    proof {
        assert(lv == top + 1);
        assert forall|a: int, k: int| 0 <= a < levels.len() && 0 <= k < levels[a].len() implies #[trigger] levels[a][k]
            == vs[idxs[a][k]] by {
            assert(levels[a] == str_views(ranks@[a]@));
        }
        // each ranked vertex stands at its rank
        assert forall|x: int| 0 <= x < n && #[trigger] has@[x] implies level_of(levels, vs[x]) == rank@[x] by {
            let k = choose|k: int| 0 <= k < idxs[rank@[x] as int].len() && idxs[rank@[x] as int][k] == x;
            assert(levels[rank@[x] as int][k] == vs[x]);
            assert(levels[rank@[x] as int].contains(vs[x]));
            let a = level_of(levels, vs[x]);
            let k2 = choose|k2: int| 0 <= k2 < levels[a].len() && levels[a][k2] == vs[x];
            assert(levels[a][k2] == vs[idxs[a][k2]]);
            assert(idxs[a][k2] == x);
        }
        assert forall|y: int| 0 <= y < vs.len() && #[trigger] popped@[y] implies level_of(levels, vs[y]) == rank@[y] by {
            assert(has@[y]);
        }
        assert forall|x: int| 0 <= x < n implies (#[trigger] has@[x] <==> ranked(g, vs[x])) by {
            if exists|j: int| 0 <= j < fi@.len() && ti@[j] == x && popped@[fi@[j] as int] {
                let j = choose|j: int| 0 <= j < fi@.len() && ti@[j] == x && popped@[fi@[j] as int];
                assert(g.edges[j].to == vs[x] && settled(g, g.edges[j].from));
            }
            if exists|j: int| 0 <= j < g.edges.len() && g.edges[j].to == vs[x] && settled(g, g.edges[j].from) {
                let j = choose|j: int| 0 <= j < g.edges.len() && g.edges[j].to == vs[x] && settled(g, g.edges[j].from);
                assert(vs[ti@[j] as int] == vs[x]);
                assert(ti@[j] == x);
                assert(popped@[fi@[j] as int]);
            }
        }
        assert forall|a: int, i: int, b: int, j: int|
            0 <= a < ranks@.len() && 0 <= i < levels[a].len() && 0 <= b < ranks@.len() && 0 <= j
                < levels[b].len() && #[trigger] levels[a][i] == #[trigger] levels[b][j] implies a == b && i == j by {
            assert(vs[idxs[a][i]] == vs[idxs[b][j]]);
            assert(idxs[a][i] == idxs[b][j]);
            if i < j {
                assert(idxs[a][i] < idxs[a][j]);
            }
            if j < i {
                assert(idxs[a][j] < idxs[a][i]);
            }
        }
        assert forall|a: int, i: int|
            0 <= a < ranks@.len() && 0 <= i < levels[a].len() implies ranked(g, #[trigger] levels[a][i]) && a
                == longest_in(g, levels, levels[a][i], g.edges.len() as int) by {
            let x = idxs[a][i];
            assert(levels[a][i] == vs[x]);
            assert(has@[x]);
            lemma_longest_lift(g, vs, levels, fi@, ti@, popped@, rank@, x, g.edges.len() as int);
        }
        assert forall|s: Seq<char>| #[trigger] ranked(g, s) implies exists|a: int|
            0 <= a < ranks@.len() && levels[a].contains(s) by {
            // a ranked id is a node or an edge target, so it has a number
            let x: int = if settled(g, s) {
                let f = choose|f: nat| #[trigger] settled_within(g, s, f);
                assert(is_key(g, s));
                if find_node(g.nodes, s) is Some {
                    lemma_find_node(g.nodes, s);
                    find_node(g.nodes, s)->0
                } else {
                    let j = choose|j: int| 0 <= j < g.edges.len() && g.edges[j].to == s;
                    ti@[j] as int
                }
            } else {
                let j = choose|j: int| 0 <= j < g.edges.len() && g.edges[j].to == s && settled(g, g.edges[j].from);
                ti@[j] as int
            };
            assert(vs[x] == s);
            assert(has@[x]);
            let k = choose|k: int| 0 <= k < idxs[rank@[x] as int].len() && idxs[rank@[x] as int][k] == x;
            assert(levels[rank@[x] as int][k] == s);
        }
        if levels.len() > 1 {
            let y = choose|y: int| 0 <= y < n && has@[y] && rank@[y] == top;
            let k = choose|k: int| 0 <= k < idxs[top as int].len() && idxs[top as int][k] == y;
        }
    }
    let mut edges: Vec<Edge> = Vec::new();
    for i in 0..graph.edges.len()
        invariant
            edges@.len() == i,
            forall|q: int| 0 <= q < i ==> (#[trigger] edges@[q])@ == graph.edges@[q]@,
    {
        let e = &graph.edges[i];
        edges.push(Edge { from: e.from.clone(), to: e.to.clone(), style: e.style, label: crate::config::copy_opt(&e.label) });
    }
    assert(edge_views(edges@) =~= graph@.edges);
    let mut subgraphs: Vec<Subgraph> = Vec::new();
    for i in 0..graph.subgraphs.len()
        invariant
            subgraphs@.len() == i,
            forall|q: int| 0 <= q < i ==> (#[trigger] subgraphs@[q])@ == graph.subgraphs@[q]@,
    {
        let sg = &graph.subgraphs[i];
        subgraphs.push(
            Subgraph {
                title: sg.title.clone(),
                nodes: copy_names(&sg.nodes),
                parent_title: crate::config::copy_opt(&sg.parent_title),
                depth: sg.depth,
            },
        );
    }
    assert(subgraph_list_views(subgraphs@) =~= graph@.subgraphs);
    RankedGraph {
        direction: graph.direction.clone(),
        ranks,
        nodes: copy_details(&graph.nodes),
        edges,
        subgraphs,
    }
}

fn copy_names(v: &Vec<String>) -> (r: Vec<String>)
    ensures
        str_views(r@) == str_views(v@),
{
    let mut r: Vec<String> = Vec::new();
    for i in 0..v.len()
        invariant
            r@.len() == i,
            forall|j: int| 0 <= j < i ==> r@[j]@ == v@[j]@,
    {
        r.push(v[i].clone());
    }
    assert(str_views(r@) =~= str_views(v@));
    r
}

// ── Laws ─────────────────────────────────────────────────────────────────────

proof fn lemma_longest_grows(g: GraphView, levels: Seq<Seq<Seq<char>>>, s: Seq<char>, j: int, k: int)
    requires
        0 <= j <= k,
    ensures
        longest_in(g, levels, s, j) <= longest_in(g, levels, s, k),
    decreases k - j,
{
    if j < k {
        lemma_longest_grows(g, levels, s, j, k - 1);
    }
}

/// Along every edge whose source has been peeled, the rank grows: the
/// target stands at least one rank below the source.
pub proof fn law_edges_point_down(g: GraphView, levels: Seq<Seq<Seq<char>>>, j: int)
    requires
        0 <= j < g.edges.len(),
        settled(g, g.edges[j].from),
    ensures
        longest_in(g, levels, g.edges[j].to, g.edges.len() as int) >= level_of(levels, g.edges[j].from)
            + 1,
{
    lemma_longest_grows(g, levels, g.edges[j].to, j + 1, g.edges.len() as int);
}

proof fn lemma_settled_more_fuel(g: GraphView, s: Seq<char>, f: nat, h: nat)
    requires
        settled_within(g, s, f),
        f <= h,
    ensures
        settled_within(g, s, h),
    decreases f,
{
    assert forall|j: int|
        #![trigger g.edges[j]]
        0 <= j < g.edges.len() && g.edges[j].to == s implies settled_within(
        g,
        g.edges[j].from,
        (h - 1) as nat,
    ) by {
        lemma_settled_more_fuel(g, g.edges[j].from, (f - 1) as nat, (h - 1) as nat);
    }
}

spec fn max_rank(ns: Seq<SpecNode>, rk: spec_fn(Seq<char>) -> int) -> int
    decreases ns.len(),
{
    if ns.len() == 0 {
        0
    } else {
        let m = max_rank(ns.drop_last(), rk);
        if rk(ns.last().id) > m {
            rk(ns.last().id)
        } else {
            m
        }
    }
}

proof fn lemma_max_rank(ns: Seq<SpecNode>, rk: spec_fn(Seq<char>) -> int, k: int)
    requires
        0 <= k < ns.len(),
    ensures
        rk(ns[k].id) <= max_rank(ns, rk),
    decreases ns.len(),
{
    if k < ns.len() - 1 {
        assert(ns.drop_last()[k] == ns[k]);
        lemma_max_rank(ns.drop_last(), rk, k);
    }
}

proof fn lemma_node_settled(g: GraphView, rk: spec_fn(Seq<char>) -> int, top: int, s: Seq<char>)
    requires
        forall|j: int|
            0 <= j < g.edges.len() ==> find_node(g.nodes, (#[trigger] g.edges[j]).from) is Some,
        forall|j: int| 0 <= j < g.edges.len() ==> (#[trigger] g.edges[j]).from != g.edges[j].to,
        ranks_down(g.edges, rk),
        forall|t: Seq<char>| find_node(g.nodes, t) is Some ==> #[trigger] rk(t) <= top,
        find_node(g.nodes, s) is Some,
    ensures
        settled_within(g, s, (top - rk(s) + 1) as nat),
    decreases top - rk(s),
{
    assert forall|j: int|
        #![trigger g.edges[j]]
        0 <= j < g.edges.len() && g.edges[j].to == s implies settled_within(
        g,
        g.edges[j].from,
        (top - rk(s)) as nat,
    ) by {
        let u = g.edges[j].from;
        assert(rk(u) > rk(s));
        assert(rk(u) <= top);
        lemma_node_settled(g, rk, top, u);
        lemma_settled_more_fuel(g, u, (top - rk(u) + 1) as nat, (top - rk(s)) as nat);
    }
}

/// In a graph whose edges join declared nodes, form no loop and no cycle,
/// every node is peeled, so every node gets a rank.
pub proof fn law_acyclic_nodes_all_ranked(g: GraphView)
    requires
        forall|j: int|
            0 <= j < g.edges.len() ==> find_node(g.nodes, (#[trigger] g.edges[j]).from) is Some,
        forall|j: int| 0 <= j < g.edges.len() ==> (#[trigger] g.edges[j]).from != g.edges[j].to,
        acyclic_except_loops(g.edges),
    ensures
        forall|k: int| 0 <= k < g.nodes.len() ==> ranked(g, #[trigger] g.nodes[k].id),
{
    let rk = choose|rk: spec_fn(Seq<char>) -> int| #[trigger] ranks_down(g.edges, rk);
    let top = max_rank(g.nodes, rk);
    assert forall|t: Seq<char>| find_node(g.nodes, t) is Some implies #[trigger] rk(t) <= top by {
        lemma_find_node(g.nodes, t);
        lemma_max_rank(g.nodes, rk, find_node(g.nodes, t)->0);
    }
    assert forall|k: int| 0 <= k < g.nodes.len() implies ranked(g, #[trigger] g.nodes[k].id) by {
        let s = g.nodes[k].id;
        lemma_find_node(g.nodes, s);
        lemma_node_settled(g, rk, top, s);
        assert(settled_within(g, s, (top - rk(s) + 1) as nat));
    }
}

proof fn lemma_longest_attained(g: GraphView, levels: Seq<Seq<Seq<char>>>, s: Seq<char>, k: int)
    requires
        0 <= k <= g.edges.len(),
    ensures
        longest_in(g, levels, s, k) == 0 || exists|j: int|
            0 <= j < k && g.edges[j].to == s && settled(g, g.edges[j].from) && longest_in(g, levels, s, k)
                == level_of(levels, g.edges[j].from) + 1,
    decreases k,
{
    if k > 0 {
        lemma_longest_attained(g, levels, s, k - 1);
    }
}

proof fn lemma_sources_settled(g: GraphView, s: Seq<char>, j: int)
    requires
        settled(g, s),
        0 <= j < g.edges.len(),
        g.edges[j].to == s,
    ensures
        settled(g, g.edges[j].from),
{
    let f = choose|f: nat| #[trigger] settled_within(g, s, f);
    assert(settled_within(g, g.edges[j].from, (f - 1) as nat));
}

/// A node that no cycle or undeclared edge source lies behind stands at
/// rank 0 when no edge enters it, and otherwise one below the deepest of
/// the nodes its incoming edges leave, given ranks that hold every such
/// node.
pub proof fn law_rank_of_settled_node(g: GraphView, levels: Seq<Seq<Seq<char>>>, s: Seq<char>)
    requires
        settled(g, s),
        forall|t: Seq<char>|
            #[trigger] settled(g, t) ==> exists|a: int| 0 <= a < levels.len() && levels[a].contains(t),
    ensures
        (forall|j: int| 0 <= j < g.edges.len() ==> g.edges[j].to != s) ==> longest_in(
            g,
            levels,
            s,
            g.edges.len() as int,
        ) == 0,
        forall|j: int|
            0 <= j < g.edges.len() && g.edges[j].to == s ==> longest_in(g, levels, s, g.edges.len() as int)
                >= level_of(levels, #[trigger] g.edges[j].from) + 1 >= 1,
        (exists|j: int| 0 <= j < g.edges.len() && g.edges[j].to == s) ==> exists|j: int|
            0 <= j < g.edges.len() && g.edges[j].to == s && longest_in(g, levels, s, g.edges.len() as int)
                == level_of(levels, #[trigger] g.edges[j].from) + 1,
{
    let m = g.edges.len() as int;
    lemma_longest_attained(g, levels, s, m);
    assert forall|j: int|
        0 <= j < g.edges.len() && g.edges[j].to == s implies longest_in(g, levels, s, m) >= level_of(
        levels,
        #[trigger] g.edges[j].from,
    ) + 1 >= 1 by {
        lemma_sources_settled(g, s, j);
        let u = g.edges[j].from;
        assert(settled(g, u));
        let a = choose|a: int| 0 <= a < levels.len() && levels[a].contains(u);
        assert(0 <= level_of(levels, u));
        law_edges_point_down(g, levels, j);
    }
    if exists|j: int| 0 <= j < g.edges.len() && g.edges[j].to == s {
        let j0 = choose|j: int| 0 <= j < g.edges.len() && g.edges[j].to == s;
        assert(longest_in(g, levels, s, m) >= level_of(levels, g.edges[j0].from) + 1);
        assert(longest_in(g, levels, s, m) != 0);
    }
    if forall|j: int| 0 <= j < g.edges.len() ==> g.edges[j].to != s {
        if longest_in(g, levels, s, m) != 0 {
            let j = choose|j: int|
                0 <= j < m && g.edges[j].to == s && settled(g, g.edges[j].from) && longest_in(g, levels, s, m)
                    == level_of(levels, g.edges[j].from) + 1;
            assert(g.edges[j].to != s);
        }
    }
}

} // verus!
