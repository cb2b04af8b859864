//! Small text transformations of the writers: LaTeX escaping, brace groups
//! of LaTeX math, Markdown table rows, and the nesting path of a flowchart
//! node through its subgraphs.

use vstd::prelude::*;
use crate::mermaid_graph::Subgraph;
use crate::text::{append, append_str, chars_of, is_whitespace, is_ws, string_of};

verus! {

// ── LaTeX escaping ───────────────────────────────────────────────────────────

/// The LaTeX source for one character of text.
pub open spec fn latex_char(c: char) -> Seq<char> {
    if c == '&' {
        "\\&"@
    } else if c == '%' {
        "\\%"@
    } else if c == '$' {
        "\\$"@
    } else if c == '#' {
        "\\#"@
    } else if c == '_' {
        "\\_"@
    } else if c == '{' {
        "\\{"@
    } else if c == '}' {
        "\\}"@
    } else if c == '~' {
        "\\textasciitilde{}"@
    } else if c == '^' {
        "\\textasciicircum{}"@
    } else if c == '\\' {
        "\\textbackslash{}"@
    } else if c == '<' {
        "\\textless{}"@
    } else if c == '>' {
        "\\textgreater{}"@
    } else {
        seq![c]
    }
}

/// `s` with each character written as LaTeX source.
pub open spec fn latex_escaped(s: Seq<char>) -> Seq<char>
    decreases s.len(),
{
    if s.len() == 0 {
        seq![]
    } else {
        latex_escaped(s.drop_last()) + latex_char(s.last())
    }
}

fn push_latex_char(out: &mut Vec<char>, c: char)
    ensures
        final(out)@ == old(out)@ + latex_char(c),
{
    if c == '&' {
        append_str(out, "\\&");
    } else if c == '%' {
        append_str(out, "\\%");
    } else if c == '$' {
        append_str(out, "\\$");
    } else if c == '#' {
        append_str(out, "\\#");
    } else if c == '_' {
        append_str(out, "\\_");
    } else if c == '{' {
        append_str(out, "\\{");
    } else if c == '}' {
        append_str(out, "\\}");
    } else if c == '~' {
        append_str(out, "\\textasciitilde{}");
    } else if c == '^' {
        append_str(out, "\\textasciicircum{}");
    } else if c == '\\' {
        append_str(out, "\\textbackslash{}");
    } else if c == '<' {
        append_str(out, "\\textless{}");
    } else if c == '>' {
        append_str(out, "\\textgreater{}");
    } else {
        out.push(c);
    }
}

/// Escapes the characters LaTeX gives a meaning to.
pub fn escape_latex(input: &str) -> (r: String)
    ensures
        r@ == latex_escaped(input@),
{
    let s = chars_of(input);
    let mut out: Vec<char> = Vec::new();
    let n = s.len();
    for i in 0..n
        invariant
            n == s@.len(),
            out@ == latex_escaped(s@.take(i as int)),
    {
        assert(s@.take(i + 1).drop_last() =~= s@.take(i as int));
        push_latex_char(&mut out, s[i]);
    }
    assert(s@.take(n as int) =~= s@);
    string_of(out.as_slice())
}

// ── Markdown table rows ──────────────────────────────────────────────────────

pub open spec fn row_cells(cells: Seq<String>) -> Seq<char>
    decreases cells.len(),
{
    if cells.len() == 0 {
        seq![]
    } else {
        row_cells(cells.drop_last()) + " "@ + cells.last()@ + " |"@
    }
}

/// Appends a Markdown table row, `| a | b |`, and a newline.
pub fn emit_table_row(cells: &[String], out: &mut String)
    ensures
        final(out)@ == old(out)@ + "|"@ + row_cells(cells@) + "\n"@,
{
    let mut v = chars_of(out.as_str());
    let ghost start = v@;
    append_str(&mut v, "|");
    let n = cells.len();
    for i in 0..n
        invariant
            n == cells@.len(),
            v@ == start + "|"@ + row_cells(cells@.take(i as int)),
    {
        assert(cells@.take(i + 1).drop_last() =~= cells@.take(i as int));
        append_str(&mut v, " ");
        append_str(&mut v, cells[i].as_str());
        append_str(&mut v, " |");
        assert(v@ =~= start + "|"@ + row_cells(cells@.take(i + 1)));
    }
    assert(cells@.take(n as int) =~= cells@);
    append_str(&mut v, "\n");
    *out = string_of(v.as_slice());
}

// ── Brace groups of LaTeX math ───────────────────────────────────────────────

/// The generator of Office Math Markup from LaTeX.
pub struct OmmlAstGenerator;

/// The first position from `k` on that is not whitespace.
pub open spec fn skip_ws(chars: Seq<char>, k: int) -> int
    decreases chars.len() - k,
{
    if k < 0 || k >= chars.len() || !is_ws(chars[k]) {
        k
    } else {
        skip_ws(chars, k + 1)
    }
}

/// The text of a brace group from `k` on, at nesting `depth`, up to the
/// brace that closes it, and the position after that brace (or the end).
pub open spec fn group_scan(chars: Seq<char>, k: int, depth: nat) -> (Seq<char>, int)
    decreases chars.len() - k,
{
    if k < 0 || k >= chars.len() {
        (seq![], k)
    } else if chars[k] == '{' {
        let (c, e) = group_scan(chars, k + 1, depth + 1);
        (seq!['{'] + c, e)
    } else if chars[k] == '}' {
        if depth <= 1 {
            (seq![], k + 1)
        } else {
            let (c, e) = group_scan(chars, k + 1, (depth - 1) as nat);
            (seq!['}'] + c, e)
        }
    } else {
        let (c, e) = group_scan(chars, k + 1, depth);
        (seq![chars[k]] + c, e)
    }
}

/// What `extract_group` returns: after any whitespace, the inside of a
/// `{...}` group (nested groups included), or else the single character
/// there; and the position after it.
pub open spec fn group_at(chars: Seq<char>, start: int) -> (Seq<char>, int) {
    let i = skip_ws(chars, start);
    if i >= chars.len() {
        (seq![], i)
    } else if chars[i] == '{' {
        group_scan(chars, i + 1, 1)
    } else {
        (seq![chars[i]], i + 1)
    }
}

proof fn lemma_skip_ws_bounds(chars: Seq<char>, k: int)
    requires
        0 <= k,
    ensures
        k <= skip_ws(chars, k),
        k <= chars.len() ==> skip_ws(chars, k) <= chars.len(),
    decreases chars.len() - k,
{
    if k < chars.len() && is_ws(chars[k]) {
        lemma_skip_ws_bounds(chars, k + 1);
    }
}

impl OmmlAstGenerator {
    /// Extracts the group that starts at `start_idx` (see `group_at`).
    pub fn extract_group(chars: &[char], start_idx: usize) -> (r: (String, usize))
        requires
            start_idx <= chars@.len(),
        ensures
            (r.0@, r.1 as int) == group_at(chars@, start_idx as int),
    {
        let n = chars.len();
        let mut i = start_idx;
        while i < n && is_whitespace(chars[i])
            invariant
                n == chars@.len(),
                start_idx <= i <= n,
                skip_ws(chars@, start_idx as int) == skip_ws(chars@, i as int),
            decreases n - i,
        {
            i += 1;
        }
        if i >= n {
            return (String::new(), i);
        }
        if chars[i] == '{' {
            let mut depth: usize = 1;
            let mut content: Vec<char> = Vec::new();
            i += 1;
            let ghost first = i as int;
            loop
                invariant_except_break
                    n == chars@.len(),
                    1 <= first <= i <= n,
                    1 <= depth <= i - first + 1,
                    group_scan(chars@, first, 1) == (
                        content@ + group_scan(chars@, i as int, depth as nat).0,
                        group_scan(chars@, i as int, depth as nat).1,
                    ),
                ensures
                    group_scan(chars@, first, 1) == (content@, i as int),
                decreases n - i,
            {
                if i >= n {
                    assert(content@ + Seq::<char>::empty() =~= content@);
                    break;
                }
                if chars[i] == '{' {
                    depth += 1;
                } else if chars[i] == '}' {
                    if depth == 1 {
                        i += 1;
                        assert(content@ + Seq::<char>::empty() =~= content@);
                        break;
                    }
                    depth -= 1;
                }
                let ghost c = chars@[i as int];
                let ghost before = content@;
                content.push(chars[i]);
                assert(before + (seq![c] + group_scan(chars@, i + 1, depth as nat).0) =~= content@
                    + group_scan(chars@, i + 1, depth as nat).0);
                i += 1;
            }
            (string_of(content.as_slice()), i)
        } else {
            let v: Vec<char> = vec![chars[i]];
            (string_of(v.as_slice()), i + 1)
        }
    }
}

/// The generator of DrawingML shapes from laid-out flowcharts.
pub struct DrawingMlAstGenerator;

// ── Subgraph nesting ─────────────────────────────────────────────────────────

/// `(depth, index)` pairs in the order `sort` gives tuples.
pub open spec fn pair_less(a: (nat, nat), b: (nat, nat)) -> bool {
    a.0 < b.0 || (a.0 == b.0 && a.1 < b.1)
}

pub open spec fn holds_node(g: Subgraph, node_id: Seq<char>) -> bool {
    exists|j: int| 0 <= j < g.nodes@.len() && (#[trigger] g.nodes@[j])@ == node_id
}

/// The indices of the subgraphs that hold `node_id`, outermost (least deep)
/// first, ties by position.
pub open spec fn subgraph_path_ok(path: Seq<usize>, node_id: Seq<char>, subgraphs: Seq<Subgraph>) -> bool {
    &&& forall|k: int| 0 <= k < path.len() ==> (#[trigger] path[k]) < subgraphs.len()
        && holds_node(subgraphs[path[k] as int], node_id)
    &&& forall|i: int|
        0 <= i < subgraphs.len() && holds_node(#[trigger] subgraphs[i], node_id) ==> path.contains(
            i as usize,
        )
    &&& forall|a: int, b: int|
        0 <= a < b < path.len() ==> pair_less(
            (subgraphs[#[trigger] path[a] as int].depth as nat, path[a] as nat),
            (subgraphs[#[trigger] path[b] as int].depth as nat, path[b] as nat),
        )
}

fn holds_node_of(g: &Subgraph, node_id: &[char]) -> (r: bool)
    ensures
        r == holds_node(*g, node_id@),
{
    let n = g.nodes.len();
    for j in 0..n
        invariant
            n == g.nodes@.len(),
            forall|k: int| 0 <= k < j ==> (#[trigger] g.nodes@[k])@ != node_id@,
    {
        let c = chars_of(g.nodes[j].as_str());
        if crate::text::seq_eq(c.as_slice(), node_id) {
            return true;
        }
    }
    false
}

/// The subgraphs that hold `node_id`, as indices from the outermost to the
/// innermost.
pub fn node_subgraph_path(node_id: &str, subgraphs: &[Subgraph]) -> (path: Vec<usize>)
    ensures
        subgraph_path_ok(path@, node_id@, subgraphs@),
{
    let id = chars_of(node_id);
    let mut path: Vec<usize> = Vec::new();
    let n = subgraphs.len();
    for i in 0..n
        invariant
            n == subgraphs@.len(),
            id@ == node_id@,
            forall|k: int| 0 <= k < path@.len() ==> (#[trigger] path@[k]) < i
                && holds_node(subgraphs@[path@[k] as int], node_id@),
            forall|m: int| 0 <= m < i && holds_node(#[trigger] subgraphs@[m], node_id@) ==> path@.contains(
                m as usize,
            ),
            forall|a: int, b: int|
                0 <= a < b < path@.len() ==> pair_less(
                    (subgraphs@[#[trigger] path@[a] as int].depth as nat, path@[a] as nat),
                    (subgraphs@[#[trigger] path@[b] as int].depth as nat, path@[b] as nat),
                ),
    {
        if holds_node_of(&subgraphs[i], id.as_slice()) {
            let d = subgraphs[i].depth;
            let mut p: usize = 0;
            while p < path.len() && subgraphs[path[p]].depth <= d
                invariant
                    p <= path@.len(),
                    forall|k: int| 0 <= k < path@.len() ==> (#[trigger] path@[k]) < i,
                    forall|k: int| 0 <= k < p ==> subgraphs@[(#[trigger] path@[k]) as int].depth <= d,
                    n == subgraphs@.len(),
                    i < n,
                    d == subgraphs@[i as int].depth,
                decreases path@.len() - p,
            {
                p += 1;
            }
            let ghost old_path = path@;
            path.insert(p, i);
            assert forall|m: int| 0 <= m < i + 1 && holds_node(#[trigger] subgraphs@[m], node_id@) implies path@.contains(
                m as usize,
            ) by {
                if m == i {
                    assert(path@[p as int] == i);
                } else {
                    let k = choose|k: int| 0 <= k < old_path.len() && old_path[k] == m as usize;
                    if k < p {
                        assert(path@[k] == old_path[k]);
                    } else {
                        assert(path@[k + 1] == old_path[k]);
                    }
                }
            }
            assert forall|a: int, b: int|
                0 <= a < b < path@.len() implies pair_less(
                (subgraphs@[#[trigger] path@[a] as int].depth as nat, path@[a] as nat),
                (subgraphs@[#[trigger] path@[b] as int].depth as nat, path@[b] as nat),
            ) by {
                if a < p && b < p {
                    assert(path@[a] == old_path[a] && path@[b] == old_path[b]);
                } else if a < p && b == p {
                    assert(path@[a] == old_path[a]);
                } else if a < p {
                    assert(path@[a] == old_path[a] && path@[b] == old_path[b - 1]);
                } else if a == p {
                    assert(path@[b] == old_path[b - 1]);
                    if b - 1 == p as int {
                    }
                } else {
                    assert(path@[a] == old_path[a - 1] && path@[b] == old_path[b - 1]);
                }
            }
        }
    }
    path
}

} // verus!
