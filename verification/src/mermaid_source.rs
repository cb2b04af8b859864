//! Source-level passes over a flowchart before tokenizing: dropping the
//! lines the lexer does not read, `classDef`/`class` styles, subgraphs, and
//! the entry point that puts them together.

use vstd::prelude::*;
use crate::mermaid_graph::{merge_style, new_style, no_style, overlay, SpecStyle, StyleSpec};
use crate::mermaid_lexer::{lemma_run_end, run_end};
use crate::text::{
    append, chars_of, eq_str, join, join_of, lines, lines_of, replace, replace_of, slice_of,
    split_char, split_char_of, split_once, split_once_of, starts_with, starts_with_str, string_of,
    tail_of, trim, trim_of, views,
};
use crate::unicode::{char_is_alphanumeric, unicode_alphanumeric};
use crate::pattern::{
    captures, captures_all, compile, group_views, regex_captures, regex_captures_all, regex_compiles,
};
use crate::mermaid_parser::{style_views, SubgraphDef};

verus! {

// ── Class annotations ────────────────────────────────────────────────────────

pub open spec fn annotation_pred() -> spec_fn(char) -> bool {
    |c: char| unicode_alphanumeric(c) || c == '_' || c == '-'
}

/// The characters of `s` from `i` on, with every `:::name` annotation removed.
pub open spec fn strip_annotations(s: Seq<char>, i: int) -> Seq<char>
    decreases s.len() - i,
{
    if i < 0 || i >= s.len() {
        seq![]
    } else if i + 2 < s.len() && s[i] == ':' && s[i + 1] == ':' && s[i + 2] == ':' {
        proof {
            lemma_run_end(s, i + 3, annotation_pred());
        }
        strip_annotations(s, run_end(s, i + 3, annotation_pred()))
    } else {
        seq![s[i]] + strip_annotations(s, i + 1)
    }
}

fn char_is_alnum_dash(c: char) -> (b: bool)
    ensures
        b == (annotation_pred())(c),
{
    char_is_alphanumeric(c) || c == '_' || c == '-'
}

fn annotation_run_end(s: &[char], start: usize) -> (r: usize)
    requires
        start <= s@.len(),
    ensures
        r == run_end(s@, start as int, annotation_pred()),
        start <= r <= s@.len(),
{
    let n = s.len();
    let mut i = start;
    proof {
        lemma_run_end(s@, start as int, annotation_pred());
    }
    while i < n && (char_is_alnum_dash(s[i]))
        invariant
            start <= i <= n == s@.len(),
            run_end(s@, start as int, annotation_pred()) == run_end(s@, i as int, annotation_pred()),
        decreases n - i,
    {
        i += 1;
    }
    i
}

pub fn strip_class_annotations(input: &[char]) -> (r: Vec<char>)
    ensures
        r@ == strip_annotations(input@, 0),
{
    let n = input.len();
    let mut out: Vec<char> = Vec::new();
    let mut i: usize = 0;
    while i < n
        invariant
            i <= n == input@.len(),
            out@ + strip_annotations(input@, i as int) == strip_annotations(input@, 0),
        decreases n - i,
    {
        if n - i > 2 && input[i] == ':' && input[i + 1] == ':' && input[i + 2] == ':' {
            i = annotation_run_end(input, i + 3);
        } else {
            let ghost before = out@;
            out.push(input[i]);
            assert(out@ == before + seq![input@[i as int]]);
            i += 1;
        }
    }
    assert(out@ + Seq::<char>::empty() == out@);
    out
}

// ── Normalized source ────────────────────────────────────────────────────────

/// Lines holding only styling, comments or subgraph brackets.
pub open spec fn dropped_line(t: Seq<char>) -> bool {
    ||| starts_with(t, "%%"@)
    ||| starts_with(t, "classDef "@)
    ||| starts_with(t, "class "@)
    ||| starts_with(t, "linkStyle "@)
    ||| starts_with(t, "style "@)
    ||| starts_with(t, "subgraph "@)
    ||| t == "end"@
}

/// What a source line becomes for the lexer: blank lines become empty,
/// dropped lines disappear, other lines lose their class annotations and
/// have bidirectional arrows made one-way.
pub open spec fn normalized_line(raw: Seq<char>) -> Option<Seq<char>> {
    let t = trim(raw);
    if t.len() == 0 {
        Some(seq![])
    } else if dropped_line(t) {
        None
    } else {
        Some(replace(replace(strip_annotations(raw, 0), "<-->"@, "-->"@), "<==>"@, "==>"@))
    }
}

pub open spec fn normalized_lines(ls: Seq<Seq<char>>) -> Seq<Seq<char>>
    decreases ls.len(),
{
    if ls.len() == 0 {
        seq![]
    } else {
        match normalized_line(ls.last()) {
            Some(l) => normalized_lines(ls.drop_last()).push(l),
            None => normalized_lines(ls.drop_last()),
        }
    }
}

pub open spec fn normalized_source(s: Seq<char>) -> Seq<char> {
    join(normalized_lines(lines(s)), "\n"@)
}

fn is_dropped_line(t: &[char]) -> (r: bool)
    ensures
        r == dropped_line(t@),
{
    starts_with_str(t, "%%") || starts_with_str(t, "classDef ") || starts_with_str(t, "class ")
        || starts_with_str(t, "linkStyle ") || starts_with_str(t, "style ") || starts_with_str(
        t,
        "subgraph ",
    ) || eq_str(t, "end")
}

pub fn normalize_flowchart_source(input: &str) -> (r: String)
    ensures
        r@ == normalized_source(input@),
{
    proof {
        reveal_strlit("<-->");
        reveal_strlit("<==>");
    }
    let chars = chars_of(input);
    let ls = lines_of(chars.as_slice());
    let n = ls.len();
    let ghost all = views(ls@);
    let mut out: Vec<Vec<char>> = Vec::new();
    let bi_arrow = chars_of("<-->");
    let arrow = chars_of("-->");
    let bi_thick = chars_of("<==>");
    let thick = chars_of("==>");
    for i in 0..n
        invariant
            n == ls@.len(),
            all == views(ls@),
            all == lines(input@),
            bi_arrow@ == "<-->"@,
            bi_arrow@.len() == 4,
            bi_thick@.len() == 4,
            arrow@ == "-->"@,
            bi_thick@ == "<==>"@,
            thick@ == "==>"@,
            views(out@) == normalized_lines(all.take(i as int)),
    {
        let raw = &ls[i];
        assert(all.take(i + 1).drop_last() == all.take(i as int));
        assert(all.take(i + 1).last() == raw@);
        let ghost before = views(out@);
        let t = trim_of(raw.as_slice());
        if t.len() == 0 {
            out.push(Vec::new());
            assert(views(out@) == before.push(Seq::<char>::empty()));
        } else if !is_dropped_line(t.as_slice()) {
            let a = strip_class_annotations(raw.as_slice());
            let b = replace_of(a.as_slice(), bi_arrow.as_slice(), arrow.as_slice());
            let c = replace_of(b.as_slice(), bi_thick.as_slice(), thick.as_slice());
            out.push(c);
            assert(views(out@) == before.push(c@));
        }
    }
    assert(all.take(n as int) == all);
    let nl = chars_of("\n");
    let joined = join_of(&out, nl.as_slice());
    string_of(joined.as_slice())
}

// ── Style properties ─────────────────────────────────────────────────────────

pub open spec fn trim_end_semis(s: Seq<char>) -> Seq<char>
    decreases s.len(),
{
    if s.len() > 0 && s.last() == ';' {
        trim_end_semis(s.drop_last())
    } else {
        s
    }
}

/// `st` with the `key: value` pair of `part` applied, if it names a
/// property the renderer knows.
pub open spec fn apply_prop(st: SpecStyle, part: Seq<char>) -> SpecStyle {
    match split_once(part, ":"@) {
        None => st,
        Some((k, v)) => {
            let key = trim(k);
            let val = Some(trim_end_semis(trim(v)));
            if key == "fill"@ {
                SpecStyle { fill: val, ..st }
            } else if key == "stroke"@ {
                SpecStyle { stroke: val, ..st }
            } else if key == "stroke-width"@ {
                SpecStyle { stroke_width: val, ..st }
            } else if key == "stroke-dasharray"@ {
                SpecStyle { stroke_dasharray: val, ..st }
            } else if key == "color"@ {
                SpecStyle { color: val, ..st }
            } else {
                st
            }
        },
    }
}

pub open spec fn apply_props(parts: Seq<Seq<char>>) -> SpecStyle
    decreases parts.len(),
{
    if parts.len() == 0 {
        no_style()
    } else {
        apply_prop(apply_props(parts.drop_last()), parts.last())
    }
}

/// The style a `classDef` body such as `fill:#fff,stroke:#333` describes.
pub open spec fn style_props(s: Seq<char>) -> SpecStyle {
    apply_props(split_char(s, ','))
}

fn trim_end_semis_of(s: &[char]) -> (r: Vec<char>)
    ensures
        r@ == trim_end_semis(s@),
{
    let mut e = s.len();
    assert(s@.take(e as int) == s@);
    while e > 0 && s[e - 1] == ';'
        invariant
            e <= s@.len(),
            trim_end_semis(s@) == trim_end_semis(s@.take(e as int)),
        decreases e,
    {
        assert(s@.take(e as int).drop_last() == s@.take(e - 1));
        e -= 1;
    }
    assert(s@.take(s@.len() as int) == s@);
    slice_of(s, 0, e)
}

pub fn parse_style_properties(input: &[char]) -> (r: StyleSpec)
    ensures
        r@ == style_props(input@),
{
    let parts = split_char_of(input, ',');
    let n = parts.len();
    let ghost all = views(parts@);
    let mut style = new_style();
    for i in 0..n
        invariant
            n == parts@.len(),
            all == views(parts@),
            all == split_char(input@, ','),
            style@ == apply_props(all.take(i as int)),
    {
        let part = &parts[i];
        assert(all.take(i + 1).drop_last() == all.take(i as int));
        assert(all.take(i + 1).last() == part@);
        match split_once_of(part.as_slice(), ":") {
            None => {},
            Some((k, v)) => {
                let key = trim_of(k.as_slice());
                let vt = trim_of(v.as_slice());
                let val = trim_end_semis_of(vt.as_slice());
                let value = string_of(val.as_slice());
                if eq_str(key.as_slice(), "fill") {
                    style.fill = Some(value);
                } else if eq_str(key.as_slice(), "stroke") {
                    style.stroke = Some(value);
                } else if eq_str(key.as_slice(), "stroke-width") {
                    style.stroke_width = Some(value);
                } else if eq_str(key.as_slice(), "stroke-dasharray") {
                    style.stroke_dasharray = Some(value);
                } else if eq_str(key.as_slice(), "color") {
                    style.color = Some(value);
                }
            },
        }
    }
    assert(all.take(n as int) == all);
    style
}

// ── Node styles from `classDef` and `class` ──────────────────────────────────

pub open spec fn class_def_pattern() -> Seq<char> {
    "^\\s*classDef\\s+([A-Za-z0-9_-]+)\\s+(.+?);?\\s*$"@
}

pub open spec fn class_stmt_pattern() -> Seq<char> {
    "^\\s*class\\s+([A-Za-z0-9_,\\s-]+)\\s+([A-Za-z0-9_-]+);?\\s*$"@
}

pub open spec fn inline_class_pattern() -> Seq<char> {
    "([A-Za-z_][A-Za-z0-9_]*)\\s*(?:\\[[^\\]]*\\]|\\(\\([^\\)]*\\)\\)|\\([^\\)]*\\)|\\{[^\\}]*\\})?:::([A-Za-z0-9_-]+)"@
}

/// The text of capture group `i` (empty when the group did not take part).
pub open spec fn grp(g: Seq<Option<Seq<char>>>, i: int) -> Seq<char> {
    if 0 <= i < g.len() && g[i] is Some {
        g[i]->0
    } else {
        seq![]
    }
}

/// The position of the entry with key `k`.
pub open spec fn assoc_index<V>(s: Seq<(Seq<char>, V)>, k: Seq<char>) -> Option<int>
    decreases s.len(),
{
    if s.len() == 0 {
        None
    } else if s[0].0 == k {
        Some(0)
    } else {
        match assoc_index(s.drop_first(), k) {
            Some(i) => Some(i + 1),
            None => None,
        }
    }
}

pub proof fn lemma_assoc_index<V>(s: Seq<(Seq<char>, V)>, k: Seq<char>)
    ensures
        assoc_index(s, k) matches Some(i) ==> 0 <= i < s.len() && s[i].0 == k && forall|j: int|
            0 <= j < i ==> s[j].0 != k,
        assoc_index(s, k) is None ==> forall|j: int| 0 <= j < s.len() ==> s[j].0 != k,
    decreases s.len(),
{
    if s.len() > 0 && s[0].0 != k {
        lemma_assoc_index(s.drop_first(), k);
        assert forall|j: int| 1 <= j < s.len() implies s[j] == s.drop_first()[j - 1] by {}
    }
}

/// `s` with key `k` bound to `v` (in place when `k` is present).
pub open spec fn assoc_set<V>(s: Seq<(Seq<char>, V)>, k: Seq<char>, v: V) -> Seq<(Seq<char>, V)> {
    match assoc_index(s, k) {
        Some(i) => s.update(i, (k, v)),
        None => s.push((k, v)),
    }
}

pub open spec fn assoc_get<V>(s: Seq<(Seq<char>, V)>, k: Seq<char>) -> Option<V> {
    match assoc_index(s, k) {
        Some(i) => Some(s[i].1),
        None => None,
    }
}

/// `s` with `c` added to the list under key `k`.
pub open spec fn assoc_append(s: Seq<(Seq<char>, Seq<Seq<char>>)>, k: Seq<char>, c: Seq<char>) -> Seq<
    (Seq<char>, Seq<Seq<char>>),
> {
    match assoc_index(s, k) {
        Some(i) => s.update(i, (k, s[i].1.push(c))),
        None => s.push((k, seq![c])),
    }
}

/// Every non-blank id of a `class a, b` list gets class `c`.
pub open spec fn add_ids(classes: Seq<(Seq<char>, Seq<Seq<char>>)>, parts: Seq<Seq<char>>, c: Seq<char>) -> Seq<
    (Seq<char>, Seq<Seq<char>>),
>
    decreases parts.len(),
{
    if parts.len() == 0 {
        classes
    } else {
        let prev = add_ids(classes, parts.drop_last(), c);
        let t = trim(parts.last());
        if t.len() > 0 {
            assoc_append(prev, t, c)
        } else {
            prev
        }
    }
}

/// Every `node:::class` annotation adds the class to the node.
pub open spec fn add_inline(
    classes: Seq<(Seq<char>, Seq<Seq<char>>)>,
    caps: Seq<Seq<Option<Seq<char>>>>,
) -> Seq<(Seq<char>, Seq<Seq<char>>)>
    decreases caps.len(),
{
    if caps.len() == 0 {
        classes
    } else {
        let prev = add_inline(classes, caps.drop_last());
        assoc_append(prev, grp(caps.last(), 1), grp(caps.last(), 2))
    }
}

pub ghost struct StyleState {
    pub defs: Seq<(Seq<char>, SpecStyle)>,
    pub classes: Seq<(Seq<char>, Seq<Seq<char>>)>,
}

/// What one source line contributes: a `classDef` line defines a class; any
/// other line may assign classes with `class` and with `:::` annotations.
pub open spec fn style_step(st: StyleState, line: Seq<char>) -> StyleState {
    match regex_captures(class_def_pattern(), line) {
        Some(g) => StyleState {
            defs: assoc_set(st.defs, grp(g, 1), style_props(grp(g, 2))),
            classes: st.classes,
        },
        None => {
            let c1 = match regex_captures(class_stmt_pattern(), line) {
                Some(g) => add_ids(st.classes, split_char(grp(g, 1), ','), trim(grp(g, 2))),
                None => st.classes,
            };
            StyleState {
                defs: st.defs,
                classes: add_inline(c1, regex_captures_all(inline_class_pattern(), line)),
            }
        },
    }
}

pub open spec fn style_state(ls: Seq<Seq<char>>) -> StyleState
    decreases ls.len(),
{
    if ls.len() == 0 {
        StyleState { defs: seq![], classes: seq![] }
    } else {
        style_step(style_state(ls.drop_last()), ls.last())
    }
}

/// The style of a node with classes `cls`: the definitions of its classes
/// overlaid in order (undefined classes contribute nothing).
pub open spec fn class_style(defs: Seq<(Seq<char>, SpecStyle)>, cls: Seq<Seq<char>>) -> SpecStyle
    decreases cls.len(),
{
    if cls.len() == 0 {
        no_style()
    } else {
        let prev = class_style(defs, cls.drop_last());
        match assoc_get(defs, cls.last()) {
            Some(d) => overlay(prev, d),
            None => prev,
        }
    }
}

/// The nodes whose classes give them a non-empty style, with that style.
pub open spec fn final_styles(
    defs: Seq<(Seq<char>, SpecStyle)>,
    classes: Seq<(Seq<char>, Seq<Seq<char>>)>,
) -> Seq<(Seq<char>, SpecStyle)>
    decreases classes.len(),
{
    if classes.len() == 0 {
        seq![]
    } else {
        let prev = final_styles(defs, classes.drop_last());
        let st = class_style(defs, classes.last().1);
        if st != no_style() {
            prev.push((classes.last().0, st))
        } else {
            prev
        }
    }
}

/// Whether the three style patterns compile (they are fixed, valid patterns).
pub open spec fn style_patterns_compile() -> bool {
    regex_compiles(class_def_pattern()) && regex_compiles(class_stmt_pattern()) && regex_compiles(
        inline_class_pattern(),
    )
}

/// The style of each node of a flowchart source.
pub open spec fn node_styles(s: Seq<char>) -> Seq<(Seq<char>, SpecStyle)> {
    if style_patterns_compile() {
        let st = style_state(lines(s));
        final_styles(st.defs, st.classes)
    } else {
        seq![]
    }
}

pub open spec fn str_views(v: Seq<String>) -> Seq<Seq<char>> {
    v.map_values(|x: String| x@)
}

pub open spec fn class_views(v: Seq<(String, Vec<String>)>) -> Seq<(Seq<char>, Seq<Seq<char>>)> {
    v.map_values(|p: (String, Vec<String>)| (p.0@, str_views(p.1@)))
}

fn defs_index(defs: &Vec<(String, StyleSpec)>, k: &[char]) -> (r: Option<usize>)
    ensures
        match r {
            Some(i) => assoc_index(style_views(defs@), k@) == Some(i as int),
            None => assoc_index(style_views(defs@), k@) is None,
        },
{
    let ghost all = style_views(defs@);
    proof {
        lemma_assoc_index(all, k@);
    }
    let n = defs.len();
    for i in 0..n
        invariant
            n == defs@.len(),
            all == style_views(defs@),
            forall|j: int| 0 <= j < i ==> all[j].0 != k@,
            assoc_index(all, k@) matches Some(x) ==> 0 <= x < all.len() && all[x].0 == k@ && forall|
                j: int,
            | 0 <= j < x ==> all[j].0 != k@,
            assoc_index(all, k@) is None ==> forall|j: int| 0 <= j < all.len() ==> all[j].0 != k@,
    {
        let key = chars_of(defs[i].0.as_str());
        if crate::text::seq_eq(key.as_slice(), k) {
            assert(all[i as int].0 == k@);
            return Some(i);
        }
    }
    None
}

fn classes_index(classes: &Vec<(String, Vec<String>)>, k: &[char]) -> (r: Option<usize>)
    ensures
        match r {
            Some(i) => assoc_index(class_views(classes@), k@) == Some(i as int),
            None => assoc_index(class_views(classes@), k@) is None,
        },
{
    let ghost all = class_views(classes@);
    proof {
        lemma_assoc_index(all, k@);
    }
    let n = classes.len();
    for i in 0..n
        invariant
            n == classes@.len(),
            all == class_views(classes@),
            forall|j: int| 0 <= j < i ==> all[j].0 != k@,
            assoc_index(all, k@) matches Some(x) ==> 0 <= x < all.len() && all[x].0 == k@ && forall|
                j: int,
            | 0 <= j < x ==> all[j].0 != k@,
            assoc_index(all, k@) is None ==> forall|j: int| 0 <= j < all.len() ==> all[j].0 != k@,
    {
        let key = chars_of(classes[i].0.as_str());
        if crate::text::seq_eq(key.as_slice(), k) {
            assert(all[i as int].0 == k@);
            return Some(i);
        }
    }
    None
}

fn append_class(classes: &mut Vec<(String, Vec<String>)>, k: &[char], c: &[char])
    ensures
        class_views(final(classes)@) == assoc_append(class_views(old(classes)@), k@, c@),
{
    let ghost before = class_views(classes@);
    proof {
        lemma_assoc_index(before, k@);
    }
    match classes_index(classes, k) {
        Some(i) => {
            let (name, mut list) = classes.remove(i);
            let ghost old_list = str_views(list@);
            list.push(string_of(c));
            assert(str_views(list@) == old_list.push(c@));
            classes.insert(i, (name, list));
            assert(class_views(classes@) =~= before.update(i as int, (k@, before[i as int].1.push(c@))));
        },
        None => {
            let mut list: Vec<String> = Vec::new();
            list.push(string_of(c));
            assert(str_views(list@) =~= seq![c@]);
            classes.push((string_of(k), list));
            assert(class_views(classes@) =~= before.push((k@, seq![c@])));
        },
    }
}

fn group_text(g: &Vec<Option<String>>, i: usize) -> (r: Vec<char>)
    ensures
        r@ == grp(group_views(g@), i as int),
{
    if i < g.len() {
        match &g[i] {
            Some(t) => chars_of(t.as_str()),
            None => Vec::new(),
        }
    } else {
        Vec::new()
    }
}

fn set_def(defs: &mut Vec<(String, StyleSpec)>, k: &[char], v: StyleSpec)
    ensures
        style_views(final(defs)@) == assoc_set(style_views(old(defs)@), k@, v@),
{
    let ghost before = style_views(defs@);
    proof {
        lemma_assoc_index(before, k@);
    }
    match defs_index(defs, k) {
        Some(i) => {
            defs.set(i, (string_of(k), v));
            assert(style_views(defs@) =~= before.update(i as int, (k@, v@)));
        },
        None => {
            defs.push((string_of(k), v));
            assert(style_views(defs@) =~= before.push((k@, v@)));
        },
    }
}

/// The node styles that `classDef`, `class` and `:::` lines give a flowchart.
pub fn extract_node_styles(input: &str) -> (r: Vec<(String, StyleSpec)>)
    ensures
        style_views(r@) == node_styles(input@),
{
    let def_re = compile("^\\s*classDef\\s+([A-Za-z0-9_-]+)\\s+(.+?);?\\s*$");
    let stmt_re = compile("^\\s*class\\s+([A-Za-z0-9_,\\s-]+)\\s+([A-Za-z0-9_-]+);?\\s*$");
    let inline_re = compile(
        "([A-Za-z_][A-Za-z0-9_]*)\\s*(?:\\[[^\\]]*\\]|\\(\\([^\\)]*\\)\\)|\\([^\\)]*\\)|\\{[^\\}]*\\})?:::([A-Za-z0-9_-]+)",
    );
    let (def_re, stmt_re, inline_re) = match (def_re, stmt_re, inline_re) {
        (Some(a), Some(b), Some(c)) => (a, b, c),
        _ => {
            return Vec::new();
        },
    };
    let chars = chars_of(input);
    let ls = lines_of(chars.as_slice());
    let ghost all = views(ls@);
    let n = ls.len();
    let mut defs: Vec<(String, StyleSpec)> = Vec::new();
    let mut classes: Vec<(String, Vec<String>)> = Vec::new();
    assert(style_views(defs@) =~= Seq::<(Seq<char>, SpecStyle)>::empty());
    assert(class_views(classes@) =~= Seq::<(Seq<char>, Seq<Seq<char>>)>::empty());
    for i in 0..n
        invariant
            n == ls@.len(),
            all == views(ls@),
            all == lines(input@),
            def_re.source() == class_def_pattern(),
            stmt_re.source() == class_stmt_pattern(),
            inline_re.source() == inline_class_pattern(),
            style_views(defs@) == style_state(all.take(i as int)).defs,
            class_views(classes@) == style_state(all.take(i as int)).classes,
    {
        assert(all.take(i + 1).drop_last() == all.take(i as int));
        assert(all.take(i + 1).last() == ls@[i as int]@);
        let line = string_of(ls[i].as_slice());
        match captures(&def_re, line.as_str()) {
            Some(g) => {
                let name = group_text(&g, 1);
                let body = group_text(&g, 2);
                let style = parse_style_properties(body.as_slice());
                set_def(&mut defs, name.as_slice(), style);
            },
            None => {
                match captures(&stmt_re, line.as_str()) {
                    Some(g) => {
                        let ids = group_text(&g, 1);
                        let cname_raw = group_text(&g, 2);
                        let cname = trim_of(cname_raw.as_slice());
                        let parts = split_char_of(ids.as_slice(), ',');
                        let ghost pv = views(parts@);
                        let ghost c0 = class_views(classes@);
                        let m = parts.len();
                        for j in 0..m
                            invariant
                                m == parts@.len(),
                                pv == views(parts@),
                                class_views(classes@) == add_ids(c0, pv.take(j as int), cname@),
                        {
                            assert(pv.take(j + 1).drop_last() == pv.take(j as int));
                            assert(pv.take(j + 1).last() == parts@[j as int]@);
                            let t = trim_of(parts[j].as_slice());
                            if t.len() > 0 {
                                append_class(&mut classes, t.as_slice(), cname.as_slice());
                            }
                        }
                        assert(pv.take(m as int) == pv);
                    },
                    None => {},
                }
                let found = captures_all(&inline_re, line.as_str());
                let ghost cv = regex_captures_all(inline_class_pattern(), line@);
                let ghost c1 = class_views(classes@);
                let m = found.len();
                for j in 0..m
                    invariant
                        m == found@.len(),
                        m == cv.len(),
                        forall|q: int| 0 <= q < m ==> group_views(#[trigger] found@[q]@) == cv[q],
                        class_views(classes@) == add_inline(c1, cv.take(j as int)),
                {
                    assert(cv.take(j + 1).drop_last() == cv.take(j as int));
                    assert(cv.take(j + 1).last() == group_views(found@[j as int]@));
                    let node = group_text(&found[j], 1);
                    let cls = group_text(&found[j], 2);
                    append_class(&mut classes, node.as_slice(), cls.as_slice());
                }
                assert(cv.take(m as int) == cv);
            },
        }
    }
    assert(all.take(n as int) == all);
    let ghost dv = style_views(defs@);
    let ghost clv = class_views(classes@);
    let mut out: Vec<(String, StyleSpec)> = Vec::new();
    let k = classes.len();
    assert(style_views(out@) =~= Seq::<(Seq<char>, SpecStyle)>::empty());
    for i in 0..k
        invariant
            k == classes@.len(),
            dv == style_views(defs@),
            clv == class_views(classes@),
            style_views(out@) == final_styles(dv, clv.take(i as int)),
    {
        assert(clv.take(i + 1).drop_last() == clv.take(i as int));
        assert(clv.take(i + 1).last() == clv[i as int]);
        let cls = &classes[i].1;
        let ghost cl = str_views(cls@);
        let mut style = new_style();
        let m = cls.len();
        for j in 0..m
            invariant
                m == cls@.len(),
                cl == str_views(cls@),
                dv == style_views(defs@),
                style@ == class_style(dv, cl.take(j as int)),
        {
            assert(cl.take(j + 1).drop_last() == cl.take(j as int));
            assert(cl.take(j + 1).last() == cls@[j as int]@);
            let c = chars_of(cls[j].as_str());
            match defs_index(&defs, c.as_slice()) {
                Some(d) => {
                    proof {
                        lemma_assoc_index(dv, c@);
                    }
                    merge_style(&mut style, &defs[d].1);
                },
                None => {},
            }
        }
        assert(cl.take(m as int) == cl);
        if !crate::mermaid_graph::is_empty_style(&style) {
            let ghost before = style_views(out@);
            out.push((classes[i].0.clone(), style));
            assert(style_views(out@) == before.push((clv[i as int].0, style@)));
        }
    }
    assert(clv.take(k as int) == clv);
    out
}

// ── Subgraphs ────────────────────────────────────────────────────────────────

pub open spec fn node_pattern() -> Seq<char> {
    "\\b([A-Za-z_][A-Za-z0-9_]*)\\b\\s*(?:\\[[^\\]]*\\]|\\(\\([^\\)]*\\)\\)|\\([^\\)]*\\)|\\{[^\\}]*\\})?"@
}

pub ghost struct SpecFrame {
    pub title: Seq<char>,
    pub nodes: Seq<Seq<char>>,
    pub depth: int,
}

pub ghost struct SpecSubgraph {
    pub title: Seq<char>,
    pub nodes: Seq<Seq<char>>,
    pub parent_title: Option<Seq<char>>,
    pub depth: int,
}

impl View for SubgraphDef {
    type V = SpecSubgraph;

    open spec fn view(&self) -> SpecSubgraph {
        SpecSubgraph {
            title: self.title@,
            nodes: str_views(self.nodes@),
            parent_title: match self.parent_title {
                Some(t) => Some(t@),
                None => None,
            },
            depth: self.depth as int,
        }
    }
}

pub open spec fn subgraph_views(v: Seq<SubgraphDef>) -> Seq<SpecSubgraph> {
    v.map_values(|g: SubgraphDef| g@)
}

pub open spec fn add_unique(nodes: Seq<Seq<char>>, id: Seq<char>) -> Seq<Seq<char>> {
    if nodes.contains(id) {
        nodes
    } else {
        nodes.push(id)
    }
}

pub open spec fn add_all_unique(nodes: Seq<Seq<char>>, ids: Seq<Seq<char>>) -> Seq<Seq<char>>
    decreases ids.len(),
{
    if ids.len() == 0 {
        nodes
    } else {
        add_unique(add_all_unique(nodes, ids.drop_last()), ids.last())
    }
}

pub open spec fn reserved_word(id: Seq<char>) -> bool {
    id == "graph"@ || id == "flowchart"@ || id == "subgraph"@ || id == "end"@
}

/// The node identifiers that the node pattern finds, keywords left out.
pub open spec fn node_ids(caps: Seq<Seq<Option<Seq<char>>>>) -> Seq<Seq<char>>
    decreases caps.len(),
{
    if caps.len() == 0 {
        seq![]
    } else {
        let prev = node_ids(caps.drop_last());
        let id = grp(caps.last(), 1);
        if reserved_word(id) {
            prev
        } else {
            prev.push(id)
        }
    }
}

pub open spec fn trim_quotes_start(s: Seq<char>) -> Seq<char>
    decreases s.len(),
{
    if s.len() > 0 && s[0] == '"' {
        trim_quotes_start(s.drop_first())
    } else {
        s
    }
}

pub open spec fn trim_quotes_end(s: Seq<char>) -> Seq<char>
    decreases s.len(),
{
    if s.len() > 0 && s.last() == '"' {
        trim_quotes_end(s.drop_last())
    } else {
        s
    }
}

/// What `str::trim_matches('"')` leaves.
pub open spec fn trim_quotes(s: Seq<char>) -> Seq<char> {
    trim_quotes_end(trim_quotes_start(s))
}

pub ghost struct SubState {
    pub stack: Seq<SpecFrame>,
    pub out: Seq<SpecSubgraph>,
}

/// What one source line does to the open subgraphs: `subgraph T` opens one,
/// `end` closes the innermost (its nodes join the enclosing one, and it is
/// recorded when it holds any node), and any other line inside a subgraph
/// adds the node identifiers it names.
pub open spec fn sub_step(st: SubState, raw: Seq<char>) -> SubState {
    let t = trim(raw);
    match crate::text::strip_prefix(t, "subgraph "@) {
        Some(rest) => SubState {
            stack: st.stack.push(
                SpecFrame { title: trim_quotes(trim(rest)), nodes: seq![], depth: st.stack.len() as int },
            ),
            out: st.out,
        },
        None => if t == "end"@ {
            if st.stack.len() == 0 {
                st
            } else {
                let frame = st.stack.last();
                let rest = st.stack.drop_last();
                let parent_title = if rest.len() > 0 {
                    Some(rest.last().title)
                } else {
                    None
                };
                let rest2 = if rest.len() > 0 {
                    rest.update(
                        rest.len() - 1,
                        SpecFrame { nodes: add_all_unique(rest.last().nodes, frame.nodes), ..rest.last() },
                    )
                } else {
                    rest
                };
                let out2 = if frame.nodes.len() > 0 {
                    st.out.push(
                        SpecSubgraph {
                            title: frame.title,
                            nodes: frame.nodes,
                            parent_title,
                            depth: frame.depth,
                        },
                    )
                } else {
                    st.out
                };
                SubState { stack: rest2, out: out2 }
            }
        } else if st.stack.len() == 0 {
            st
        } else {
            let ids = node_ids(regex_captures_all(node_pattern(), t));
            let top = st.stack.last();
            SubState {
                stack: st.stack.update(
                    st.stack.len() - 1,
                    SpecFrame { nodes: add_all_unique(top.nodes, ids), ..top },
                ),
                out: st.out,
            }
        },
    }
}

pub open spec fn sub_state(ls: Seq<Seq<char>>) -> SubState
    decreases ls.len(),
{
    if ls.len() == 0 {
        SubState { stack: seq![], out: seq![] }
    } else {
        sub_step(sub_state(ls.drop_last()), ls.last())
    }
}

/// The subgraphs of a flowchart source, in the order they close.
pub open spec fn subgraphs_of(s: Seq<char>) -> Seq<SpecSubgraph> {
    if regex_compiles(node_pattern()) {
        sub_state(lines(s)).out
    } else {
        seq![]
    }
}

struct Frame {
    title: String,
    nodes: Vec<String>,
    depth: usize,
}

impl View for Frame {
    type V = SpecFrame;

    closed spec fn view(&self) -> SpecFrame {
        SpecFrame { title: self.title@, nodes: str_views(self.nodes@), depth: self.depth as int }
    }
}

spec fn frame_views(v: Seq<Frame>) -> Seq<SpecFrame> {
    v.map_values(|f: Frame| f@)
}

fn contains_string(v: &Vec<String>, x: &[char]) -> (r: bool)
    ensures
        r == str_views(v@).contains(x@),
{
    let n = v.len();
    for i in 0..n
        invariant
            n == v@.len(),
            forall|j: int| 0 <= j < i ==> v@[j]@ != x@,
    {
        let c = chars_of(v[i].as_str());
        if crate::text::seq_eq(c.as_slice(), x) {
            assert(str_views(v@)[i as int] == x@);
            return true;
        }
    }
    assert(!str_views(v@).contains(x@)) by {
        if str_views(v@).contains(x@) {
            let k = choose|k: int| 0 <= k < str_views(v@).len() && str_views(v@)[k] == x@;
            assert(v@[k]@ == x@);
        }
    }
    false
}

fn push_unique(v: &mut Vec<String>, x: &[char])
    ensures
        str_views(final(v)@) == add_unique(str_views(old(v)@), x@),
{
    if !contains_string(v, x) {
        let ghost before = str_views(v@);
        v.push(string_of(x));
        assert(str_views(v@) == before.push(x@));
    }
}

fn push_all_unique(v: &mut Vec<String>, ids: &Vec<String>)
    ensures
        str_views(final(v)@) == add_all_unique(str_views(old(v)@), str_views(ids@)),
{
    let ghost start = str_views(v@);
    let ghost iv = str_views(ids@);
    let n = ids.len();
    for i in 0..n
        invariant
            n == ids@.len(),
            iv == str_views(ids@),
            str_views(v@) == add_all_unique(start, iv.take(i as int)),
    {
        assert(iv.take(i + 1).drop_last() == iv.take(i as int));
        assert(iv.take(i + 1).last() == ids@[i as int]@);
        let x = chars_of(ids[i].as_str());
        push_unique(v, x.as_slice());
    }
    assert(iv.take(n as int) == iv);
}

fn trim_quotes_of(s: &[char]) -> (r: Vec<char>)
    ensures
        r@ == trim_quotes(s@),
{
    let n = s.len();
    let mut a: usize = 0;
    assert(s@.skip(0) == s@);
    while a < n && s[a] == '"'
        invariant
            a <= n == s@.len(),
            trim_quotes_start(s@) == trim_quotes_start(s@.skip(a as int)),
        decreases n - a,
    {
        assert(s@.skip(a as int).drop_first() == s@.skip(a + 1));
        a += 1;
    }
    let t = slice_of(s, a, n);
    assert(t@ == s@.skip(a as int));
    let m = t.len();
    let mut e = m;
    assert(t@.take(m as int) == t@);
    while e > 0 && t[e - 1] == '"'
        invariant
            e <= m == t@.len(),
            trim_quotes_end(t@) == trim_quotes_end(t@.take(e as int)),
        decreases e,
    {
        assert(t@.take(e as int).drop_last() == t@.take(e - 1));
        e -= 1;
    }
    slice_of(t.as_slice(), 0, e)
}

/// The subgraphs of a flowchart source, with their nodes, parents and depths.
pub fn extract_subgraphs(input: &str) -> (r: Vec<SubgraphDef>)
    ensures
        subgraph_views(r@) == subgraphs_of(input@),
{
    let node_re = match compile(
        "\\b([A-Za-z_][A-Za-z0-9_]*)\\b\\s*(?:\\[[^\\]]*\\]|\\(\\([^\\)]*\\)\\)|\\([^\\)]*\\)|\\{[^\\}]*\\})?",
    ) {
        Some(re) => re,
        None => {
            return Vec::new();
        },
    };
    let chars = chars_of(input);
    let ls = lines_of(chars.as_slice());
    let ghost all = views(ls@);
    let n = ls.len();
    let mut stack: Vec<Frame> = Vec::new();
    let mut out: Vec<SubgraphDef> = Vec::new();
    assert(frame_views(stack@) =~= Seq::<SpecFrame>::empty());
    assert(subgraph_views(out@) =~= Seq::<SpecSubgraph>::empty());
    for i in 0..n
        invariant
            n == ls@.len(),
            all == views(ls@),
            all == lines(input@),
            node_re.source() == node_pattern(),
            frame_views(stack@) == sub_state(all.take(i as int)).stack,
            subgraph_views(out@) == sub_state(all.take(i as int)).out,
    {
        assert(all.take(i + 1).drop_last() == all.take(i as int));
        assert(all.take(i + 1).last() == ls@[i as int]@);
        let ghost fv = frame_views(stack@);
        let ghost ov = subgraph_views(out@);
        let t = trim_of(ls[i].as_slice());
        match crate::text::strip_prefix_of(t.as_slice(), "subgraph ") {
            Some(rest) => {
                let rt = trim_of(rest.as_slice());
                let title = trim_quotes_of(rt.as_slice());
                let depth = stack.len();
                let fresh: Vec<String> = Vec::new();
                assert(str_views(fresh@) =~= Seq::<Seq<char>>::empty());
                stack.push(Frame { title: string_of(title.as_slice()), nodes: fresh, depth });
                assert(frame_views(stack@) =~= fv.push(
                    SpecFrame { title: title@, nodes: seq![], depth: depth as int },
                ));
            },
            None => {
                if eq_str(t.as_slice(), "end") {
                    if stack.len() > 0 {
                        let frame = stack.pop().unwrap();
                        assert(frame@ == fv.last());
                        assert(frame_views(stack@) =~= fv.drop_last());
                        let parent_title = if stack.len() > 0 {
                            Some(stack[stack.len() - 1].title.clone())
                        } else {
                            None
                        };
                        if stack.len() > 0 {
                            let last = stack.len() - 1;
                            let mut parent = stack.remove(last);
                            push_all_unique(&mut parent.nodes, &frame.nodes);
                            stack.push(parent);
                            assert(frame_views(stack@) =~= fv.drop_last().update(
                                last as int,
                                SpecFrame {
                                    nodes: add_all_unique(fv.drop_last().last().nodes, frame@.nodes),
                                    ..fv.drop_last().last()
                                },
                            ));
                        }
                        if frame.nodes.len() > 0 {
                            let def = SubgraphDef {
                                title: frame.title,
                                nodes: frame.nodes,
                                parent_title,
                                depth: frame.depth,
                            };
                            out.push(def);
                            assert(subgraph_views(out@) =~= ov.push(def@));
                        }
                    }
                } else if stack.len() > 0 {
                    let line = string_of(t.as_slice());
                    let found = captures_all(&node_re, line.as_str());
                    let ghost cv = regex_captures_all(node_pattern(), t@);
                    let mut ids: Vec<String> = Vec::new();
                    let m = found.len();
                    assert(str_views(ids@) =~= Seq::<Seq<char>>::empty());
                    for j in 0..m
                        invariant
                            m == found@.len(),
                            m == cv.len(),
                            forall|q: int| 0 <= q < m ==> group_views(#[trigger] found@[q]@) == cv[q],
                            str_views(ids@) == node_ids(cv.take(j as int)),
                    {
                        assert(cv.take(j + 1).drop_last() == cv.take(j as int));
                        assert(cv.take(j + 1).last() == group_views(found@[j as int]@));
                        let id = group_text(&found[j], 1);
                        if !(eq_str(id.as_slice(), "graph") || eq_str(id.as_slice(), "flowchart")
                            || eq_str(id.as_slice(), "subgraph") || eq_str(id.as_slice(), "end")) {
                            let ghost before = str_views(ids@);
                            ids.push(string_of(id.as_slice()));
                            assert(str_views(ids@) == before.push(id@));
                        }
                    }
                    assert(cv.take(m as int) == cv);
                    let last = stack.len() - 1;
                    let mut top = stack.remove(last);
                    push_all_unique(&mut top.nodes, &ids);
                    stack.push(top);
                    assert(frame_views(stack@) =~= fv.update(
                        last as int,
                        SpecFrame { nodes: add_all_unique(fv.last().nodes, str_views(ids@)), ..fv.last() },
                    ));
                }
            },
        }
    }
    assert(all.take(n as int) == all);
    out
}

} // verus!
