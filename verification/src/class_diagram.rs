//! Parsing of Mermaid class diagrams.

use vstd::prelude::*;
use crate::diagrams::sopt;
use crate::sequence_diagram::{after, str_views};
use crate::text::{
    chars_of, ends_with, find, lemma_find_bounds, lemma_find_none, lemma_find_none_char,
    lemma_split_at_first, lex_less, occurs_at, lex_less_of, lines, lines_of, slice_of, split_once,
    split_once_of, starts_with, starts_with_str, string_of, trim, trim_of, views,
};

verus! {

pub struct ClassNode {
    pub name: String,
    pub members: Vec<String>,
}

pub struct ClassRelationship {
    pub from: String,
    pub to: String,
    pub kind: String,
    pub label: Option<String>,
}

pub struct ClassDiagram {
    pub classes: Vec<ClassNode>,
    pub relationships: Vec<ClassRelationship>,
}

/// A named entry with its lines: a class with its members, or an entity
/// with its attributes.
pub open spec fn class_views(v: Seq<ClassNode>) -> Seq<(Seq<char>, Seq<Seq<char>>)> {
    v.map_values(|c: ClassNode| (c.name@, str_views(c.members@)))
}

pub open spec fn relationship_views(v: Seq<ClassRelationship>) -> Seq<
    (Seq<char>, Seq<char>, Seq<char>, Option<Seq<char>>),
> {
    v.map_values(|r: ClassRelationship| (r.from@, r.to@, r.kind@, sopt(r.label)))
}

/// `v`, kept in name order, with an empty entry for `name` unless it has one.
pub open spec fn named_insert(v: Seq<(Seq<char>, Seq<Seq<char>>)>, name: Seq<char>) -> Seq<
    (Seq<char>, Seq<Seq<char>>),
>
    decreases v.len(),
{
    if v.len() == 0 {
        seq![(name, seq![])]
    } else if v[0].0 == name {
        v
    } else if lex_less(name, v[0].0) {
        seq![(name, seq![])] + v
    } else {
        seq![v[0]] + named_insert(v.drop_first(), name)
    }
}

/// `v` with `line` added to the entry named `name`.
pub open spec fn add_line(v: Seq<(Seq<char>, Seq<Seq<char>>)>, name: Seq<char>, line: Seq<char>) -> Seq<
    (Seq<char>, Seq<Seq<char>>),
> {
    v.map_values(
        |e: (Seq<char>, Seq<Seq<char>>)|
            if e.0 == name {
                (e.0, e.1.push(line))
            } else {
                e
            },
    )
}

/// The relation arrows, in the order they are tried.
pub open spec fn relation_tokens() -> Seq<Seq<char>> {
    seq![
        "<|--"@,
        "--|>"@,
        "*--"@,
        "--*"@,
        "o--"@,
        "--o"@,
        "<.."@,
        "..>"@,
        "<--"@,
        "-->"@,
        ".."@,
        "--"@,
    ]
}

/// The token of `toks` that occurs earliest in `line`, with its position;
/// of two at the same position, the one listed first.
pub open spec fn earliest_token(line: Seq<char>, toks: Seq<Seq<char>>) -> Option<(Seq<char>, int)>
    decreases toks.len(),
{
    if toks.len() == 0 {
        None
    } else {
        let best = earliest_token(line, toks.drop_last());
        match find(line, toks.last()) {
            Some(i) => match best {
                Some((t, j)) => if i < j {
                    Some((toks.last(), i))
                } else {
                    best
                },
                None => Some((toks.last(), i)),
            },
            None => best,
        }
    }
}

pub ghost struct ClassView {
    pub classes: Seq<(Seq<char>, Seq<Seq<char>>)>,
    pub relationships: Seq<(Seq<char>, Seq<char>, Seq<char>, Option<Seq<char>>)>,
    pub current: Option<Seq<char>>,
}

/// The effect of one line: inside a class body each line is a member up to
/// `}`; `class Name` declares a class (opening a body with `{`); a line with
/// a relation arrow relates the classes on its two sides.
pub open spec fn class_step(st: ClassView, raw: Seq<char>) -> ClassView {
    let line = trim(raw);
    if line.len() == 0 || starts_with(line, "classDiagram"@) {
        st
    } else {
        match st.current {
            Some(name) => if line == "}"@ {
                ClassView { current: None, ..st }
            } else {
                ClassView { classes: add_line(st.classes, name, line), ..st }
            },
            None => if starts_with(line, "class "@) {
                let rest = after(line, "class "@);
                if rest.len() > 0 && rest.last() == '{' {
                    let name = trim(rest.drop_last());
                    ClassView { classes: named_insert(st.classes, name), current: Some(name), ..st }
                } else {
                    ClassView { classes: named_insert(st.classes, trim(rest)), ..st }
                }
            } else {
                match earliest_token(line, relation_tokens()) {
                    Some((tok, idx)) => {
                        let left = trim(line.take(idx));
                        let right_part = trim(line.skip(idx + tok.len()));
                        let (right, label) = match split_once(right_part, ":"@) {
                            Some((d, l)) => (trim(d), Some(trim(l))),
                            None => (right_part, None),
                        };
                        let c1 = if left.len() > 0 {
                            named_insert(st.classes, left)
                        } else {
                            st.classes
                        };
                        let c2 = if right.len() > 0 {
                            named_insert(c1, right)
                        } else {
                            c1
                        };
                        ClassView {
                            classes: c2,
                            relationships: st.relationships.push((left, right, tok, label)),
                            current: None,
                        }
                    },
                    None => st,
                }
            },
        }
    }
}

pub open spec fn class_fold(ls: Seq<Seq<char>>) -> ClassView
    decreases ls.len(),
{
    if ls.len() == 0 {
        ClassView { classes: seq![], relationships: seq![], current: None }
    } else {
        class_step(class_fold(ls.drop_last()), ls.last())
    }
}

pub open spec fn class_spec(input: Seq<char>) -> Result<
    (Seq<(Seq<char>, Seq<Seq<char>>)>, Seq<(Seq<char>, Seq<char>, Seq<char>, Option<Seq<char>>)>),
    Seq<char>,
> {
    let st = class_fold(lines(input));
    if st.classes.len() == 0 {
        Err("Class diagram has no classes"@)
    } else {
        Ok((st.classes, st.relationships))
    }
}

pub(crate) fn same(a: &String, b: &[char]) -> (r: bool)
    ensures
        r == (a@ == b@),
{
    let av = chars_of(a.as_str());
    crate::text::seq_eq(av.as_slice(), b)
}

fn insert_class(v: &mut Vec<ClassNode>, name: &[char])
    ensures
        class_views(final(v)@) == named_insert(class_views(old(v)@), name@),
{
    let ghost w = class_views(v@);
    let n = v.len();
    let mut i: usize = 0;
    assert(w.skip(0) =~= w);
    assert(w.take(0) + named_insert(w.skip(0), name@) =~= named_insert(w, name@));
    while i < n
        invariant
            n == v@.len(),
            i <= n,
            v@ == old(v)@,
            w == class_views(v@),
            named_insert(w, name@) == w.take(i as int) + named_insert(w.skip(i as int), name@),
        decreases n - i,
    {
        let nm = chars_of(v[i].name.as_str());
        let ghost rest_w = w.skip(i as int);
        assert(rest_w[0] == w[i as int]);
        assert(w[i as int].0 == nm@);
        if crate::text::seq_eq(nm.as_slice(), name) {
            assert(named_insert(rest_w, name@) == rest_w);
            assert(w.take(i as int) + rest_w =~= w);
            return;
        }
        if lex_less_of(name, nm.as_slice()) {
            assert(named_insert(rest_w, name@) == seq![(name@, Seq::<Seq<char>>::empty())] + rest_w);
            v.insert(i, ClassNode { name: string_of(name), members: Vec::new() });
            assert(str_views(Seq::<String>::empty()) =~= Seq::<Seq<char>>::empty());
            assert(class_views(v@) =~= w.take(i as int) + named_insert(rest_w, name@));
            return;
        }
        assert(rest_w.drop_first() =~= w.skip(i + 1));
        assert(w.take(i + 1) =~= w.take(i as int).push(w[i as int]));
        assert(w.take(i as int) + named_insert(rest_w, name@) =~= w.take(i + 1) + named_insert(
            w.skip(i + 1),
            name@,
        ));
        i += 1;
    }
    assert(w.skip(n as int) =~= Seq::<(Seq<char>, Seq<Seq<char>>)>::empty());
    v.push(ClassNode { name: string_of(name), members: Vec::new() });
    assert(str_views(Seq::<String>::empty()) =~= Seq::<Seq<char>>::empty());
    assert(class_views(v@) =~= w.take(n as int) + named_insert(w.skip(n as int), name@));
}

fn add_member(v: &mut Vec<ClassNode>, name: &[char], line: &[char])
    ensures
        class_views(final(v)@) == add_line(class_views(old(v)@), name@, line@),
{
    let ghost w = class_views(v@);
    let n = v.len();
    for j in 0..n
        invariant
            n == v@.len(),
            w.len() == n,
            w == class_views(old(v)@),
            class_views(v@).len() == n,
            forall|k: int| 0 <= k < j ==> class_views(v@)[k] == add_line(w, name@, line@)[k],
            forall|k: int| j <= k < n ==> class_views(v@)[k] == w[k],
    {
        let ghost vb = v@;
        if same(&v[j].name, name) {
            let mut c = v.remove(j);
            let ghost before = c.members@;
            c.members.push(string_of(line));
            assert(str_views(c.members@) =~= str_views(before).push(line@));
            v.insert(j, c);
            assert(v@ =~= vb.update(j as int, c));
        }
        assert(forall|k: int| 0 <= k < n && k != j ==> v@[k] == vb[k]);
        assert forall|k: int| 0 <= k < j + 1 implies class_views(v@)[k] == add_line(w, name@, line@)[k] by {
            if k < j {
                assert(v@[k] == vb[k]);
                assert(class_views(vb)[k] == add_line(w, name@, line@)[k]);
            }
        }
        assert forall|k: int| j + 1 <= k < n implies class_views(v@)[k] == w[k] by {
            assert(v@[k] == vb[k]);
            assert(class_views(vb)[k] == w[k]);
        }
        assert(class_views(v@)[j as int] == add_line(w, name@, line@)[j as int]);
    }
    assert(class_views(v@) =~= add_line(w, name@, line@));
}

fn earliest_token_of(line: &[char]) -> (r: Option<(&'static str, usize)>)
    ensures
        match r {
            Some((t, i)) => earliest_token(line@, relation_tokens()) == Some((t@, i as int)),
            None => earliest_token(line@, relation_tokens()) is None,
        },
{
    let toks: [&'static str; 12] = [
        "<|--",
        "--|>",
        "*--",
        "--*",
        "o--",
        "--o",
        "<..",
        "..>",
        "<--",
        "-->",
        "..",
        "--",
    ];
    let ghost tv = relation_tokens();
    assert(tv.len() == 12);
    assert(forall|k: int| 0 <= k < 12 ==> #[trigger] toks@[k]@ == tv[k]);
    let mut best: Option<(&'static str, usize)> = None;
    for k in 0..12
        invariant
            tv == relation_tokens(),
            tv.len() == 12,
            forall|m: int| 0 <= m < 12 ==> #[trigger] toks@[m]@ == tv[m],
            match best {
                Some((t, i)) => earliest_token(line@, tv.take(k as int)) == Some((t@, i as int)),
                None => earliest_token(line@, tv.take(k as int)) is None,
            },
    {
        assert(tv.take(k + 1).drop_last() =~= tv.take(k as int));
        assert(tv.take(k + 1).last() == tv[k as int]);
        let tok = toks[k];
        assert(tok@ == tv[k as int]);
        let pos = crate::text::find_str(line, tok);
        match pos {
            Some(i) => {
                match best {
                    Some((_, j)) => {
                        if i < j {
                            best = Some((tok, i));
                        }
                    },
                    None => {
                        best = Some((tok, i));
                    },
                }
            },
            None => {},
        }
    }
    assert(tv.take(12) =~= tv);
    best
}

fn push_relationship(
    rels: &mut Vec<ClassRelationship>,
    from: &[char],
    to: &[char],
    kind: &str,
    label: &Option<Vec<char>>,
)
    ensures
        relationship_views(final(rels)@) == relationship_views(old(rels)@).push(
            (from@, to@, kind@, crate::diagrams::vopt(*label)),
        ),
{
    let l = match label {
        Some(v) => Some(string_of(v.as_slice())),
        None => None,
    };
    let ghost before = rels@;
    rels.push(
        ClassRelationship {
            from: string_of(from),
            to: string_of(to),
            kind: String::from_str(kind),
            label: l,
        },
    );
    assert(relationship_views(rels@) =~= relationship_views(before).push(
        (from@, to@, kind@, crate::diagrams::vopt(*label)),
    ));
}

/// Parses a class diagram: its classes in name order, each with its members,
/// and its relationships in order.
pub fn parse_class_diagram(input: &str) -> (r: Result<ClassDiagram, String>)
    ensures
        match r {
            Ok(d) => class_spec(input@) == Ok::<
                (
                    Seq<(Seq<char>, Seq<Seq<char>>)>,
                    Seq<(Seq<char>, Seq<char>, Seq<char>, Option<Seq<char>>)>,
                ),
                Seq<char>,
            >((class_views(d.classes@), relationship_views(d.relationships@))),
            Err(e) => class_spec(input@) == Err::<
                (
                    Seq<(Seq<char>, Seq<Seq<char>>)>,
                    Seq<(Seq<char>, Seq<char>, Seq<char>, Option<Seq<char>>)>,
                ),
                Seq<char>,
            >(e@),
        },
{
    let src = chars_of(input);
    let ls = lines_of(src.as_slice());
    let mut classes: Vec<ClassNode> = Vec::new();
    let mut rels: Vec<ClassRelationship> = Vec::new();
    let mut current: Option<Vec<char>> = None;
    let n = ls.len();
    assert(class_views(classes@) =~= Seq::<(Seq<char>, Seq<Seq<char>>)>::empty());
    assert(relationship_views(rels@) =~= Seq::<
        (Seq<char>, Seq<char>, Seq<char>, Option<Seq<char>>),
    >::empty());
    assert(views(ls@).take(0) =~= Seq::<Seq<char>>::empty());
    for i in 0..n
        invariant
            n == ls@.len(),
            views(ls@) == lines(src@),
            src@ == input@,
            class_fold(views(ls@).take(i as int)) == (ClassView {
                classes: class_views(classes@),
                relationships: relationship_views(rels@),
                current: crate::diagrams::vopt(current),
            }),
    {
        assert(views(ls@).take(i + 1).drop_last() =~= views(ls@).take(i as int));
        assert(views(ls@).take(i + 1).last() == ls@[i as int]@);
        let line_v = trim_of(ls[i].as_slice());
        let line = line_v.as_slice();
        if line.len() == 0 || starts_with_str(line, "classDiagram") {
        } else {
            match &current {
                Some(name) => {
                    if crate::text::eq_str(line, "}") {
                        current = None;
                    } else {
                        add_member(&mut classes, name.as_slice(), line);
                    }
                },
                None => {
                    if starts_with_str(line, "class ") {
                        let pv = chars_of("class ");
                        let rest = slice_of(line, pv.len(), line.len());
                        assert(rest@ =~= after(line@, "class "@));
                        if rest.len() > 0 && rest[rest.len() - 1] == '{' {
                            let body = slice_of(rest.as_slice(), 0, rest.len() - 1);
                            assert(body@ =~= rest@.drop_last());
                            let name = trim_of(body.as_slice());
                            insert_class(&mut classes, name.as_slice());
                            current = Some(name);
                        } else {
                            let name = trim_of(rest.as_slice());
                            insert_class(&mut classes, name.as_slice());
                        }
                    } else {
                        match earliest_token_of(line) {
                            Some((tok, idx)) => {
                                proof {
                                    crate::text::lemma_find_bounds(line@, tok@);
                                }
                                assert(find(line@, tok@) == Some(idx as int)) by {
                                    reveal_with_fuel(earliest_token, 13);
                                    lemma_earliest_found(line@, relation_tokens());
                                }
                                let tv = chars_of(tok);
                                let lpart = slice_of(line, 0, idx);
                                let rpart = slice_of(line, idx + tv.len(), line.len());
                                let left = trim_of(lpart.as_slice());
                                let right_part = trim_of(rpart.as_slice());
                                assert(lpart@ =~= line@.take(idx as int));
                                assert(rpart@ =~= line@.skip(idx + tok@.len()));
                                let (right, label): (Vec<char>, Option<Vec<char>>) = match split_once_of(
                                    right_part.as_slice(),
                                    ":",
                                ) {
                                    Some((d, l)) => (trim_of(d.as_slice()), Some(trim_of(l.as_slice()))),
                                    None => (right_part, None),
                                };
                                if left.len() > 0 {
                                    insert_class(&mut classes, left.as_slice());
                                }
                                if right.len() > 0 {
                                    insert_class(&mut classes, right.as_slice());
                                }
                                push_relationship(&mut rels, left.as_slice(), right.as_slice(), tok, &label);
                            },
                            None => {},
                        }
                    }
                },
            }
        }
    }
    assert(views(ls@).take(n as int) =~= views(ls@));
    if classes.len() == 0 {
        Err(String::from_str("Class diagram has no classes"))
    } else {
        Ok(ClassDiagram { classes, relationships: rels })
    }
}

/// A token `earliest_token` picks occurs in the line at the position it
/// gives.
proof fn lemma_earliest_found(line: Seq<char>, toks: Seq<Seq<char>>)
    ensures
        earliest_token(line, toks) matches Some((t, i)) ==> find(line, t) == Some(i),
    decreases toks.len(),
{
    if toks.len() > 0 {
        lemma_earliest_found(line, toks.drop_last());
    }
}

/// Outside a class body, `class NAME` declares the class `NAME` (trimmed)
/// and `class NAME {` declares it and opens its body; inside a body, `}`
/// closes it and any other line becomes a member of that class, as it
/// stands after trimming. Declarations relate no classes.
pub proof fn law_class_declarations(st: ClassView, raw: Seq<char>, name: Seq<char>)
    requires
        !starts_with(trim(raw), "classDiagram"@),
    ensures
        st.current is None && trim(raw) == "class "@ + name && name.len() > 0 && name.last() != '{'
            ==> class_step(st, raw) == (ClassView { classes: named_insert(st.classes, trim(name)), ..st }),
        st.current is None && trim(raw) == "class "@ + name + "{"@ ==> class_step(st, raw) == (ClassView {
            classes: named_insert(st.classes, trim(name)),
            current: Some(trim(name)),
            ..st
        }),
        st.current is Some && trim(raw) == "}"@ ==> class_step(st, raw) == (ClassView { current: None, ..st }),
        st.current is Some && trim(raw).len() > 0 && trim(raw) != "}"@ ==> class_step(st, raw) == (ClassView {
            classes: add_line(st.classes, st.current->0, trim(raw)),
            ..st
        }),
{
    reveal_strlit("class ");
    reveal_strlit("{");
    reveal_strlit("}");
    let line = trim(raw);
    if line == "class "@ + name {
        assert(line.take(6) =~= "class "@);
        assert(after(line, "class "@) =~= name);
    }
    if line == "class "@ + name + "{"@ {
        assert(line.take(6) =~= "class "@);
        assert(after(line, "class "@) =~= name + "{"@);
        assert((name + "{"@).drop_last() =~= name);
    }
}

proof fn lemma_trim_start_lacks(s: Seq<char>, c: char)
    requires
        forall|i: int| 0 <= i < s.len() ==> s[i] != c,
    ensures
        forall|i: int| 0 <= i < crate::text::trim_start(s).len() ==> crate::text::trim_start(s)[i] != c,
    decreases s.len(),
{
    if s.len() > 0 && crate::text::is_ws(s[0]) {
        assert forall|i: int| 0 <= i < s.drop_first().len() implies s.drop_first()[i] != c by {
            assert(s.drop_first()[i] == s[i + 1]);
        }
        lemma_trim_start_lacks(s.drop_first(), c);
        assert(crate::text::trim_start(s) == crate::text::trim_start(s.drop_first()));
    } else {
        assert(crate::text::trim_start(s) == s);
    }
}

proof fn lemma_trim_end_lacks(s: Seq<char>, c: char)
    requires
        forall|i: int| 0 <= i < s.len() ==> s[i] != c,
    ensures
        forall|i: int| 0 <= i < crate::text::trim_end(s).len() ==> crate::text::trim_end(s)[i] != c,
    decreases s.len(),
{
    if s.len() > 0 && crate::text::is_ws(s.last()) {
        assert forall|i: int| 0 <= i < s.drop_last().len() implies s.drop_last()[i] != c by {
            assert(s.drop_last()[i] == s[i]);
        }
        lemma_trim_end_lacks(s.drop_last(), c);
        assert(crate::text::trim_end(s) == crate::text::trim_end(s.drop_last()));
    } else {
        assert(crate::text::trim_end(s) == s);
    }
}

/// A character missing from `s` is missing from `trim(s)`.
proof fn lemma_trim_lacks(s: Seq<char>, c: char)
    requires
        forall|i: int| 0 <= i < s.len() ==> s[i] != c,
    ensures
        forall|i: int| 0 <= i < trim(s).len() ==> trim(s)[i] != c,
{
    lemma_trim_start_lacks(s, c);
    lemma_trim_end_lacks(crate::text::trim_start(s), c);
}

/// The characters that make up relation arrows.
pub open spec fn arrow_char(c: char) -> bool {
    c == '<' || c == '>' || c == '|' || c == '*' || c == '.' || c == '-'
}

/// A line `A --> B` (outside a class body; the names holding no arrow
/// character or colon, and `A` not ending in `o`) relates `A` to `B`, both
/// trimmed and declared, with the arrow `-->` and no label.
pub proof fn law_class_relation_line(st: ClassView, raw: Seq<char>, a: Seq<char>, b: Seq<char>)
    requires
        st.current is None,
        forall|i: int| 0 <= i < a.len() ==> !arrow_char(a[i]) && a[i] != ':',
        forall|i: int| 0 <= i < b.len() ==> !arrow_char(b[i]) && b[i] != ':',
        a.len() > 0 ==> a.last() != 'o',
        trim(raw) == a + "-->"@ + b,
        !starts_with(trim(raw), "classDiagram"@),
        !starts_with(trim(raw), "class "@),
    ensures
        class_step(st, raw).relationships == st.relationships.push((trim(a), trim(b), "-->"@, None)),
        class_step(st, raw).current is None,
{
    reveal_strlit("-->");
    reveal_strlit("<|--");
    reveal_strlit("--|>");
    reveal_strlit("*--");
    reveal_strlit("--*");
    reveal_strlit("o--");
    reveal_strlit("--o");
    reveal_strlit("<..");
    reveal_strlit("..>");
    reveal_strlit("<--");
    reveal_strlit("..");
    reveal_strlit("--");
    reveal_strlit(":");
    reveal_strlit(">");
    reveal_with_fuel(earliest_token, 13);
    let line = trim(raw);
    let n = a.len() as int;
    assert forall|i: int| 0 <= i < line.len() implies line[i] != '<' && line[i] != '|' && line[i] != '*' && line[i]
        != '.' && line[i] != ':' by {
        if i < n {
            assert(line[i] == a[i]);
        } else if i >= n + 3 {
            assert(line[i] == b[i - n - 3]);
        }
    }
    lemma_find_none_char(line, "<|--"@, 0);
    lemma_find_none_char(line, "--|>"@, 2);
    lemma_find_none_char(line, "*--"@, 0);
    lemma_find_none_char(line, "--*"@, 2);
    lemma_find_none_char(line, "<.."@, 0);
    lemma_find_none_char(line, "..>"@, 0);
    lemma_find_none_char(line, "<--"@, 0);
    lemma_find_none_char(line, ".."@, 0);
    lemma_split_at_first(a, "-->"@, b);
    assert("-->"@ =~= "--"@ + ">"@);
    assert(line =~= a + "--"@ + (">"@ + b));
    lemma_split_at_first(a, "--"@, ">"@ + b);
    lemma_find_bounds(line, "o--"@);
    if let Some(k) = find(line, "o--"@) {
        assert(occurs_at(line, "o--"@, k));
        assert(line.subrange(k, k + 3)[1] == line[k + 1]);
        assert(line.subrange(k, k + 3)[0] == line[k]);
        if k + 1 < n {
            assert(line[k + 1] == a[k + 1]);
        } else if k + 1 == n {
            assert(line[k] == a[n - 1]);
        } else if k + 1 == n + 1 || k + 1 == n + 2 {
        } else {
            assert(line[k + 1] == b[k + 1 - n - 3]);
        }
    }
    lemma_find_bounds(line, "--o"@);
    if let Some(k) = find(line, "--o"@) {
        assert(occurs_at(line, "--o"@, k));
        assert(line.subrange(k, k + 3)[0] == line[k]);
        assert(line.subrange(k, k + 3)[2] == line[k + 2]);
        if k < n {
            assert(line[k] == a[k]);
        } else if k == n {
            assert(line[k + 2] == '>');
        } else if k < n + 3 {
        } else {
            assert(line[k] == b[k - n - 3]);
        }
    }
    assert(line.take(n) =~= a);
    assert(line.skip(n + 3) =~= b);
    lemma_trim_lacks(b, ':');
    lemma_find_none(trim(b), ":"@);
    let toks = relation_tokens();
    assert(toks.len() == 12);
    assert(earliest_token(line, toks) == Some(("-->"@, n)));
}

} // verus!
