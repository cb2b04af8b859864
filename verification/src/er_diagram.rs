//! Parsing of Mermaid entity-relationship diagrams.

use vstd::prelude::*;
use crate::class_diagram::{add_line, named_insert, same};
use crate::sequence_diagram::str_views;
use crate::text::{
    chars_of, join, join_of, lemma_split_at_first, lex_less, lex_less_of, lines, lines_of, slice_of, split_once,
    split_once_of, split_ws, split_ws_of, starts_with, starts_with_str, string_of, trim, trim_of,
    views,
};

verus! {

pub struct ErEntity {
    pub name: String,
    pub attributes: Vec<String>,
}

pub struct ErRelationship {
    pub left: String,
    pub left_cardinality: String,
    pub right_cardinality: String,
    pub right: String,
    pub label: String,
}

pub struct ErDiagram {
    pub entities: Vec<ErEntity>,
    pub relationships: Vec<ErRelationship>,
}

pub open spec fn entity_views(v: Seq<ErEntity>) -> Seq<(Seq<char>, Seq<Seq<char>>)> {
    v.map_values(|e: ErEntity| (e.name@, str_views(e.attributes@)))
}

pub open spec fn er_relationship_views(v: Seq<ErRelationship>) -> Seq<
    (Seq<char>, Seq<char>, Seq<char>, Seq<char>, Seq<char>),
> {
    v.map_values(
        |r: ErRelationship| (r.left@, r.left_cardinality@, r.right_cardinality@, r.right@, r.label@),
    )
}

/// `s` without leading and trailing occurrences of `c`.
pub open spec fn trim_char(s: Seq<char>, c: char) -> Seq<char>
    decreases s.len(),
{
    if s.len() > 0 && s[0] == c {
        trim_char(s.drop_first(), c)
    } else if s.len() > 0 && s.last() == c {
        trim_char(s.drop_last(), c)
    } else {
        s
    }
}

pub open spec fn has_char(s: Seq<char>, c: char) -> bool {
    s.contains(c)
}

pub ghost struct ErView {
    pub entities: Seq<(Seq<char>, Seq<Seq<char>>)>,
    pub relationships: Seq<(Seq<char>, Seq<char>, Seq<char>, Seq<char>, Seq<char>)>,
    pub current: Option<Seq<char>>,
    /// A line outside an entity body had fewer than two words: reading its
    /// cardinality would index past its words.
    pub stuck: bool,
}

/// The effect of one line: inside an entity body each line is an attribute
/// up to `}`; `Name {` opens a body; `LEFT card RIGHT label...` with a
/// cardinality holding `}`, `|` or `o` relates two entities.
pub open spec fn er_step(st: ErView, raw: Seq<char>) -> ErView {
    let line = trim(raw);
    if st.stuck || line.len() == 0 || starts_with(line, "erDiagram"@) {
        st
    } else {
        match st.current {
            Some(name) => if line == "}"@ {
                ErView { current: None, ..st }
            } else {
                ErView { entities: add_line(st.entities, name, line), ..st }
            },
            None => if line.last() == '{' {
                let name = trim(line.drop_last());
                ErView { entities: named_insert(st.entities, name), current: Some(name), ..st }
            } else {
                let parts = split_ws(line);
                if parts.len() < 2 {
                    ErView { stuck: true, ..st }
                } else if parts.len() >= 4 && (has_char(parts[1], '}') || has_char(parts[1], '|')
                    || has_char(parts[1], 'o')) {
                    let left = parts[0];
                    let card = parts[1];
                    let right = parts[2];
                    let label = trim(trim_char(join(parts.skip(3), " "@), ':'));
                    let (lc, rc) = match split_once(card, "--"@) {
                        Some((l, r)) => (l, r),
                        None => (card, seq![]),
                    };
                    ErView {
                        entities: named_insert(named_insert(st.entities, left), right),
                        relationships: st.relationships.push((left, lc, rc, right, label)),
                        ..st
                    }
                } else {
                    st
                }
            },
        }
    }
}

pub open spec fn er_fold(ls: Seq<Seq<char>>) -> ErView
    decreases ls.len(),
{
    if ls.len() == 0 {
        ErView { entities: seq![], relationships: seq![], current: None, stuck: false }
    } else {
        er_step(er_fold(ls.drop_last()), ls.last())
    }
}

pub open spec fn er_spec(input: Seq<char>) -> Result<
    (Seq<(Seq<char>, Seq<Seq<char>>)>, Seq<(Seq<char>, Seq<char>, Seq<char>, Seq<char>, Seq<char>)>),
    Seq<char>,
> {
    let st = er_fold(lines(input));
    if st.stuck {
        Err("ER diagram has a line of one word outside an entity"@)
    } else if st.entities.len() == 0 {
        Err("ER diagram has no entities"@)
    } else {
        Ok((st.entities, st.relationships))
    }
}

fn insert_entity(v: &mut Vec<ErEntity>, name: &[char])
    ensures
        entity_views(final(v)@) == named_insert(entity_views(old(v)@), name@),
{
    let ghost w = entity_views(v@);
    let n = v.len();
    let mut i: usize = 0;
    assert(w.skip(0) =~= w);
    assert(w.take(0) + named_insert(w.skip(0), name@) =~= named_insert(w, name@));
    while i < n
        invariant
            n == v@.len(),
            i <= n,
            v@ == old(v)@,
            w == entity_views(v@),
            named_insert(w, name@) == w.take(i as int) + named_insert(w.skip(i as int), name@),
        decreases n - i,
    {
        let nm = chars_of(v[i].name.as_str());
        let ghost rest_w = w.skip(i as int);
        assert(rest_w[0] == w[i as int]);
        assert(w[i as int].0 == nm@);
        if crate::text::seq_eq(nm.as_slice(), name) {
            assert(named_insert(rest_w, name@) == rest_w);
            assert(w.take(i as int) + rest_w =~= w);
            return;
        }
        if lex_less_of(name, nm.as_slice()) {
            assert(named_insert(rest_w, name@) == seq![(name@, Seq::<Seq<char>>::empty())] + rest_w);
            v.insert(i, ErEntity { name: string_of(name), attributes: Vec::new() });
            assert(str_views(Seq::<String>::empty()) =~= Seq::<Seq<char>>::empty());
            assert(entity_views(v@) =~= w.take(i as int) + named_insert(rest_w, name@));
            return;
        }
        assert(rest_w.drop_first() =~= w.skip(i + 1));
        assert(w.take(i + 1) =~= w.take(i as int).push(w[i as int]));
        assert(w.take(i as int) + named_insert(rest_w, name@) =~= w.take(i + 1) + named_insert(
            w.skip(i + 1),
            name@,
        ));
        i += 1;
    }
    assert(w.skip(n as int) =~= Seq::<(Seq<char>, Seq<Seq<char>>)>::empty());
    v.push(ErEntity { name: string_of(name), attributes: Vec::new() });
    assert(str_views(Seq::<String>::empty()) =~= Seq::<Seq<char>>::empty());
    assert(entity_views(v@) =~= w.take(n as int) + named_insert(w.skip(n as int), name@));
}

fn add_attribute(v: &mut Vec<ErEntity>, name: &[char], line: &[char])
    ensures
        entity_views(final(v)@) == add_line(entity_views(old(v)@), name@, line@),
{
    let ghost w = entity_views(v@);
    let n = v.len();
    for j in 0..n
        invariant
            n == v@.len(),
            w.len() == n,
            w == entity_views(old(v)@),
            entity_views(v@).len() == n,
            forall|k: int| 0 <= k < j ==> entity_views(v@)[k] == add_line(w, name@, line@)[k],
            forall|k: int| j <= k < n ==> entity_views(v@)[k] == w[k],
    {
        let ghost vb = v@;
        if same(&v[j].name, name) {
            let mut c = v.remove(j);
            let ghost before = c.attributes@;
            c.attributes.push(string_of(line));
            assert(str_views(c.attributes@) =~= str_views(before).push(line@));
            v.insert(j, c);
            assert(v@ =~= vb.update(j as int, c));
        }
        assert(forall|k: int| 0 <= k < n && k != j ==> v@[k] == vb[k]);
        assert forall|k: int| 0 <= k < j + 1 implies entity_views(v@)[k] == add_line(w, name@, line@)[k] by {
            if k < j {
                assert(v@[k] == vb[k]);
                assert(entity_views(vb)[k] == add_line(w, name@, line@)[k]);
            }
        }
        assert forall|k: int| j + 1 <= k < n implies entity_views(v@)[k] == w[k] by {
            assert(v@[k] == vb[k]);
            assert(entity_views(vb)[k] == w[k]);
        }
        assert(entity_views(v@)[j as int] == add_line(w, name@, line@)[j as int]);
    }
    assert(entity_views(v@) =~= add_line(w, name@, line@));
}


fn trim_char_of(s: &[char], c: char) -> (r: Vec<char>)
    ensures
        r@ == trim_char(s@, c),
{
    let mut a: usize = 0;
    let mut b: usize = s.len();
    assert(s@.subrange(0, s@.len() as int) =~= s@);
    while a < b && (s[a] == c || s[b - 1] == c)
        invariant
            a <= b <= s@.len(),
            trim_char(s@, c) == trim_char(s@.subrange(a as int, b as int), c),
        decreases b - a,
    {
        let ghost cur = s@.subrange(a as int, b as int);
        if s[a] == c {
            assert(cur[0] == s@[a as int]);
            assert(cur.drop_first() =~= s@.subrange(a + 1, b as int));
            a += 1;
        } else {
            assert(cur[0] == s@[a as int]);
            assert(cur.last() == s@[b - 1]);
            assert(cur.drop_last() =~= s@.subrange(a as int, b - 1));
            b -= 1;
        }
    }
    let r = slice_of(s, a, b);
    r
}

fn has_char_of(s: &[char], c: char) -> (r: bool)
    ensures
        r == has_char(s@, c),
{
    let n = s.len();
    for i in 0..n
        invariant
            n == s@.len(),
            forall|j: int| 0 <= j < i ==> s@[j] != c,
    {
        if s[i] == c {
            assert(s@[i as int] == c);
            return true;
        }
    }
    false
}

/// Parses an entity-relationship diagram: its entities in name order, each
/// with its attributes, and its relationships in order. A line of one word
/// outside an entity body is refused with an error.
pub fn parse_er_diagram(input: &str) -> (r: Result<ErDiagram, String>)
    ensures
        match r {
            Ok(d) => er_spec(input@) == Ok::<
                (
                    Seq<(Seq<char>, Seq<Seq<char>>)>,
                    Seq<(Seq<char>, Seq<char>, Seq<char>, Seq<char>, Seq<char>)>,
                ),
                Seq<char>,
            >((entity_views(d.entities@), er_relationship_views(d.relationships@))),
            Err(e) => er_spec(input@) == Err::<
                (
                    Seq<(Seq<char>, Seq<Seq<char>>)>,
                    Seq<(Seq<char>, Seq<char>, Seq<char>, Seq<char>, Seq<char>)>,
                ),
                Seq<char>,
            >(e@),
        },
{
    let src = chars_of(input);
    let ls = lines_of(src.as_slice());
    let mut entities: Vec<ErEntity> = Vec::new();
    let mut rels: Vec<ErRelationship> = Vec::new();
    let mut current: Option<Vec<char>> = None;
    let n = ls.len();
    assert(entity_views(entities@) =~= Seq::<(Seq<char>, Seq<Seq<char>>)>::empty());
    assert(er_relationship_views(rels@) =~= Seq::<
        (Seq<char>, Seq<char>, Seq<char>, Seq<char>, Seq<char>),
    >::empty());
    assert(views(ls@).take(0) =~= Seq::<Seq<char>>::empty());
    for i in 0..n
        invariant
            n == ls@.len(),
            views(ls@) == lines(src@),
            src@ == input@,
            er_fold(views(ls@).take(i as int)) == (ErView {
                entities: entity_views(entities@),
                relationships: er_relationship_views(rels@),
                current: crate::diagrams::vopt(current),
                stuck: false,
            }),
    {
        assert(views(ls@).take(i + 1).drop_last() =~= views(ls@).take(i as int));
        assert(views(ls@).take(i + 1).last() == ls@[i as int]@);
        let line_v = trim_of(ls[i].as_slice());
        let line = line_v.as_slice();
        if line.len() == 0 || starts_with_str(line, "erDiagram") {
        } else {
            match &current {
                Some(name) => {
                    if crate::text::eq_str(line, "}") {
                        current = None;
                    } else {
                        add_attribute(&mut entities, name.as_slice(), line);
                    }
                },
                None => {
                    if line[line.len() - 1] == '{' {
                        let body = slice_of(line, 0, line.len() - 1);
                        assert(body@ =~= line@.drop_last());
                        let name = trim_of(body.as_slice());
                        insert_entity(&mut entities, name.as_slice());
                        current = Some(name);
                    } else {
                        let parts = split_ws_of(line);
                        if parts.len() < 2 {
                            proof {
                                lemma_stuck_persists(views(ls@), i + 1);
                            }
                            return Err(String::from_str("ER diagram has a line of one word outside an entity"));
                        }
                        if parts.len() >= 4 && (has_char_of(parts[1].as_slice(), '}') || has_char_of(
                            parts[1].as_slice(),
                            '|',
                        ) || has_char_of(parts[1].as_slice(), 'o')) {
                            let rest = crate::text::skip_parts(&parts, 3);
                            let sp = chars_of(" ");
                            let joined = join_of(&rest, sp.as_slice());
                            let tc = trim_char_of(joined.as_slice(), ':');
                            let label = trim_of(tc.as_slice());
                            let (lc, rc): (Vec<char>, Vec<char>) = match split_once_of(
                                parts[1].as_slice(),
                                "--",
                            ) {
                                Some((l, r)) => (l, r),
                                None => (crate::text::copy_chars(parts[1].as_slice()), Vec::new()),
                            };
                            insert_entity(&mut entities, parts[0].as_slice());
                            insert_entity(&mut entities, parts[2].as_slice());
                            let ghost before = rels@;
                            let rel = ErRelationship {
                                left: string_of(parts[0].as_slice()),
                                left_cardinality: string_of(lc.as_slice()),
                                right_cardinality: string_of(rc.as_slice()),
                                right: string_of(parts[2].as_slice()),
                                label: string_of(label.as_slice()),
                            };
                            rels.push(rel);
                            assert(er_relationship_views(rels@) =~= er_relationship_views(before).push(
                                (parts@[0]@, lc@, rc@, parts@[2]@, label@),
                            ));
                        }
                    }
                },
            }
        }
    }
    assert(views(ls@).take(n as int) =~= views(ls@));
    if entities.len() == 0 {
        Err(String::from_str("ER diagram has no entities"))
    } else {
        Ok(ErDiagram { entities, relationships: rels })
    }
}

/// Once stuck, the reading stays stuck.
proof fn lemma_stuck_persists(ls: Seq<Seq<char>>, k: int)
    requires
        0 <= k <= ls.len(),
    ensures
        er_fold(ls.take(k)).stuck ==> er_fold(ls).stuck,
    decreases ls.len() - k,
{
    if k < ls.len() {
        lemma_stuck_persists(ls, k + 1);
        assert(ls.take(k + 1).drop_last() =~= ls.take(k));
    } else {
        assert(ls.take(k) =~= ls);
    }
}


// ── Laws ─────────────────────────────────────────────────────────────────────

/// Outside an entity body, a line of at least four words whose second word
/// is a cardinality `L--R` (holding `|`, `}` or `o`) relates the entity
/// named by its first word, on the left with cardinality `L`, to the one
/// named by its third word, on the right with cardinality `R`, and the
/// relationship is added after those already read.
pub proof fn law_er_relationship_line(st: ErView, raw: Seq<char>, lc: Seq<char>, rc: Seq<char>)
    requires
        !st.stuck,
        st.current is None,
        !starts_with(trim(raw), "erDiagram"@),
        trim(raw).len() > 0,
        trim(raw).last() != '{',
        split_ws(trim(raw)).len() >= 4,
        split_ws(trim(raw))[1] == lc + "--"@ + rc,
        forall|i: int| 0 <= i < lc.len() ==> lc[i] != '-',
        has_char(split_ws(trim(raw))[1], '|') || has_char(split_ws(trim(raw))[1], '}') || has_char(
            split_ws(trim(raw))[1],
            'o',
        ),
    ensures
        ({
            let parts = split_ws(trim(raw));
            let r = er_step(st, raw).relationships;
            &&& r.len() == st.relationships.len() + 1
            &&& r.drop_last() == st.relationships
            &&& r.last().0 == parts[0]
            &&& r.last().1 == lc
            &&& r.last().2 == rc
            &&& r.last().3 == parts[2]
            &&& er_step(st, raw).current is None
        }),
{
    reveal_strlit("--");
    lemma_split_at_first(lc, "--"@, rc);
    assert(er_step(st, raw).relationships.drop_last() =~= st.relationships);
}

} // verus!
