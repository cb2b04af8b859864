//! Parsing of Mermaid sequence diagrams.

use vstd::prelude::*;
use crate::text::{
    append, append_str, chars_of, find, lemma_find_bounds, lemma_find_none, occurs_at, lemma_split_at_first, lines, lines_of, split_char, split_char_of, split_once,
    split_once_of, starts_with, starts_with_str, string_of, strings_of, trim, trim_of, views,
};

verus! {

pub struct SequenceParticipant {
    pub id: String,
    pub label: String,
}

pub enum SequenceRow {
    Message { from: String, to: String, label: String },
    Note { over: Vec<String>, label: String },
    Activate(String),
    Deactivate(String),
    Control(String),
}

pub struct SequenceDiagram {
    pub participants: Vec<SequenceParticipant>,
    pub rows: Vec<SequenceRow>,
}

pub ghost enum RowView {
    Message(Seq<char>, Seq<char>, Seq<char>),
    Note(Seq<Seq<char>>, Seq<char>),
    Activate(Seq<char>),
    Deactivate(Seq<char>),
    Control(Seq<char>),
}

pub open spec fn str_views(v: Seq<String>) -> Seq<Seq<char>> {
    v.map_values(|s: String| s@)
}

pub open spec fn row_view(r: SequenceRow) -> RowView {
    match r {
        SequenceRow::Message { from, to, label } => RowView::Message(from@, to@, label@),
        SequenceRow::Note { over, label } => RowView::Note(str_views(over@), label@),
        SequenceRow::Activate(p) => RowView::Activate(p@),
        SequenceRow::Deactivate(p) => RowView::Deactivate(p@),
        SequenceRow::Control(c) => RowView::Control(c@),
    }
}

pub open spec fn row_views(v: Seq<SequenceRow>) -> Seq<RowView> {
    v.map_values(|r: SequenceRow| row_view(r))
}

pub open spec fn participant_views(v: Seq<SequenceParticipant>) -> Seq<(Seq<char>, Seq<char>)> {
    v.map_values(|p: SequenceParticipant| (p.id@, p.label@))
}

impl SequenceDiagram {
    /// The position of the participant `id`.
    pub fn index_of(&self, id: &str) -> (r: Option<usize>)
        ensures
            match r {
                Some(i) => i < self.participants@.len() && self.participants@[i as int].id@ == id@
                    && forall|j: int| 0 <= j < i ==> (#[trigger] self.participants@[j]).id@ != id@,
                None => forall|j: int|
                    0 <= j < self.participants@.len() ==> (#[trigger] self.participants@[j]).id@ != id@,
            },
    {
        let target = chars_of(id);
        let n = self.participants.len();
        for i in 0..n
            invariant
                n == self.participants@.len(),
                target@ == id@,
                forall|j: int| 0 <= j < i ==> (#[trigger] self.participants@[j]).id@ != id@,
        {
            let p = chars_of(self.participants[i].id.as_str());
            if crate::text::seq_eq(p.as_slice(), target.as_slice()) {
                return Some(i);
            }
        }
        None
    }
}

/// The text after the prefix `p`.
pub open spec fn after(line: Seq<char>, p: Seq<char>) -> Seq<char> {
    line.skip(p.len() as int)
}

/// The label of a block-control line (`loop`, `alt`, `else`, `par`, `and`,
/// `critical`, `option`, `break`, `rect`).
pub open spec fn control_row(line: Seq<char>) -> Option<Seq<char>> {
    if starts_with(line, "loop "@) {
        Some("Loop: "@ + trim(after(line, "loop "@)))
    } else if starts_with(line, "alt "@) {
        Some("Alt: "@ + trim(after(line, "alt "@)))
    } else if starts_with(line, "else "@) {
        Some("Else: "@ + trim(after(line, "else "@)))
    } else if starts_with(line, "par "@) {
        Some("Par: "@ + trim(after(line, "par "@)))
    } else if starts_with(line, "and "@) {
        Some("And: "@ + trim(after(line, "and "@)))
    } else if starts_with(line, "critical "@) {
        Some("Critical: "@ + trim(after(line, "critical "@)))
    } else if starts_with(line, "option "@) {
        Some("Option: "@ + trim(after(line, "option "@)))
    } else if starts_with(line, "break "@) {
        Some("Break: "@ + trim(after(line, "break "@)))
    } else if starts_with(line, "rect "@) {
        Some("Rect: "@ + trim(after(line, "rect "@)))
    } else {
        None
    }
}

/// The first message arrow that occurs in `lhs`, longest forms first.
pub open spec fn message_arrow(lhs: Seq<char>) -> Option<Seq<char>> {
    if find(lhs, "-->>"@) is Some {
        Some("-->>"@)
    } else if find(lhs, "->>"@) is Some {
        Some("->>"@)
    } else if find(lhs, "-->"@) is Some {
        Some("-->"@)
    } else if find(lhs, "->"@) is Some {
        Some("->"@)
    } else {
        None
    }
}

/// The message a line `from ARROW to: label` describes.
pub open spec fn message_row(line: Seq<char>) -> Option<RowView> {
    match split_once(line, ":"@) {
        Some((lhs, label)) => match message_arrow(lhs) {
            Some(arrow) => match split_once(lhs, arrow) {
                Some((from, to)) => Some(RowView::Message(trim(from), trim(to), trim(label))),
                None => None,
            },
            None => None,
        },
        None => None,
    }
}

pub ghost struct SeqState {
    pub participants: Seq<(Seq<char>, Seq<char>)>,
    pub rows: Seq<RowView>,
}

/// The effect of one source line on the diagram read so far.
pub open spec fn seq_step(st: SeqState, raw: Seq<char>) -> SeqState {
    let line = trim(raw);
    if line.len() == 0 || line == "sequenceDiagram"@ {
        st
    } else if starts_with(line, "participant "@) {
        let rest = after(line, "participant "@);
        match split_once(rest, " as "@) {
            Some((id, label)) => SeqState {
                participants: st.participants.push((trim(id), trim(label))),
                ..st
            },
            None => SeqState { participants: st.participants.push((trim(rest), trim(rest))), ..st },
        }
    } else if starts_with(line, "Note over "@) {
        match split_once(after(line, "Note over "@), ":"@) {
            Some((actors, label)) => SeqState {
                rows: st.rows.push(
                    RowView::Note(split_char(actors, ',').map_values(|a: Seq<char>| trim(a)), trim(label)),
                ),
                ..st
            },
            None => st,
        }
    } else if control_row(line) is Some {
        SeqState { rows: st.rows.push(RowView::Control(control_row(line).unwrap())), ..st }
    } else if starts_with(line, "activate "@) {
        SeqState { rows: st.rows.push(RowView::Activate(trim(after(line, "activate "@)))), ..st }
    } else if starts_with(line, "deactivate "@) {
        SeqState { rows: st.rows.push(RowView::Deactivate(trim(after(line, "deactivate "@)))), ..st }
    } else if line == "end"@ {
        SeqState { rows: st.rows.push(RowView::Control("End"@)), ..st }
    } else {
        match message_row(line) {
            Some(m) => SeqState { rows: st.rows.push(m), ..st },
            None => st,
        }
    }
}

pub open spec fn seq_state(ls: Seq<Seq<char>>) -> SeqState
    decreases ls.len(),
{
    if ls.len() == 0 {
        SeqState { participants: seq![], rows: seq![] }
    } else {
        seq_step(seq_state(ls.drop_last()), ls.last())
    }
}

/// The participants and rows of a sequence diagram, or the error when it
/// declares no participant.
pub open spec fn sequence_spec(input: Seq<char>) -> Result<SeqState, Seq<char>> {
    let st = seq_state(lines(input));
    if st.participants.len() == 0 {
        Err("Sequence diagram has no participants"@)
    } else {
        Ok(st)
    }
}

fn after_of(line: &[char], p: &str) -> (r: Vec<char>)
    requires
        starts_with(line@, p@),
    ensures
        r@ == after(line@, p@),
{
    let pv = chars_of(p);
    let r = crate::text::slice_of(line, pv.len(), line.len());
    assert(r@ =~= after(line@, p@));
    r
}

fn labelled(label: &str, line: &[char], p: &str) -> (r: Vec<char>)
    requires
        starts_with(line@, p@),
    ensures
        r@ == label@ + trim(after(line@, p@)),
{
    let rest = after_of(line, p);
    let t = trim_of(rest.as_slice());
    let mut out = chars_of(label);
    append(&mut out, t.as_slice());
    out
}

fn control_row_of(line: &[char]) -> (r: Option<Vec<char>>)
    ensures
        match r {
            Some(v) => control_row(line@) == Some(v@),
            None => control_row(line@) is None,
        },
{
    if starts_with_str(line, "loop ") {
        Some(labelled("Loop: ", line, "loop "))
    } else if starts_with_str(line, "alt ") {
        Some(labelled("Alt: ", line, "alt "))
    } else if starts_with_str(line, "else ") {
        Some(labelled("Else: ", line, "else "))
    } else if starts_with_str(line, "par ") {
        Some(labelled("Par: ", line, "par "))
    } else if starts_with_str(line, "and ") {
        Some(labelled("And: ", line, "and "))
    } else if starts_with_str(line, "critical ") {
        Some(labelled("Critical: ", line, "critical "))
    } else if starts_with_str(line, "option ") {
        Some(labelled("Option: ", line, "option "))
    } else if starts_with_str(line, "break ") {
        Some(labelled("Break: ", line, "break "))
    } else if starts_with_str(line, "rect ") {
        Some(labelled("Rect: ", line, "rect "))
    } else {
        None
    }
}

fn message_arrow_of(lhs: &[char]) -> (r: Option<&'static str>)
    ensures
        match r {
            Some(a) => message_arrow(lhs@) == Some(a@),
            None => message_arrow(lhs@) is None,
        },
{
    if crate::text::contains_str(lhs, "-->>") {
        Some("-->>")
    } else if crate::text::contains_str(lhs, "->>") {
        Some("->>")
    } else if crate::text::contains_str(lhs, "-->") {
        Some("-->")
    } else if crate::text::contains_str(lhs, "->") {
        Some("->")
    } else {
        None
    }
}

fn message_row_of(line: &[char]) -> (r: Option<SequenceRow>)
    ensures
        match r {
            Some(m) => message_row(line@) == Some(row_view(m)),
            None => message_row(line@) is None,
        },
{
    match split_once_of(line, ":") {
        Some((lhs, label)) => match message_arrow_of(lhs.as_slice()) {
            Some(arrow) => match split_once_of(lhs.as_slice(), arrow) {
                Some((from, to)) => Some(
                    SequenceRow::Message {
                        from: string_of(trim_of(from.as_slice()).as_slice()),
                        to: string_of(trim_of(to.as_slice()).as_slice()),
                        label: string_of(trim_of(label.as_slice()).as_slice()),
                    },
                ),
                None => None,
            },
            None => None,
        },
        None => None,
    }
}

fn trimmed_strings(parts: &Vec<Vec<char>>) -> (r: Vec<String>)
    ensures
        str_views(r@) == views(parts@).map_values(|a: Seq<char>| trim(a)),
{
    let mut r: Vec<String> = Vec::new();
    let n = parts.len();
    for i in 0..n
        invariant
            n == parts@.len(),
            str_views(r@) == views(parts@).map_values(|a: Seq<char>| trim(a)).take(i as int),
    {
        let t = trim_of(parts[i].as_slice());
        let ghost before = r@;
        r.push(string_of(t.as_slice()));
        assert(str_views(r@) =~= str_views(before).push(t@));
        assert(views(parts@).map_values(|a: Seq<char>| trim(a)).take(i + 1) =~= views(parts@).map_values(
            |a: Seq<char>| trim(a),
        ).take(i as int).push(trim(parts@[i as int]@)));
    }
    assert(views(parts@).map_values(|a: Seq<char>| trim(a)).take(n as int) =~= views(parts@).map_values(
        |a: Seq<char>| trim(a),
    ));
    r
}

fn push_row(rows: &mut Vec<SequenceRow>, row: SequenceRow)
    ensures
        row_views(final(rows)@) == row_views(old(rows)@).push(row_view(row)),
{
    let ghost before = rows@;
    rows.push(row);
    assert(row_views(rows@) =~= row_views(before).push(row_view(row)));
}

fn push_participant(ps: &mut Vec<SequenceParticipant>, id: &[char], label: &[char])
    ensures
        participant_views(final(ps)@) == participant_views(old(ps)@).push((id@, label@)),
{
    let ghost before = ps@;
    ps.push(SequenceParticipant { id: string_of(id), label: string_of(label) });
    assert(participant_views(ps@) =~= participant_views(before).push((id@, label@)));
}

/// Parses a sequence diagram: its participants and, in order, its messages,
/// notes, activations and block-control rows.
pub fn parse_sequence_diagram(input: &str) -> (r: Result<SequenceDiagram, String>)
    ensures
        match r {
            Ok(d) => sequence_spec(input@) == Ok::<SeqState, Seq<char>>(
                SeqState {
                    participants: participant_views(d.participants@),
                    rows: row_views(d.rows@),
                },
            ),
            Err(e) => sequence_spec(input@) == Err::<SeqState, Seq<char>>(e@),
        },
{
    let src = chars_of(input);
    let ls = lines_of(src.as_slice());
    let mut participants: Vec<SequenceParticipant> = Vec::new();
    let mut rows: Vec<SequenceRow> = Vec::new();
    let n = ls.len();
    assert(participant_views(participants@) =~= Seq::<(Seq<char>, Seq<char>)>::empty());
    assert(row_views(rows@) =~= Seq::<RowView>::empty());
    assert(views(ls@).take(0) =~= Seq::<Seq<char>>::empty());
    for i in 0..n
        invariant
            n == ls@.len(),
            views(ls@) == lines(src@),
            src@ == input@,
            seq_state(views(ls@).take(i as int)) == (SeqState {
                participants: participant_views(participants@),
                rows: row_views(rows@),
            }),
    {
        assert(views(ls@).take(i + 1).drop_last() =~= views(ls@).take(i as int));
        assert(views(ls@).take(i + 1).last() == ls@[i as int]@);
        let line_v = trim_of(ls[i].as_slice());
        let line = line_v.as_slice();
        if line.len() == 0 || crate::text::eq_str(line, "sequenceDiagram") {
        } else if starts_with_str(line, "participant ") {
            let rest = after_of(line, "participant ");
            match split_once_of(rest.as_slice(), " as ") {
                Some((id, label)) => {
                    let a = trim_of(id.as_slice());
                    let b = trim_of(label.as_slice());
                    push_participant(&mut participants, a.as_slice(), b.as_slice());
                },
                None => {
                    let a = trim_of(rest.as_slice());
                    push_participant(&mut participants, a.as_slice(), a.as_slice());
                },
            }
        } else if starts_with_str(line, "Note over ") {
            let rest = after_of(line, "Note over ");
            match split_once_of(rest.as_slice(), ":") {
                Some((actors, label)) => {
                    let parts = split_char_of(actors.as_slice(), ',');
                    let over = trimmed_strings(&parts);
                    let l = trim_of(label.as_slice());
                    push_row(&mut rows, SequenceRow::Note { over, label: string_of(l.as_slice()) });
                },
                None => {},
            }
        } else {
            match control_row_of(line) {
                Some(c) => {
                    push_row(&mut rows, SequenceRow::Control(string_of(c.as_slice())));
                },
                None => {
                    if starts_with_str(line, "activate ") {
                        let rest = after_of(line, "activate ");
                        let t = trim_of(rest.as_slice());
                        push_row(&mut rows, SequenceRow::Activate(string_of(t.as_slice())));
                    } else if starts_with_str(line, "deactivate ") {
                        let rest = after_of(line, "deactivate ");
                        let t = trim_of(rest.as_slice());
                        push_row(&mut rows, SequenceRow::Deactivate(string_of(t.as_slice())));
                    } else if crate::text::eq_str(line, "end") {
                        push_row(&mut rows, SequenceRow::Control(String::from_str("End")));
                    } else {
                        match message_row_of(line) {
                            Some(m) => push_row(&mut rows, m),
                            None => {},
                        }
                    }
                },
            }
        }
    }
    assert(views(ls@).take(n as int) =~= views(ls@));
    if participants.len() == 0 {
        Err(String::from_str("Sequence diagram has no participants"))
    } else {
        Ok(SequenceDiagram { participants, rows })
    }
}

// ── Activation bars ──────────────────────────────────────────────────────────

/// An activation bar: its participant, the rows it spans and how many
/// bars of the same participant it sits on.
pub struct SequenceActivation {
    pub participant: String,
    pub start_row: usize,
    pub end_row: usize,
    pub depth: usize,
}

pub open spec fn activation_views(v: Seq<SequenceActivation>) -> Seq<(Seq<char>, int, int, int)> {
    v.map_values(|a: SequenceActivation| (a.participant@, a.start_row as int, a.end_row as int, a.depth as int))
}

/// The bars still open: each participant that has been activated, in the
/// order of its first activation, with its open bars (start row and depth),
/// innermost last.
pub type OpenBars = Seq<(Seq<char>, Seq<(int, int)>)>;

/// The position of `p` among the participants with bars.
pub open spec fn bar_index(bars: OpenBars, p: Seq<char>) -> Option<int>
    decreases bars.len(),
{
    if bars.len() == 0 {
        None
    } else {
        match bar_index(bars.drop_last(), p) {
            Some(k) => Some(k),
            None => if bars.last().0 == p {
                Some(bars.len() - 1)
            } else {
                None
            },
        }
    }
}

/// The bars closed so far and the bars still open after the first `k` rows.
pub open spec fn activation_walk(rows: Seq<RowView>, k: int) -> (Seq<(Seq<char>, int, int, int)>, OpenBars)
    decreases k,
{
    if k <= 0 {
        (seq![], seq![])
    } else {
        let (closed, bars) = activation_walk(rows, k - 1);
        let r = k - 1;
        match rows[r] {
            RowView::Activate(p) => match bar_index(bars, p) {
                Some(i) => (closed, bars.update(i, (p, bars[i].1.push((r, bars[i].1.len() as int))))),
                None => (closed, bars.push((p, seq![(r, 0int)]))),
            },
            RowView::Deactivate(p) => match bar_index(bars, p) {
                Some(i) => if bars[i].1.len() > 0 {
                    let (start, depth) = bars[i].1.last();
                    (
                        closed.push((p, start, if r > start + 1 { r } else { start + 1 }, depth)),
                        bars.update(i, (p, bars[i].1.drop_last())),
                    )
                } else {
                    (closed, bars)
                },
                None => (closed, bars),
            },
            _ => (closed, bars),
        }
    }
}

/// The bars left open at the end, each drawn to the last row.
pub open spec fn open_bars(bars: OpenBars, n: int) -> Seq<(Seq<char>, int, int, int)>
    decreases bars.len(),
{
    if bars.len() == 0 {
        seq![]
    } else {
        let (p, stack) = bars.last();
        open_bars(bars.drop_last(), n) + stack.map_values(
            |b: (int, int)| (p, b.0, if n > b.0 + 1 { n } else { b.0 + 1 }, b.1),
        )
    }
}

/// The activation bars of a diagram: those closed by a `deactivate`, in the
/// order they close (ending at that row, and at least one row long), then
/// those never closed, participant by participant in the order of their
/// first activation, each drawn to the end of the diagram.
pub open spec fn activations_spec(rows: Seq<RowView>) -> Seq<(Seq<char>, int, int, int)> {
    let (closed, bars) = activation_walk(rows, rows.len() as int);
    closed + open_bars(bars, rows.len() as int)
}

spec fn bar_views(v: Seq<(Vec<char>, Vec<(usize, usize)>)>) -> OpenBars {
    v.map_values(
        |b: (Vec<char>, Vec<(usize, usize)>)|
            (b.0@, b.1@.map_values(|x: (usize, usize)| (x.0 as int, x.1 as int))),
    )
}

proof fn lemma_bar_index(bars: OpenBars, p: Seq<char>)
    ensures
        match bar_index(bars, p) {
            Some(k) => 0 <= k < bars.len() && bars[k].0 == p && forall|j: int| 0 <= j < k ==> bars[j].0 != p,
            None => forall|j: int| 0 <= j < bars.len() ==> bars[j].0 != p,
        },
    decreases bars.len(),
{
    if bars.len() > 0 {
        lemma_bar_index(bars.drop_last(), p);
        assert forall|j: int| 0 <= j < bars.len() - 1 implies bars[j] == bars.drop_last()[j] by {}
    }
}

fn find_bar(bars: &Vec<(Vec<char>, Vec<(usize, usize)>)>, p: &[char]) -> (r: Option<usize>)
    ensures
        match r {
            Some(k) => k < bars@.len() && bar_index(bar_views(bars@), p@) == Some(k as int),
            None => bar_index(bar_views(bars@), p@) is None,
        },
{
    let ghost bv = bar_views(bars@);
    proof {
        lemma_bar_index(bv, p@);
    }
    let n = bars.len();
    for i in 0..n
        invariant
            n == bars@.len(),
            bv == bar_views(bars@),
            forall|j: int| 0 <= j < i ==> bv[j].0 != p@,
    {
        assert(bv[i as int].0 == bars@[i as int].0@);
        if crate::text::seq_eq(bars[i].0.as_slice(), p) {
            proof {
                lemma_bar_index(bv, p@);
                assert(bv[i as int].0 == p@);
                let bi = bar_index(bv, p@);
                if bi is None {
                    assert(bv[i as int].0 != p@);
                } else {
                    let k = bi->0;
                    if k < i {
                        assert(bv[k].0 != p@);
                    } else if k > i {
                        assert(bv[i as int].0 != p@);
                    }
                }
            }
            return Some(i);
        }
    }
    None
}

/// The activation bars of a sequence diagram (see `activations_spec`).
pub fn compute_sequence_activations(seq: &SequenceDiagram) -> (r: Vec<SequenceActivation>)
    ensures
        activation_views(r@) == activations_spec(row_views(seq.rows@)),
{
    let ghost rv = row_views(seq.rows@);
    let mut closed: Vec<SequenceActivation> = Vec::new();
    let mut bars: Vec<(Vec<char>, Vec<(usize, usize)>)> = Vec::new();
    let n = seq.rows.len();
    for r in 0..n
        invariant
            n == seq.rows@.len(),
            rv == row_views(seq.rows@),
            (activation_views(closed@), bar_views(bars@)) == activation_walk(rv, r as int),
            forall|j: int, t: int|
                0 <= j < bars@.len() && 0 <= t < bars@[j].1@.len() ==> #[trigger] bars@[j].1@[t].0 < r,
    {
        let ghost c0 = activation_views(closed@);
        let ghost b0 = bar_views(bars@);
        assert(rv[r as int] == row_view(seq.rows@[r as int]));
        match &seq.rows[r] {
            SequenceRow::Activate(p) => {
                let pv = chars_of(p.as_str());
                match find_bar(&bars, pv.as_slice()) {
                    Some(i) => {
                        let ghost bars0 = bars@;
                        let mut entry = (Vec::new(), Vec::new());
                        std::mem::swap(&mut entry, &mut bars[i]);
                        let ghost old_entry = entry;
                        let d = entry.1.len();
                        entry.1.push((r, d));
                        let ghost e1 = entry;
                        bars.set(i, entry);
                        proof {
                            lemma_bar_index(b0, pv@);
                            assert(old_entry == bars0[i as int]);
                            assert forall|j: int, t: int|
                                0 <= j < bars@.len() && 0 <= t < bars@[j].1@.len() implies #[trigger] bars@[j].1@[t].0 < r + 1 by {
                                if j != i {
                                    assert(bars@[j] == bars0[j]);
                                } else if t < old_entry.1@.len() {
                                    assert(bars@[j].1@[t] == bars0[j].1@[t]);
                                }
                            }
                            assert(e1.0@ == b0[i as int].0);
                            assert(e1.1@.map_values(|x: (usize, usize)| (x.0 as int, x.1 as int))
                                =~= b0[i as int].1.push((r as int, b0[i as int].1.len() as int)));
                            assert(bar_views(bars@) =~= b0.update(
                                i as int,
                                (pv@, b0[i as int].1.push((r as int, b0[i as int].1.len() as int))),
                            ));
                        }
                    },
                    None => {
                        let ghost bars0 = bars@;
                        let mut stack: Vec<(usize, usize)> = Vec::new();
                        stack.push((r, 0));
                        bars.push((pv, stack));
                        proof {
                            assert forall|j: int, t: int|
                                0 <= j < bars@.len() && 0 <= t < bars@[j].1@.len() implies #[trigger] bars@[j].1@[t].0 < r + 1 by {
                                if j < bars0.len() {
                                    assert(bars@[j] == bars0[j]);
                                }
                            }
                            assert(stack@.map_values(|x: (usize, usize)| (x.0 as int, x.1 as int)) =~= seq![(r as int, 0int)]);
                            assert(bar_views(bars@) =~= b0.push((pv@, seq![(r as int, 0int)])));
                        }
                    },
                }
            },
            SequenceRow::Deactivate(p) => {
                let pv = chars_of(p.as_str());
                match find_bar(&bars, pv.as_slice()) {
                    Some(i) => {
                        if bars[i].1.len() > 0 {
                            let ghost bars0 = bars@;
                            let mut entry = (Vec::new(), Vec::new());
                            std::mem::swap(&mut entry, &mut bars[i]);
                            assert(entry == bars0[i as int]);
                            let ghost s0 = entry.1@;
                            let (start, depth) = entry.1.pop().unwrap();
                            let end = if r > start + 1 { r } else { start + 1 };
                            let ghost e1 = entry;
                            bars.set(i, entry);
                            closed.push(SequenceActivation { participant: string_of(pv.as_slice()), start_row: start, end_row: end, depth });
                            proof {
                                lemma_bar_index(b0, pv@);
                                assert(e1.1@ =~= s0.drop_last());
                                assert(e1.0@ == b0[i as int].0);
                                assert(e1.1@.map_values(|x: (usize, usize)| (x.0 as int, x.1 as int))
                                    =~= b0[i as int].1.drop_last());
                                assert(bar_views(bars@) =~= b0.update(i as int, (pv@, b0[i as int].1.drop_last())));
                                assert(activation_views(closed@) =~= c0.push((pv@, start as int, end as int, depth as int)));
                                assert forall|j: int, t: int|
                                    0 <= j < bars@.len() && 0 <= t < bars@[j].1@.len() implies #[trigger] bars@[j].1@[t].0 < r + 1 by {
                                    if j != i {
                                        assert(bars@[j] == bars0[j]);
                                    } else {
                                        assert(bars@[j].1@[t] == bars0[j].1@[t]);
                                    }
                                }
                            }
                        }
                    },
                    None => {},
                }
            },
            _ => {},
        }
    }
    let ghost cl = activation_views(closed@);
    let ghost bv = bar_views(bars@);
    let nb = bars.len();
    let mut out = closed;
    for b in 0..nb
        invariant
            nb == bars@.len(),
            n == seq.rows@.len(),
            bv == bar_views(bars@),
            activation_views(out@) == cl + open_bars(bv.take(b as int), n as int),
            forall|j: int, t: int|
                0 <= j < bars@.len() && 0 <= t < bars@[j].1@.len() ==> #[trigger] bars@[j].1@[t].0 < n,
    {
        let ghost o0 = activation_views(out@);
        let m = bars[b].1.len();
        let ghost st = bv[b as int].1;
        for q in 0..m
            invariant
                m == bars@[b as int].1@.len(),
                st == bv[b as int].1,
                bv == bar_views(bars@),
                b < nb == bars@.len(),
                forall|j: int, t: int|
                    0 <= j < bars@.len() && 0 <= t < bars@[j].1@.len() ==> #[trigger] bars@[j].1@[t].0 < n,
                activation_views(out@) == o0 + st.take(q as int).map_values(
                    |x: (int, int)| (bv[b as int].0, x.0, if n > x.0 + 1 { n as int } else { x.0 + 1 }, x.1),
                ),
        {
            let (start, depth) = bars[b].1[q];
            assert(bars@[b as int].1@[q as int].0 < n);
            let end = if n > start + 1 { n } else { start + 1 };
            let ghost out0 = out@;
            let pname = string_of(bars[b].0.as_slice());
            out.push(SequenceActivation { participant: pname, start_row: start, end_row: end, depth });
            proof {
                assert(st[q as int] == (start as int, depth as int));
                assert(bv[b as int].0 == pname@);
                assert(st.take(q + 1) =~= st.take(q as int).push(st[q as int]));
                assert(activation_views(out@) =~= activation_views(out0).push((pname@, start as int, end as int, depth as int)));
                assert(st.take(q + 1).map_values(
                    |x: (int, int)| (bv[b as int].0, x.0, if n > x.0 + 1 { n as int } else { x.0 + 1 }, x.1),
                ) =~= st.take(q as int).map_values(
                    |x: (int, int)| (bv[b as int].0, x.0, if n > x.0 + 1 { n as int } else { x.0 + 1 }, x.1),
                ).push((pname@, start as int, end as int, depth as int)));
            }
        }
        proof {
            assert(st.take(m as int) =~= st);
            assert(bv.take(b + 1).drop_last() =~= bv.take(b as int));
        }
    }
    proof {
        assert(bv.take(nb as int) =~= bv);
    }
    out
}

// ── Laws ─────────────────────────────────────────────────────────────────────

proof fn lemma_prefix_char(line: Seq<char>, p: Seq<char>, j: int)
    requires
        starts_with(line, p),
        0 <= j < p.len(),
    ensures
        line[j] == p[j],
{
    assert(line.take(p.len() as int)[j] == line[j]);
}

proof fn lemma_prefixes_clash(line: Seq<char>, p: Seq<char>, q: Seq<char>, j: int)
    requires
        starts_with(line, p),
        0 <= j < p.len(),
        j < q.len(),
        p[j] != q[j],
    ensures
        !starts_with(line, q),
{
    lemma_prefix_char(line, p, j);
    if starts_with(line, q) {
        lemma_prefix_char(line, q, j);
    }
}

/// A block-control line adds one control row and nothing else: a line that,
/// trimmed, starts with `loop `, `alt `, `else `, `par `, `and `,
/// `critical `, `option `, `break ` or `rect ` gives the row `Loop: `,
/// `Alt: `, `Else: `, `Par: `, `And: `, `Critical: `, `Option: `, `Break: `
/// or `Rect: ` followed by the trimmed rest of the line.
pub proof fn law_control_rows(st: SeqState, raw: Seq<char>)
    ensures
        starts_with(trim(raw), "loop "@) ==> seq_step(st, raw) == (SeqState {
            rows: st.rows.push(RowView::Control("Loop: "@ + trim(trim(raw).skip(5)))),
            participants: st.participants,
        }),
        starts_with(trim(raw), "alt "@) ==> seq_step(st, raw) == (SeqState {
            rows: st.rows.push(RowView::Control("Alt: "@ + trim(trim(raw).skip(4)))),
            participants: st.participants,
        }),
        starts_with(trim(raw), "else "@) ==> seq_step(st, raw) == (SeqState {
            rows: st.rows.push(RowView::Control("Else: "@ + trim(trim(raw).skip(5)))),
            participants: st.participants,
        }),
        starts_with(trim(raw), "par "@) ==> seq_step(st, raw) == (SeqState {
            rows: st.rows.push(RowView::Control("Par: "@ + trim(trim(raw).skip(4)))),
            participants: st.participants,
        }),
        starts_with(trim(raw), "and "@) ==> seq_step(st, raw) == (SeqState {
            rows: st.rows.push(RowView::Control("And: "@ + trim(trim(raw).skip(4)))),
            participants: st.participants,
        }),
        starts_with(trim(raw), "critical "@) ==> seq_step(st, raw) == (SeqState {
            rows: st.rows.push(RowView::Control("Critical: "@ + trim(trim(raw).skip(9)))),
            participants: st.participants,
        }),
        starts_with(trim(raw), "option "@) ==> seq_step(st, raw) == (SeqState {
            rows: st.rows.push(RowView::Control("Option: "@ + trim(trim(raw).skip(7)))),
            participants: st.participants,
        }),
        starts_with(trim(raw), "break "@) ==> seq_step(st, raw) == (SeqState {
            rows: st.rows.push(RowView::Control("Break: "@ + trim(trim(raw).skip(6)))),
            participants: st.participants,
        }),
        starts_with(trim(raw), "rect "@) ==> seq_step(st, raw) == (SeqState {
            rows: st.rows.push(RowView::Control("Rect: "@ + trim(trim(raw).skip(5)))),
            participants: st.participants,
        }),
{
    let line = trim(raw);
    reveal_strlit("Note over ");
    reveal_strlit("alt ");
    reveal_strlit("and ");
    reveal_strlit("break ");
    reveal_strlit("critical ");
    reveal_strlit("else ");
    reveal_strlit("loop ");
    reveal_strlit("option ");
    reveal_strlit("par ");
    reveal_strlit("participant ");
    reveal_strlit("rect ");
    reveal_strlit("sequenceDiagram");
    reveal_strlit("Loop: ");
    reveal_strlit("Alt: ");
    reveal_strlit("Else: ");
    reveal_strlit("Par: ");
    reveal_strlit("And: ");
    reveal_strlit("Critical: ");
    reveal_strlit("Option: ");
    reveal_strlit("Break: ");
    reveal_strlit("Rect: ");
    if starts_with(line, "loop "@) {
        assert(line[0] == "loop "@[0]) by { lemma_prefix_char(line, "loop "@, 0); }
        assert(line != "sequenceDiagram"@) by { if line == "sequenceDiagram"@ { assert("sequenceDiagram"@[0] != "loop "@[0]); } }
        lemma_prefixes_clash(line, "loop "@, "participant "@, 0);
        lemma_prefixes_clash(line, "loop "@, "Note over "@, 0);
        assert(control_row(line) == Some("Loop: "@ + trim(after(line, "loop "@))));
    }
    if starts_with(line, "alt "@) {
        assert(line[0] == "alt "@[0]) by { lemma_prefix_char(line, "alt "@, 0); }
        assert(line != "sequenceDiagram"@) by { if line == "sequenceDiagram"@ { assert("sequenceDiagram"@[0] != "alt "@[0]); } }
        lemma_prefixes_clash(line, "alt "@, "participant "@, 0);
        lemma_prefixes_clash(line, "alt "@, "Note over "@, 0);
        lemma_prefixes_clash(line, "alt "@, "loop "@, 0);
        assert(control_row(line) == Some("Alt: "@ + trim(after(line, "alt "@))));
    }
    if starts_with(line, "else "@) {
        assert(line[0] == "else "@[0]) by { lemma_prefix_char(line, "else "@, 0); }
        assert(line != "sequenceDiagram"@) by { if line == "sequenceDiagram"@ { assert("sequenceDiagram"@[0] != "else "@[0]); } }
        lemma_prefixes_clash(line, "else "@, "participant "@, 0);
        lemma_prefixes_clash(line, "else "@, "Note over "@, 0);
        lemma_prefixes_clash(line, "else "@, "loop "@, 0);
        lemma_prefixes_clash(line, "else "@, "alt "@, 0);
        assert(control_row(line) == Some("Else: "@ + trim(after(line, "else "@))));
    }
    if starts_with(line, "par "@) {
        assert(line[0] == "par "@[0]) by { lemma_prefix_char(line, "par "@, 0); }
        assert(line != "sequenceDiagram"@) by { if line == "sequenceDiagram"@ { assert("sequenceDiagram"@[0] != "par "@[0]); } }
        lemma_prefixes_clash(line, "par "@, "participant "@, 3);
        lemma_prefixes_clash(line, "par "@, "Note over "@, 0);
        lemma_prefixes_clash(line, "par "@, "loop "@, 0);
        lemma_prefixes_clash(line, "par "@, "alt "@, 0);
        lemma_prefixes_clash(line, "par "@, "else "@, 0);
        assert(control_row(line) == Some("Par: "@ + trim(after(line, "par "@))));
    }
    if starts_with(line, "and "@) {
        assert(line[0] == "and "@[0]) by { lemma_prefix_char(line, "and "@, 0); }
        assert(line != "sequenceDiagram"@) by { if line == "sequenceDiagram"@ { assert("sequenceDiagram"@[0] != "and "@[0]); } }
        lemma_prefixes_clash(line, "and "@, "participant "@, 0);
        lemma_prefixes_clash(line, "and "@, "Note over "@, 0);
        lemma_prefixes_clash(line, "and "@, "loop "@, 0);
        assert("and "@[1] != "alt "@[1]);
        lemma_prefixes_clash(line, "and "@, "alt "@, 1);
        lemma_prefixes_clash(line, "and "@, "else "@, 0);
        lemma_prefixes_clash(line, "and "@, "par "@, 0);
        assert(control_row(line) == Some("And: "@ + trim(after(line, "and "@))));
    }
    if starts_with(line, "critical "@) {
        assert(line[0] == "critical "@[0]) by { lemma_prefix_char(line, "critical "@, 0); }
        assert(line != "sequenceDiagram"@) by { if line == "sequenceDiagram"@ { assert("sequenceDiagram"@[0] != "critical "@[0]); } }
        lemma_prefixes_clash(line, "critical "@, "participant "@, 0);
        lemma_prefixes_clash(line, "critical "@, "Note over "@, 0);
        lemma_prefixes_clash(line, "critical "@, "loop "@, 0);
        lemma_prefixes_clash(line, "critical "@, "alt "@, 0);
        lemma_prefixes_clash(line, "critical "@, "else "@, 0);
        lemma_prefixes_clash(line, "critical "@, "par "@, 0);
        lemma_prefixes_clash(line, "critical "@, "and "@, 0);
        assert(control_row(line) == Some("Critical: "@ + trim(after(line, "critical "@))));
    }
    if starts_with(line, "option "@) {
        assert(line[0] == "option "@[0]) by { lemma_prefix_char(line, "option "@, 0); }
        assert(line != "sequenceDiagram"@) by { if line == "sequenceDiagram"@ { assert("sequenceDiagram"@[0] != "option "@[0]); } }
        lemma_prefixes_clash(line, "option "@, "participant "@, 0);
        lemma_prefixes_clash(line, "option "@, "Note over "@, 0);
        lemma_prefixes_clash(line, "option "@, "loop "@, 0);
        lemma_prefixes_clash(line, "option "@, "alt "@, 0);
        lemma_prefixes_clash(line, "option "@, "else "@, 0);
        lemma_prefixes_clash(line, "option "@, "par "@, 0);
        lemma_prefixes_clash(line, "option "@, "and "@, 0);
        lemma_prefixes_clash(line, "option "@, "critical "@, 0);
        assert(control_row(line) == Some("Option: "@ + trim(after(line, "option "@))));
    }
    if starts_with(line, "break "@) {
        assert(line[0] == "break "@[0]) by { lemma_prefix_char(line, "break "@, 0); }
        assert(line != "sequenceDiagram"@) by { if line == "sequenceDiagram"@ { assert("sequenceDiagram"@[0] != "break "@[0]); } }
        lemma_prefixes_clash(line, "break "@, "participant "@, 0);
        lemma_prefixes_clash(line, "break "@, "Note over "@, 0);
        lemma_prefixes_clash(line, "break "@, "loop "@, 0);
        lemma_prefixes_clash(line, "break "@, "alt "@, 0);
        lemma_prefixes_clash(line, "break "@, "else "@, 0);
        lemma_prefixes_clash(line, "break "@, "par "@, 0);
        lemma_prefixes_clash(line, "break "@, "and "@, 0);
        lemma_prefixes_clash(line, "break "@, "critical "@, 0);
        lemma_prefixes_clash(line, "break "@, "option "@, 0);
        assert(control_row(line) == Some("Break: "@ + trim(after(line, "break "@))));
    }
    if starts_with(line, "rect "@) {
        assert(line[0] == "rect "@[0]) by { lemma_prefix_char(line, "rect "@, 0); }
        assert(line != "sequenceDiagram"@) by { if line == "sequenceDiagram"@ { assert("sequenceDiagram"@[0] != "rect "@[0]); } }
        lemma_prefixes_clash(line, "rect "@, "participant "@, 0);
        lemma_prefixes_clash(line, "rect "@, "Note over "@, 0);
        lemma_prefixes_clash(line, "rect "@, "loop "@, 0);
        lemma_prefixes_clash(line, "rect "@, "alt "@, 0);
        lemma_prefixes_clash(line, "rect "@, "else "@, 0);
        lemma_prefixes_clash(line, "rect "@, "par "@, 0);
        lemma_prefixes_clash(line, "rect "@, "and "@, 0);
        lemma_prefixes_clash(line, "rect "@, "critical "@, 0);
        lemma_prefixes_clash(line, "rect "@, "option "@, 0);
        lemma_prefixes_clash(line, "rect "@, "break "@, 0);
        assert(control_row(line) == Some("Rect: "@ + trim(after(line, "rect "@))));
    }
}

/// `participant ID as LABEL` declares the participant `ID` shown as
/// `LABEL`, and `participant ID` one shown by its id (the id holding no
/// space, both trimmed); a declaration adds no row. `Note over A: text`
/// (the actors holding no colon) adds a note row over the listed actors
/// with that text.
pub proof fn law_participant_and_note_lines(st: SeqState, raw: Seq<char>, id: Seq<char>, label: Seq<char>)
    requires
        forall|i: int| 0 <= i < id.len() ==> id[i] != ' ' && id[i] != ':',
    ensures
        trim(raw) == "participant "@ + id + " as "@ + label ==> seq_step(st, raw) == (SeqState {
            participants: st.participants.push((trim(id), trim(label))),
            rows: st.rows,
        }),
        trim(raw) == "participant "@ + id ==> seq_step(st, raw) == (SeqState {
            participants: st.participants.push((trim(id), trim(id))),
            rows: st.rows,
        }),
        trim(raw) == "Note over "@ + id + ":"@ + label ==> seq_step(st, raw) == (SeqState {
            participants: st.participants,
            rows: st.rows.push(
                RowView::Note(split_char(id, ',').map_values(|a: Seq<char>| trim(a)), trim(label)),
            ),
        }),
{
    reveal_strlit("participant ");
    reveal_strlit(" as ");
    reveal_strlit("sequenceDiagram");
    reveal_strlit("Note over ");
    reveal_strlit(":");
    let line = trim(raw);
    if line == "participant "@ + id + " as "@ + label {
        assert(line.take(12) =~= "participant "@);
        assert(after(line, "participant "@) =~= id + " as "@ + label);
        lemma_split_at_first(id, " as "@, label);
        if line == "sequenceDiagram"@ {
            assert(line[0] == 'p');
        }
    }
    if line == "participant "@ + id {
        assert(line.take(12) =~= "participant "@);
        assert(after(line, "participant "@) =~= id);
        lemma_find_none(id, " as "@);
        if line == "sequenceDiagram"@ {
            assert(line[0] == 'p');
        }
    }
    if line == "Note over "@ + id + ":"@ + label {
        assert(line.take(10) =~= "Note over "@);
        assert(after(line, "Note over "@) =~= id + ":"@ + label);
        lemma_split_at_first(id, ":"@, label);
        if line == "sequenceDiagram"@ {
            assert(line[0] == 'N');
        }
        assert(line[0] == 'N');
        if starts_with(line, "participant "@) {
            assert(line.take(12)[0] == 'p');
        }
    }
}

/// A message line `FROM->>TO: TEXT` (names holding no `-` or `:`, the
/// line no declaration, note, block or activation line) adds the message
/// row from `FROM` to `TO` with `TEXT`, each trimmed, in that order.
pub proof fn law_message_line(st: SeqState, raw: Seq<char>, from: Seq<char>, to: Seq<char>, text: Seq<char>)
    requires
        forall|i: int| 0 <= i < from.len() ==> from[i] != '-' && from[i] != ':',
        forall|i: int| 0 <= i < to.len() ==> to[i] != '-' && to[i] != ':',
        trim(raw) == from + "->>"@ + to + ":"@ + text,
        trim(raw) != "sequenceDiagram"@,
        !starts_with(trim(raw), "participant "@),
        !starts_with(trim(raw), "Note over "@),
        control_row(trim(raw)) is None,
        !starts_with(trim(raw), "activate "@),
        !starts_with(trim(raw), "deactivate "@),
        trim(raw) != "end"@,
    ensures
        seq_step(st, raw) == (SeqState {
            participants: st.participants,
            rows: st.rows.push(RowView::Message(trim(from), trim(to), trim(text))),
        }),
{
    reveal_strlit("->>");
    reveal_strlit("-->>");
    reveal_strlit(":");
    let lhs = from + "->>"@ + to;
    assert forall|i: int| 0 <= i < lhs.len() implies lhs[i] != ':' by {
        if i < from.len() {
            assert(lhs[i] == from[i]);
        } else if i >= from.len() + 3 {
            assert(lhs[i] == to[i - from.len() - 3]);
        }
    }
    lemma_split_at_first(lhs, ":"@, text);
    lemma_split_at_first(from, "->>"@, to);
    lemma_find_bounds(lhs, "-->>"@);
    if let Some(k) = find(lhs, "-->>"@) {
        assert(occurs_at(lhs, "-->>"@, k));
        assert(lhs.subrange(k, k + 4)[0] == lhs[k]);
        assert(lhs.subrange(k, k + 4)[1] == lhs[k + 1]);
        if k < from.len() {
            assert(lhs[k] == from[k]);
        } else if k == from.len() {
            assert(lhs[k + 1] == '>');
        } else if k < from.len() + 3 {
            assert(lhs[k] == '>');
        } else {
            assert(lhs[k] == to[k - from.len() - 3]);
        }
    }
}

/// `activate P` and `deactivate P` add an activation or deactivation row
/// for `P` (trimmed); a line `end` adds the control row `End`.
pub proof fn law_activation_lines(st: SeqState, raw: Seq<char>, p: Seq<char>)
    ensures
        trim(raw) == "activate "@ + p ==> seq_step(st, raw) == (SeqState {
            participants: st.participants,
            rows: st.rows.push(RowView::Activate(trim(p))),
        }),
        trim(raw) == "deactivate "@ + p ==> seq_step(st, raw) == (SeqState {
            participants: st.participants,
            rows: st.rows.push(RowView::Deactivate(trim(p))),
        }),
        trim(raw) == "end"@ ==> seq_step(st, raw) == (SeqState {
            participants: st.participants,
            rows: st.rows.push(RowView::Control("End"@)),
        }),
{
    reveal_strlit("End");
    reveal_strlit("Note over ");
    reveal_strlit("activate ");
    reveal_strlit("alt ");
    reveal_strlit("and ");
    reveal_strlit("break ");
    reveal_strlit("critical ");
    reveal_strlit("deactivate ");
    reveal_strlit("else ");
    reveal_strlit("end");
    reveal_strlit("loop ");
    reveal_strlit("option ");
    reveal_strlit("par ");
    reveal_strlit("participant ");
    reveal_strlit("rect ");
    reveal_strlit("sequenceDiagram");
    let line = trim(raw);
    if line == "activate "@ + p {
        assert(line.take(9) =~= "activate "@);
        assert(after(line, "activate "@) =~= p);
    }
    if line == "deactivate "@ + p {
        assert(line.take(11) =~= "deactivate "@);
        assert(after(line, "deactivate "@) =~= p);
    }
    if starts_with(line, "activate "@) {
        lemma_prefix_char(line, "activate "@, 0);
        if line == "sequenceDiagram"@ {
            assert("sequenceDiagram"@[0] != "activate "@[0]);
        }
        assert("activate "@[0] != "participant "@[0]);
        lemma_prefixes_clash(line, "activate "@, "participant "@, 0);
        assert("activate "@[0] != "Note over "@[0]);
        lemma_prefixes_clash(line, "activate "@, "Note over "@, 0);
        assert("activate "@[0] != "loop "@[0]);
        lemma_prefixes_clash(line, "activate "@, "loop "@, 0);
        assert("activate "@[1] != "alt "@[1]);
        lemma_prefixes_clash(line, "activate "@, "alt "@, 1);
        assert("activate "@[0] != "else "@[0]);
        lemma_prefixes_clash(line, "activate "@, "else "@, 0);
        assert("activate "@[0] != "par "@[0]);
        lemma_prefixes_clash(line, "activate "@, "par "@, 0);
        assert("activate "@[1] != "and "@[1]);
        lemma_prefixes_clash(line, "activate "@, "and "@, 1);
        assert("activate "@[0] != "critical "@[0]);
        lemma_prefixes_clash(line, "activate "@, "critical "@, 0);
        assert("activate "@[0] != "option "@[0]);
        lemma_prefixes_clash(line, "activate "@, "option "@, 0);
        assert("activate "@[0] != "break "@[0]);
        lemma_prefixes_clash(line, "activate "@, "break "@, 0);
        assert("activate "@[0] != "rect "@[0]);
        lemma_prefixes_clash(line, "activate "@, "rect "@, 0);
    }
    if starts_with(line, "deactivate "@) {
        lemma_prefix_char(line, "deactivate "@, 0);
        if line == "sequenceDiagram"@ {
            assert("sequenceDiagram"@[0] != "deactivate "@[0]);
        }
        assert("deactivate "@[0] != "participant "@[0]);
        lemma_prefixes_clash(line, "deactivate "@, "participant "@, 0);
        assert("deactivate "@[0] != "Note over "@[0]);
        lemma_prefixes_clash(line, "deactivate "@, "Note over "@, 0);
        assert("deactivate "@[0] != "loop "@[0]);
        lemma_prefixes_clash(line, "deactivate "@, "loop "@, 0);
        assert("deactivate "@[0] != "alt "@[0]);
        lemma_prefixes_clash(line, "deactivate "@, "alt "@, 0);
        assert("deactivate "@[0] != "else "@[0]);
        lemma_prefixes_clash(line, "deactivate "@, "else "@, 0);
        assert("deactivate "@[0] != "par "@[0]);
        lemma_prefixes_clash(line, "deactivate "@, "par "@, 0);
        assert("deactivate "@[0] != "and "@[0]);
        lemma_prefixes_clash(line, "deactivate "@, "and "@, 0);
        assert("deactivate "@[0] != "critical "@[0]);
        lemma_prefixes_clash(line, "deactivate "@, "critical "@, 0);
        assert("deactivate "@[0] != "option "@[0]);
        lemma_prefixes_clash(line, "deactivate "@, "option "@, 0);
        assert("deactivate "@[0] != "break "@[0]);
        lemma_prefixes_clash(line, "deactivate "@, "break "@, 0);
        assert("deactivate "@[0] != "rect "@[0]);
        lemma_prefixes_clash(line, "deactivate "@, "rect "@, 0);
        assert("deactivate "@[0] != "activate "@[0]);
        lemma_prefixes_clash(line, "deactivate "@, "activate "@, 0);
    }
    if line == "end"@ {
        assert(line[0] == 'e');
        assert(line.len() == 3);
        if starts_with(line, "else "@) {
            assert(line.len() >= 5);
        }
        if starts_with(line, "participant "@) {
            lemma_prefix_char(line, "participant "@, 0);
        }
        if starts_with(line, "Note over "@) {
            lemma_prefix_char(line, "Note over "@, 0);
        }
        if starts_with(line, "activate "@) {
            lemma_prefix_char(line, "activate "@, 0);
        }
        if starts_with(line, "deactivate "@) {
            lemma_prefix_char(line, "deactivate "@, 0);
        }
        if starts_with(line, "loop "@) {
            lemma_prefix_char(line, "loop "@, 0);
            assert(line.len() >= 5);
        }
        if starts_with(line, "alt "@) {
            lemma_prefix_char(line, "alt "@, 0);
            assert(line.len() >= 4);
        }
        if starts_with(line, "else "@) {
            lemma_prefix_char(line, "else "@, 0);
            assert(line.len() >= 5);
        }
        if starts_with(line, "par "@) {
            lemma_prefix_char(line, "par "@, 0);
            assert(line.len() >= 4);
        }
        if starts_with(line, "and "@) {
            lemma_prefix_char(line, "and "@, 0);
            assert(line.len() >= 4);
        }
        if starts_with(line, "critical "@) {
            lemma_prefix_char(line, "critical "@, 0);
            assert(line.len() >= 9);
        }
        if starts_with(line, "option "@) {
            lemma_prefix_char(line, "option "@, 0);
            assert(line.len() >= 7);
        }
        if starts_with(line, "break "@) {
            lemma_prefix_char(line, "break "@, 0);
            assert(line.len() >= 6);
        }
        if starts_with(line, "rect "@) {
            lemma_prefix_char(line, "rect "@, 0);
            assert(line.len() >= 5);
        }
    }
}

} // verus!
