//! Parsing of Mermaid state, timeline and Gantt diagrams.

use vstd::prelude::*;
use crate::text::{
    chars_of, lemma_find_none, lemma_split_at_first, lines, lines_of, split_char, split_char_of,
    split_once, split_once_of, starts_with,
    starts_with_str, string_of, trim, trim_of, views,
};
use crate::sequence_diagram::{after, str_views};

verus! {

fn after_of(line: &[char], p: &str) -> (r: Vec<char>)
    requires
        starts_with(line@, p@),
    ensures
        r@ == after(line@, p@),
{
    let pv = chars_of(p);
    let r = crate::text::slice_of(line, pv.len(), line.len());
    assert(r@ =~= after(line@, p@));
    r
}

fn opt_string(o: &Option<Vec<char>>) -> (r: Option<String>)
    ensures
        match o {
            Some(v) => r matches Some(s) && s@ == v@,
            None => r is None,
        },
{
    match o {
        Some(v) => Some(string_of(v.as_slice())),
        None => None,
    }
}

pub open spec fn vopt(o: Option<Vec<char>>) -> Option<Seq<char>> {
    match o {
        Some(v) => Some(v@),
        None => None,
    }
}

pub open spec fn sopt(o: Option<String>) -> Option<Seq<char>> {
    match o {
        Some(v) => Some(v@),
        None => None,
    }
}

fn contains_string(v: &Vec<String>, x: &[char]) -> (r: bool)
    ensures
        r == str_views(v@).contains(x@),
{
    let n = v.len();
    for i in 0..n
        invariant
            n == v@.len(),
            forall|j: int| 0 <= j < i ==> v@[j]@ != x@,
    {
        let c = chars_of(v[i].as_str());
        if crate::text::seq_eq(c.as_slice(), x) {
            assert(str_views(v@)[i as int] == x@);
            return true;
        }
    }
    assert forall|j: int| 0 <= j < str_views(v@).len() implies str_views(v@)[j] != x@ by {
        assert(str_views(v@)[j] == v@[j]@);
    }
    false
}

// ── State diagrams ───────────────────────────────────────────────────────────

pub struct StateTransition {
    pub from: String,
    pub to: String,
    pub label: Option<String>,
}

pub struct StateDiagram {
    pub states: Vec<String>,
    pub transitions: Vec<StateTransition>,
}

impl StateDiagram {
    /// The position of the state `name`.
    pub fn index_of(&self, name: &str) -> (r: Option<usize>)
        ensures
            match r {
                Some(i) => i < self.states@.len() && self.states@[i as int]@ == name@ && forall|j: int|
                    0 <= j < i ==> (#[trigger] self.states@[j])@ != name@,
                None => forall|j: int| 0 <= j < self.states@.len() ==> (#[trigger] self.states@[j])@ != name@,
            },
    {
        let target = chars_of(name);
        let n = self.states.len();
        for i in 0..n
            invariant
                n == self.states@.len(),
                target@ == name@,
                forall|j: int| 0 <= j < i ==> (#[trigger] self.states@[j])@ != name@,
        {
            let s = chars_of(self.states[i].as_str());
            if crate::text::seq_eq(s.as_slice(), target.as_slice()) {
                return Some(i);
            }
        }
        None
    }
}

pub ghost struct StateView {
    pub states: Seq<Seq<char>>,
    pub transitions: Seq<(Seq<char>, Seq<char>, Option<Seq<char>>)>,
}

pub open spec fn transition_views(v: Seq<StateTransition>) -> Seq<(Seq<char>, Seq<char>, Option<Seq<char>>)> {
    v.map_values(|t: StateTransition| (t.from@, t.to@, sopt(t.label)))
}

/// `states` with `s` added at the end unless it is the pseudo-state `[*]` or
/// already there.
pub open spec fn add_state(states: Seq<Seq<char>>, s: Seq<char>) -> Seq<Seq<char>> {
    if s != "[*]"@ && !states.contains(s) {
        states.push(s)
    } else {
        states
    }
}

/// The effect of one line: a `from --> to[: label]` line records both states
/// and, between two real states, the transition.
pub open spec fn state_step(st: StateView, raw: Seq<char>) -> StateView {
    let line = trim(raw);
    if line.len() == 0 || starts_with(line, "stateDiagram"@) {
        st
    } else {
        match split_once(line, "-->"@) {
            Some((lhs, rhs)) => {
                let from = trim(lhs);
                let (to, label) = match split_once(rhs, ":"@) {
                    Some((t, l)) => (trim(t), Some(trim(l))),
                    None => (trim(rhs), None),
                };
                StateView {
                    states: add_state(add_state(st.states, from), to),
                    transitions: if from != "[*]"@ && to != "[*]"@ {
                        st.transitions.push((from, to, label))
                    } else {
                        st.transitions
                    },
                }
            },
            None => st,
        }
    }
}

pub open spec fn state_fold(ls: Seq<Seq<char>>) -> StateView
    decreases ls.len(),
{
    if ls.len() == 0 {
        StateView { states: seq![], transitions: seq![] }
    } else {
        state_step(state_fold(ls.drop_last()), ls.last())
    }
}

pub open spec fn state_spec(input: Seq<char>) -> Result<StateView, Seq<char>> {
    let st = state_fold(lines(input));
    if st.states.len() == 0 {
        Err("State diagram has no states"@)
    } else {
        Ok(st)
    }
}

fn add_state_of(states: &mut Vec<String>, s: &[char])
    ensures
        str_views(final(states)@) == add_state(str_views(old(states)@), s@),
{
    if !crate::text::eq_str(s, "[*]") && !contains_string(states, s) {
        let ghost before = states@;
        states.push(string_of(s));
        assert(str_views(states@) =~= str_views(before).push(s@));
    }
}

/// Parses a state diagram: its states in order of appearance and its
/// transitions between real states.
pub fn parse_state_diagram(input: &str) -> (r: Result<StateDiagram, String>)
    ensures
        match r {
            Ok(d) => state_spec(input@) == Ok::<StateView, Seq<char>>(
                StateView { states: str_views(d.states@), transitions: transition_views(d.transitions@) },
            ),
            Err(e) => state_spec(input@) == Err::<StateView, Seq<char>>(e@),
        },
{
    let src = chars_of(input);
    let ls = lines_of(src.as_slice());
    let mut states: Vec<String> = Vec::new();
    let mut transitions: Vec<StateTransition> = Vec::new();
    let n = ls.len();
    assert(str_views(states@) =~= Seq::<Seq<char>>::empty());
    assert(transition_views(transitions@) =~= Seq::<(Seq<char>, Seq<char>, Option<Seq<char>>)>::empty());
    assert(views(ls@).take(0) =~= Seq::<Seq<char>>::empty());
    for i in 0..n
        invariant
            n == ls@.len(),
            views(ls@) == lines(src@),
            src@ == input@,
            state_fold(views(ls@).take(i as int)) == (StateView {
                states: str_views(states@),
                transitions: transition_views(transitions@),
            }),
    {
        assert(views(ls@).take(i + 1).drop_last() =~= views(ls@).take(i as int));
        assert(views(ls@).take(i + 1).last() == ls@[i as int]@);
        let line_v = trim_of(ls[i].as_slice());
        let line = line_v.as_slice();
        if line.len() == 0 || starts_with_str(line, "stateDiagram") {
        } else {
            match split_once_of(line, "-->") {
                Some((lhs, rhs)) => {
                    let from = trim_of(lhs.as_slice());
                    let (to, label): (Vec<char>, Option<Vec<char>>) = match split_once_of(
                        rhs.as_slice(),
                        ":",
                    ) {
                        Some((t, l)) => (trim_of(t.as_slice()), Some(trim_of(l.as_slice()))),
                        None => (trim_of(rhs.as_slice()), None),
                    };
                    add_state_of(&mut states, from.as_slice());
                    add_state_of(&mut states, to.as_slice());
                    if !crate::text::eq_str(from.as_slice(), "[*]") && !crate::text::eq_str(
                        to.as_slice(),
                        "[*]",
                    ) {
                        let ghost before = transitions@;
                        let t = StateTransition {
                            from: string_of(from.as_slice()),
                            to: string_of(to.as_slice()),
                            label: opt_string(&label),
                        };
                        transitions.push(t);
                        assert(transition_views(transitions@) =~= transition_views(before).push(
                            (from@, to@, vopt(label)),
                        ));
                    }
                },
                None => {},
            }
        }
    }
    assert(views(ls@).take(n as int) =~= views(ls@));
    if states.len() == 0 {
        Err(String::from_str("State diagram has no states"))
    } else {
        Ok(StateDiagram { states, transitions })
    }
}

// ── Timelines ────────────────────────────────────────────────────────────────

pub struct TimelineEvent {
    pub point: String,
    pub description: String,
}

pub struct TimelineDiagram {
    pub title: Option<String>,
    pub events: Vec<TimelineEvent>,
}

pub ghost struct TimelineView {
    pub title: Option<Seq<char>>,
    pub pending: Option<Seq<char>>,
    pub events: Seq<(Seq<char>, Seq<char>)>,
}

pub open spec fn event_views(v: Seq<TimelineEvent>) -> Seq<(Seq<char>, Seq<char>)> {
    v.map_values(|e: TimelineEvent| (e.point@, e.description@))
}

/// The effect of one line: a title, a `point: description` event, or a
/// point on one line with its description on the next.
pub open spec fn timeline_step(st: TimelineView, raw: Seq<char>) -> TimelineView {
    let line = trim(raw);
    if line.len() == 0 || line == "timeline"@ {
        st
    } else if starts_with(line, "title "@) {
        TimelineView { title: Some(trim(after(line, "title "@))), ..st }
    } else {
        match split_once(line, ":"@) {
            Some((p, d)) => TimelineView {
                title: st.title,
                pending: None,
                events: st.events.push((trim(p), trim(d))),
            },
            None => match st.pending {
                None => TimelineView { pending: Some(line), ..st },
                Some(p) => TimelineView {
                    title: st.title,
                    pending: None,
                    events: st.events.push((p, line)),
                },
            },
        }
    }
}

pub open spec fn timeline_fold(ls: Seq<Seq<char>>) -> TimelineView
    decreases ls.len(),
{
    if ls.len() == 0 {
        TimelineView { title: None, pending: None, events: seq![] }
    } else {
        timeline_step(timeline_fold(ls.drop_last()), ls.last())
    }
}

pub open spec fn timeline_spec(input: Seq<char>) -> Result<(Option<Seq<char>>, Seq<(Seq<char>, Seq<char>)>), Seq<char>> {
    let st = timeline_fold(lines(input));
    if st.events.len() == 0 {
        Err("Timeline diagram has no events"@)
    } else {
        Ok((st.title, st.events))
    }
}

fn push_event(events: &mut Vec<TimelineEvent>, p: &[char], d: &[char])
    ensures
        event_views(final(events)@) == event_views(old(events)@).push((p@, d@)),
{
    let ghost before = events@;
    events.push(TimelineEvent { point: string_of(p), description: string_of(d) });
    assert(event_views(events@) =~= event_views(before).push((p@, d@)));
}

/// Parses a timeline: its title and its events in order.
pub fn parse_timeline_diagram(input: &str) -> (r: Result<TimelineDiagram, String>)
    ensures
        match r {
            Ok(d) => timeline_spec(input@) == Ok::<(Option<Seq<char>>, Seq<(Seq<char>, Seq<char>)>), Seq<char>>(
                (sopt(d.title), event_views(d.events@)),
            ),
            Err(e) => timeline_spec(input@) == Err::<(Option<Seq<char>>, Seq<(Seq<char>, Seq<char>)>), Seq<char>>(e@),
        },
{
    let src = chars_of(input);
    let ls = lines_of(src.as_slice());
    let mut title: Option<Vec<char>> = None;
    let mut pending: Option<Vec<char>> = None;
    let mut events: Vec<TimelineEvent> = Vec::new();
    let n = ls.len();
    assert(event_views(events@) =~= Seq::<(Seq<char>, Seq<char>)>::empty());
    assert(views(ls@).take(0) =~= Seq::<Seq<char>>::empty());
    for i in 0..n
        invariant
            n == ls@.len(),
            views(ls@) == lines(src@),
            src@ == input@,
            timeline_fold(views(ls@).take(i as int)) == (TimelineView {
                title: vopt(title),
                pending: vopt(pending),
                events: event_views(events@),
            }),
    {
        assert(views(ls@).take(i + 1).drop_last() =~= views(ls@).take(i as int));
        assert(views(ls@).take(i + 1).last() == ls@[i as int]@);
        let line_v = trim_of(ls[i].as_slice());
        let line = line_v.as_slice();
        if line.len() == 0 || crate::text::eq_str(line, "timeline") {
        } else if starts_with_str(line, "title ") {
            let rest = after_of(line, "title ");
            title = Some(trim_of(rest.as_slice()));
        } else {
            match split_once_of(line, ":") {
                Some((p, d)) => {
                    let a = trim_of(p.as_slice());
                    let b = trim_of(d.as_slice());
                    push_event(&mut events, a.as_slice(), b.as_slice());
                    pending = None;
                },
                None => {
                    match pending {
                        None => {
                            pending = Some(crate::text::copy_chars(line));
                        },
                        Some(p) => {
                            push_event(&mut events, p.as_slice(), line);
                            pending = None;
                        },
                    }
                },
            }
        }
    }
    assert(views(ls@).take(n as int) =~= views(ls@));
    if events.len() == 0 {
        Err(String::from_str("Timeline diagram has no events"))
    } else {
        Ok(TimelineDiagram { title: opt_string(&title), events })
    }
}

// ── Gantt charts ─────────────────────────────────────────────────────────────

pub struct GanttRow {
    pub section: Option<String>,
    pub section_starts_here: bool,
    pub label: String,
    pub start: i32,
    pub duration: i32,
}

pub struct GanttDiagram {
    pub title: Option<String>,
    pub rows: Vec<GanttRow>,
    pub section_count: usize,
}

pub ghost struct GanttRowView {
    pub section: Option<Seq<char>>,
    pub section_starts_here: bool,
    pub label: Seq<char>,
    pub start: i32,
    pub duration: i32,
}

pub ghost struct GanttView {
    pub title: Option<Seq<char>>,
    pub rows: Seq<GanttRowView>,
    pub current: Option<Seq<char>>,
    pub section_count: nat,
}

pub open spec fn gantt_row_view(r: GanttRow) -> GanttRowView {
    GanttRowView {
        section: sopt(r.section),
        section_starts_here: r.section_starts_here,
        label: r.label@,
        start: r.start,
        duration: r.duration,
    }
}

pub open spec fn gantt_row_views(v: Seq<GanttRow>) -> Seq<GanttRowView> {
    v.map_values(|r: GanttRow| gantt_row_view(r))
}

/// The trimmed, non-empty fields.
pub open spec fn nonempty_trimmed(parts: Seq<Seq<char>>) -> Seq<Seq<char>>
    decreases parts.len(),
{
    if parts.len() == 0 {
        seq![]
    } else {
        let rest = nonempty_trimmed(parts.drop_last());
        let t = trim(parts.last());
        if t.len() > 0 {
            rest.push(t)
        } else {
            rest
        }
    }
}

/// The fields that parse as `i32`, parsed.
pub open spec fn parsed_numbers(parts: Seq<Seq<char>>) -> Seq<i32>
    decreases parts.len(),
{
    if parts.len() == 0 {
        seq![]
    } else {
        let rest = parsed_numbers(parts.drop_last());
        match crate::text::parse_i32_spec(parts.last()) {
            Some(v) => rest.push(v),
            None => rest,
        }
    }
}

/// Start and duration from the numbers of a task line: both when there are
/// two, a duration from zero when there is one, one unit from zero else.
pub open spec fn task_span(nums: Seq<i32>) -> (i32, i32) {
    if nums.len() >= 2 {
        (nums[0], nums[1])
    } else if nums.len() == 1 {
        (0, nums[0])
    } else {
        (0, 1)
    }
}

/// The effect of one line: title, section, or a `label: fields` task.
pub open spec fn gantt_step(st: GanttView, raw: Seq<char>) -> GanttView {
    let line = trim(raw);
    if line.len() == 0 || line == "gantt"@ || starts_with(line, "dateFormat"@) || starts_with(
        line,
        "axisFormat"@,
    ) {
        st
    } else if starts_with(line, "title "@) {
        GanttView { title: Some(trim(after(line, "title "@))), ..st }
    } else if starts_with(line, "section "@) {
        GanttView {
            current: Some(trim(after(line, "section "@))),
            section_count: st.section_count + 1,
            ..st
        }
    } else {
        match split_once(line, ":"@) {
            Some((label, rhs)) => {
                let span = task_span(parsed_numbers(nonempty_trimmed(split_char(rhs, ','))));
                let starts = st.rows.len() == 0 || st.rows.last().section != st.current;
                GanttView {
                    rows: st.rows.push(
                        GanttRowView {
                            section: st.current,
                            section_starts_here: starts,
                            label: trim(label),
                            start: span.0,
                            duration: span.1,
                        },
                    ),
                    ..st
                }
            },
            None => st,
        }
    }
}

pub open spec fn gantt_fold(ls: Seq<Seq<char>>) -> GanttView
    decreases ls.len(),
{
    if ls.len() == 0 {
        GanttView { title: None, rows: seq![], current: None, section_count: 0 }
    } else {
        gantt_step(gantt_fold(ls.drop_last()), ls.last())
    }
}

pub open spec fn gantt_spec(input: Seq<char>) -> Result<(Option<Seq<char>>, Seq<GanttRowView>, nat), Seq<char>> {
    let st = gantt_fold(lines(input));
    if st.rows.len() == 0 {
        Err("Gantt diagram has no rows"@)
    } else {
        Ok((st.title, st.rows, st.section_count))
    }
}

proof fn lemma_gantt_sections_bounded(ls: Seq<Seq<char>>)
    ensures
        gantt_fold(ls).section_count <= ls.len(),
    decreases ls.len(),
{
    if ls.len() > 0 {
        lemma_gantt_sections_bounded(ls.drop_last());
    }
}

fn nonempty_trimmed_of(parts: &Vec<Vec<char>>) -> (r: Vec<Vec<char>>)
    ensures
        views(r@) == nonempty_trimmed(views(parts@)),
{
    let mut out: Vec<Vec<char>> = Vec::new();
    let n = parts.len();
    for i in 0..n
        invariant
            n == parts@.len(),
            views(out@) == nonempty_trimmed(views(parts@).take(i as int)),
    {
        assert(views(parts@).take(i + 1).drop_last() =~= views(parts@).take(i as int));
        assert(views(parts@).take(i + 1).last() == parts@[i as int]@);
        let t = trim_of(parts[i].as_slice());
        if t.len() > 0 {
            let ghost before = out@;
            out.push(t);
            assert(views(out@) =~= views(before).push(t@));
        }
    }
    assert(views(parts@).take(n as int) =~= views(parts@));
    out
}

fn parsed_numbers_of(parts: &Vec<Vec<char>>) -> (r: Vec<i32>)
    ensures
        r@ == parsed_numbers(views(parts@)),
{
    let mut out: Vec<i32> = Vec::new();
    let n = parts.len();
    for i in 0..n
        invariant
            n == parts@.len(),
            out@ == parsed_numbers(views(parts@).take(i as int)),
    {
        assert(views(parts@).take(i + 1).drop_last() =~= views(parts@).take(i as int));
        assert(views(parts@).take(i + 1).last() == parts@[i as int]@);
        let s = string_of(parts[i].as_slice());
        match crate::text::parse_i32(s.as_str()) {
            Some(v) => out.push(v),
            None => {},
        }
    }
    assert(views(parts@).take(n as int) =~= views(parts@));
    out
}

fn same_section(a: &Option<String>, b: &Option<Vec<char>>) -> (r: bool)
    ensures
        r == (sopt(*a) == vopt(*b)),
{
    match (a, b) {
        (Some(x), Some(y)) => {
            let xv = chars_of(x.as_str());
            crate::text::seq_eq(xv.as_slice(), y.as_slice())
        },
        (None, None) => true,
        _ => false,
    }
}

/// Parses a Gantt chart: its title, its tasks with their sections and
/// numeric start and duration, and how many sections it declares.
pub fn parse_gantt_diagram(input: &str) -> (r: Result<GanttDiagram, String>)
    ensures
        match r {
            Ok(d) => gantt_spec(input@) == Ok::<(Option<Seq<char>>, Seq<GanttRowView>, nat), Seq<char>>(
                (sopt(d.title), gantt_row_views(d.rows@), d.section_count as nat),
            ),
            Err(e) => gantt_spec(input@) == Err::<(Option<Seq<char>>, Seq<GanttRowView>, nat), Seq<char>>(e@),
        },
{
    let src = chars_of(input);
    let ls = lines_of(src.as_slice());
    let mut title: Option<Vec<char>> = None;
    let mut current: Option<Vec<char>> = None;
    let mut rows: Vec<GanttRow> = Vec::new();
    let mut section_count: usize = 0;
    let n = ls.len();
    assert(gantt_row_views(rows@) =~= Seq::<GanttRowView>::empty());
    assert(views(ls@).take(0) =~= Seq::<Seq<char>>::empty());
    for i in 0..n
        invariant
            n == ls@.len(),
            views(ls@) == lines(src@),
            src@ == input@,
            gantt_fold(views(ls@).take(i as int)) == (GanttView {
                title: vopt(title),
                rows: gantt_row_views(rows@),
                current: vopt(current),
                section_count: section_count as nat,
            }),
    {
        assert(views(ls@).take(i + 1).drop_last() =~= views(ls@).take(i as int));
        assert(views(ls@).take(i + 1).last() == ls@[i as int]@);
        proof {
            lemma_gantt_sections_bounded(views(ls@).take(i as int));
        }
        let line_v = trim_of(ls[i].as_slice());
        let line = line_v.as_slice();
        if line.len() == 0 || crate::text::eq_str(line, "gantt") || starts_with_str(line, "dateFormat")
            || starts_with_str(line, "axisFormat") {
        } else if starts_with_str(line, "title ") {
            let rest = after_of(line, "title ");
            title = Some(trim_of(rest.as_slice()));
        } else if starts_with_str(line, "section ") {
            let rest = after_of(line, "section ");
            current = Some(trim_of(rest.as_slice()));
            section_count = section_count + 1;
        } else {
            match split_once_of(line, ":") {
                Some((label, rhs)) => {
                    let fields = split_char_of(rhs.as_slice(), ',');
                    let parts = nonempty_trimmed_of(&fields);
                    let nums = parsed_numbers_of(&parts);
                    let (start, duration): (i32, i32) = if nums.len() >= 2 {
                        (nums[0], nums[1])
                    } else if nums.len() == 1 {
                        (0, nums[0])
                    } else {
                        (0, 1)
                    };
                    let starts = if rows.len() == 0 {
                        true
                    } else {
                        !same_section(&rows[rows.len() - 1].section, &current)
                    };
                    let l = trim_of(label.as_slice());
                    let row = GanttRow {
                        section: opt_string(&current),
                        section_starts_here: starts,
                        label: string_of(l.as_slice()),
                        start,
                        duration,
                    };
                    let ghost before = rows@;
                    rows.push(row);
                    assert(gantt_row_views(rows@) =~= gantt_row_views(before).push(gantt_row_view(row)));
                },
                None => {},
            }
        }
    }
    assert(views(ls@).take(n as int) =~= views(ls@));
    if rows.len() == 0 {
        Err(String::from_str("Gantt diagram has no rows"))
    } else {
        Ok(GanttDiagram { title: opt_string(&title), rows, section_count })
    }
}

// ── Laws ─────────────────────────────────────────────────────────────────────

/// A line `A --> B` between two real states records the transition from
/// `A` to `B` (names trimmed) without a label, and `A --> B : L` records it
/// with the label `L`; a line `[*] --> B` or `A --> [*]` records no
/// transition.
pub proof fn law_state_transition_line(st: StateView, raw: Seq<char>, a: Seq<char>, b: Seq<char>, l: Seq<char>)
    requires
        forall|i: int| 0 <= i < a.len() ==> a[i] != '-',
        forall|i: int| 0 <= i < b.len() ==> b[i] != ':',
        !starts_with(trim(raw), "stateDiagram"@),
    ensures
        trim(raw) == a + "-->"@ + b ==> state_step(st, raw).transitions == if trim(a) != "[*]"@ && trim(b)
            != "[*]"@ {
            st.transitions.push((trim(a), trim(b), None))
        } else {
            st.transitions
        },
        trim(raw) == a + "-->"@ + b + ":"@ + l ==> state_step(st, raw).transitions == if trim(a) != "[*]"@
            && trim(b) != "[*]"@ {
            st.transitions.push((trim(a), trim(b), Some(trim(l))))
        } else {
            st.transitions
        },
{
    reveal_strlit("-->");
    reveal_strlit(":");
    if trim(raw) == a + "-->"@ + b {
        lemma_split_at_first(a, "-->"@, b);
        lemma_find_none(b, ":"@);
    }
    if trim(raw) == a + "-->"@ + b + ":"@ + l {
        assert(a + "-->"@ + b + ":"@ + l =~= a + "-->"@ + (b + ":"@ + l));
        lemma_split_at_first(a, "-->"@, b + ":"@ + l);
        lemma_split_at_first(b, ":"@, l);
    }
}

/// A line `point: description` (the point holding no colon, the line not a
/// title) adds the event with that point and description, both trimmed,
/// and drops any point waiting for its description.
pub proof fn law_timeline_event_line(st: TimelineView, raw: Seq<char>, p: Seq<char>, d: Seq<char>)
    requires
        forall|i: int| 0 <= i < p.len() ==> p[i] != ':',
        trim(raw) == p + ":"@ + d,
        !starts_with(trim(raw), "title "@),
    ensures
        timeline_step(st, raw) == (TimelineView {
            title: st.title,
            pending: None,
            events: st.events.push((trim(p), trim(d))),
        }),
{
    reveal_strlit(":");
    reveal_strlit("timeline");
    lemma_split_at_first(p, ":"@, d);
    if trim(raw) == "timeline"@ {
        assert(trim(raw).len() == p.len() + 1 + d.len());
        assert(trim(raw)[p.len() as int] == ':');
    }
}

/// A task line `label: fields` (the label holding no colon, the line not a
/// title, section or format line) adds a row with that label, trimmed, in
/// the current section, starting a new section block when the section
/// changed; its start and duration come from the numbers among the fields:
/// two or more give the first two, one gives the duration from 0, none
/// give 0 and 1.
pub proof fn law_gantt_task_line(st: GanttView, raw: Seq<char>, label: Seq<char>, fields: Seq<char>)
    requires
        forall|i: int| 0 <= i < label.len() ==> label[i] != ':',
        trim(raw) == label + ":"@ + fields,
        trim(raw) != "gantt"@,
        !starts_with(trim(raw), "dateFormat"@),
        !starts_with(trim(raw), "axisFormat"@),
        !starts_with(trim(raw), "title "@),
        !starts_with(trim(raw), "section "@),
    ensures
        ({
            let nums = parsed_numbers(nonempty_trimmed(split_char(fields, ',')));
            let row = gantt_step(st, raw).rows.last();
            &&& gantt_step(st, raw).rows.len() == st.rows.len() + 1
            &&& gantt_step(st, raw).rows.drop_last() == st.rows
            &&& row.label == trim(label)
            &&& row.section == st.current
            &&& row.section_starts_here == (st.rows.len() == 0 || st.rows.last().section != st.current)
            &&& nums.len() >= 2 ==> row.start == nums[0] && row.duration == nums[1]
            &&& nums.len() == 1 ==> row.start == 0 && row.duration == nums[0]
            &&& nums.len() == 0 ==> row.start == 0 && row.duration == 1
            &&& gantt_step(st, raw).current == st.current
            &&& gantt_step(st, raw).title == st.title
        }),
{
    reveal_strlit(":");
    lemma_split_at_first(label, ":"@, fields);
    assert(gantt_step(st, raw).rows.drop_last() =~= st.rows);
}

/// `title T` sets the title of a timeline or a Gantt chart to `T`
/// trimmed, and `section S` opens the Gantt section `S` (trimmed) for the
/// tasks that follow, counting it; neither adds a row or event.
pub proof fn law_titles_and_sections(tl: TimelineView, g: GanttView, raw: Seq<char>, t: Seq<char>)
    ensures
        trim(raw) == "title "@ + t ==> timeline_step(tl, raw) == (TimelineView { title: Some(trim(t)), ..tl }),
        trim(raw) == "title "@ + t ==> gantt_step(g, raw) == (GanttView { title: Some(trim(t)), ..g }),
        trim(raw) == "section "@ + t ==> gantt_step(g, raw) == (GanttView {
            current: Some(trim(t)),
            section_count: g.section_count + 1,
            ..g
        }),
{
    reveal_strlit("title ");
    reveal_strlit("section ");
    reveal_strlit("timeline");
    reveal_strlit("gantt");
    reveal_strlit("dateFormat");
    reveal_strlit("axisFormat");
    let line = trim(raw);
    if line == "title "@ + t {
        assert(line.take(6) =~= "title "@);
        assert(after(line, "title "@) =~= t);
        assert(line[0] == 't');
        if starts_with(line, "dateFormat"@) {
            assert(line.take(10)[0] == 'd');
        }
        if starts_with(line, "axisFormat"@) {
            assert(line.take(10)[0] == 'a');
        }
        if line == "timeline"@ {
            assert(line[2] == "title "@[2]);
            assert(line[2] == "timeline"@[2]);
        }
    }
    if line == "section "@ + t {
        assert(line.take(8) =~= "section "@);
        assert(after(line, "section "@) =~= t);
        assert(line[0] == 's');
        if starts_with(line, "dateFormat"@) {
            assert(line.take(10)[0] == 'd');
        }
        if starts_with(line, "axisFormat"@) {
            assert(line.take(10)[0] == 'a');
        }
        if starts_with(line, "title "@) {
            assert(line.take(6)[0] == 't');
        }
    }
}

} // verus!
