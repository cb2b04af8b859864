//! Attaching `{.Class #id}` attribute blocks to the Markdown block before
//! them: a paragraph whose only content is an attribute block, right after
//! the end of a block, is consumed, and that block's end event carries the
//! classes and id.

use vstd::prelude::*;
use crate::attributes::{attr_block, opt_view, parse_attr_block, string_views};
use crate::md_events::{copy_event, event_views, Event, EventView, Tag, TagEnd, TagView};

/// The canonical attribute pass.
pub use self::intercept_attributes_stable as intercept;

verus! {

/// A Markdown event, with the attributes of the block it closes.
#[derive(Debug, Clone)]
pub enum AnnotatedEvent {
    /// An event with no attributes.
    Standard(Event),
    /// The end of a block that an attribute block followed.
    Attributed { inner: Event, classes: Vec<String>, id: Option<String> },
}

pub ghost enum AnnotatedView {
    Standard(EventView),
    Attributed { inner: EventView, classes: Seq<Seq<char>>, id: Option<Seq<char>> },
}

impl View for AnnotatedEvent {
    type V = AnnotatedView;

    open spec fn view(&self) -> AnnotatedView {
        match self {
            AnnotatedEvent::Standard(e) => AnnotatedView::Standard(e@),
            AnnotatedEvent::Attributed { inner, classes, id } => AnnotatedView::Attributed {
                inner: inner@,
                classes: string_views(classes@),
                id: opt_view(*id),
            },
        }
    }
}

pub open spec fn annotated_views(v: Seq<AnnotatedEvent>) -> Seq<AnnotatedView> {
    v.map_values(|a: AnnotatedEvent| a@)
}

impl AnnotatedEvent {
    /// The event, with or without attributes.
    pub fn event(&self) -> (r: &Event)
        ensures
            r == match self {
                AnnotatedEvent::Standard(e) => e,
                AnnotatedEvent::Attributed { inner, .. } => inner,
            },
    {
        match self {
            AnnotatedEvent::Standard(e) => e,
            AnnotatedEvent::Attributed { inner, .. } => inner,
        }
    }

    /// The class names; none for an event without attributes.
    pub fn classes(&self) -> (r: &[String])
        ensures
            r@ == match self {
                AnnotatedEvent::Standard(_) => Seq::<String>::empty(),
                AnnotatedEvent::Attributed { classes, .. } => classes@,
            },
    {
        match self {
            AnnotatedEvent::Standard(_) => &[],
            AnnotatedEvent::Attributed { classes, .. } => classes.as_slice(),
        }
    }

    /// The first class name, if any.
    pub fn primary_class(&self) -> (r: Option<&str>)
        ensures
            match self {
                AnnotatedEvent::Attributed { classes, .. } => if classes@.len() > 0 {
                    r matches Some(c) && c@ == classes@[0]@
                } else {
                    r is None
                },
                AnnotatedEvent::Standard(_) => r is None,
            },
    {
        let cs = self.classes();
        if cs.len() > 0 {
            Some(cs[0].as_str())
        } else {
            None
        }
    }

    /// The id, if one was given.
    pub fn id(&self) -> (r: Option<&str>)
        ensures
            match self {
                AnnotatedEvent::Attributed { id: Some(i), .. } => r matches Some(s) && s@ == i@,
                _ => r is None,
            },
    {
        match self {
            AnnotatedEvent::Attributed { id: Some(i), .. } => Some(i.as_str()),
            _ => None,
        }
    }
}

/// The end of a paragraph, heading, block quote, table, list, code block
/// or list item.
pub open spec fn block_end(e: EventView) -> bool {
    match e {
        EventView::End(TagEnd::Paragraph) | EventView::End(TagEnd::Heading(_)) | EventView::End(
            TagEnd::BlockQuote,
        ) | EventView::End(TagEnd::Table) | EventView::End(TagEnd::List(_)) | EventView::End(
            TagEnd::CodeBlock,
        ) | EventView::End(TagEnd::Item) => true,
        _ => false,
    }
}

pub fn is_block_end(event: &Event) -> (r: bool)
    ensures
        r == block_end(event@),
{
    match event {
        Event::End(TagEnd::Paragraph) | Event::End(TagEnd::Heading(_)) | Event::End(
            TagEnd::BlockQuote,
        ) | Event::End(TagEnd::Table) | Event::End(TagEnd::List(_)) | Event::End(TagEnd::CodeBlock)
        | Event::End(TagEnd::Item) => true,
        _ => false,
    }
}

/// The attributes of a paragraph at `i + 1 .. i + 3` that holds nothing but
/// an attribute block.
pub open spec fn attr_paragraph(es: Seq<EventView>, i: int) -> Option<
    (Seq<Seq<char>>, Option<Seq<char>>),
> {
    if i + 3 < es.len() && es[i + 1] == EventView::Start(TagView::Paragraph) && es[i + 3]
        == EventView::End(TagEnd::Paragraph) {
        match es[i + 2] {
            EventView::Text(t) => attr_block(t),
            _ => None,
        }
    } else {
        None
    }
}

/// The events from `i` on, each block end that an attribute paragraph
/// follows carrying its attributes, the paragraph itself dropped.
pub open spec fn annotated_from(es: Seq<EventView>, i: int) -> Seq<AnnotatedView>
    decreases es.len() - i,
{
    if i >= es.len() || i < 0 {
        seq![]
    } else if block_end(es[i]) && attr_paragraph(es, i) is Some {
        let (classes, id) = attr_paragraph(es, i)->0;
        seq![AnnotatedView::Attributed { inner: es[i], classes, id }] + annotated_from(es, i + 4)
    } else {
        seq![AnnotatedView::Standard(es[i])] + annotated_from(es, i + 1)
    }
}

fn attributes_after(events: &Vec<Event>, i: usize) -> (r: Option<(Vec<String>, Option<String>)>)
    requires
        i < events@.len(),
    ensures
        r matches Some((c, id)) ==> attr_paragraph(event_views(events@), i as int) == Some(
            (string_views(c@), opt_view(id)),
        ),
        r is None ==> attr_paragraph(event_views(events@), i as int) is None,
{
    let ghost es = event_views(events@);
    if events.len() - i > 3 {
        let opens = match &events[i + 1] {
            Event::Start(Tag::Paragraph) => true,
            _ => false,
        };
        let closes = match &events[i + 3] {
            Event::End(TagEnd::Paragraph) => true,
            _ => false,
        };
        if opens && closes {
            match &events[i + 2] {
                Event::Text(text) => {
                    return parse_attr_block(text.as_str());
                },
                _ => {},
            }
        }
    }
    None
}

/// Attaches each attribute block that follows the end of a block to that
/// end event.
pub fn intercept_attributes_stable(events: Vec<Event>) -> (r: Vec<AnnotatedEvent>)
    ensures
        annotated_views(r@) == annotated_from(event_views(events@), 0),
{
    let ghost es = event_views(events@);
    let n = events.len();
    let mut result: Vec<AnnotatedEvent> = Vec::new();
    let mut i: usize = 0;
    while i < n
        invariant
            n == events@.len() == es.len(),
            es == event_views(events@),
            i <= n,
            annotated_views(result@) + annotated_from(es, i as int) == annotated_from(es, 0),
        decreases n - i,
    {
        let ghost before = annotated_views(result@);
        let event = copy_event(&events[i]);
        if is_block_end(&events[i]) {
            match attributes_after(&events, i) {
                Some((classes, id)) => {
                    result.push(AnnotatedEvent::Attributed { inner: event, classes, id });
                    proof {
                        assert(annotated_views(result@) =~= before.push(
                            annotated_from(es, i as int)[0],
                        ));
                        assert(annotated_from(es, i as int) =~= seq![annotated_from(es, i as int)[0]]
                            + annotated_from(es, i + 4));
                        assert(annotated_views(result@) + annotated_from(es, i + 4) =~= before
                            + annotated_from(es, i as int));
                    }
                    i = i + 4;
                    continue;
                },
                None => {},
            }
        }
        result.push(AnnotatedEvent::Standard(event));
        proof {
            assert(annotated_views(result@) =~= before.push(annotated_from(es, i as int)[0]));
            assert(annotated_from(es, i as int) =~= seq![annotated_from(es, i as int)[0]]
                + annotated_from(es, i + 1));
            assert(annotated_views(result@) + annotated_from(es, i + 1) =~= before + annotated_from(
                es,
                i as int,
            ));
        }
        i = i + 1;
    }
    proof {
        assert(annotated_from(es, n as int) =~= Seq::<AnnotatedView>::empty());
        assert(annotated_views(result@) =~= annotated_from(es, 0));
    }
    result
}

/// One look past a block end at `i`, reading events one by one: the
/// attributes of an attribute paragraph there, and where reading goes on.
/// The events read that do not make up such a paragraph are not kept.
pub open spec fn look_past(es: Seq<EventView>, i: int) -> (
    Option<(Seq<Seq<char>>, Option<Seq<char>>)>,
    int,
) {
    if i + 1 >= es.len() {
        (None, i + 1)
    } else if es[i + 1] != EventView::Start(TagView::Paragraph) {
        (None, i + 2)
    } else if i + 2 >= es.len() {
        (None, i + 2)
    } else if i + 3 >= es.len() {
        (None, i + 3)
    } else {
        match es[i + 2] {
            EventView::Text(t) => if es[i + 3] == EventView::End(TagEnd::Paragraph) {
                (attr_block(t), i + 4)
            } else {
                (None, i + 4)
            },
            _ => (None, i + 4),
        }
    }
}

/// The events from `i` on as the single-pass attribute reader gives them.
pub open spec fn annotated_once_from(es: Seq<EventView>, i: int) -> Seq<AnnotatedView>
    decreases es.len() - i,
{
    if i >= es.len() || i < 0 {
        seq![]
    } else if block_end(es[i]) {
        let (found, j) = look_past(es, i);
        let head = match found {
            Some((classes, id)) => AnnotatedView::Attributed { inner: es[i], classes, id },
            None => AnnotatedView::Standard(es[i]),
        };
        seq![head] + annotated_once_from(es, j)
    } else {
        seq![AnnotatedView::Standard(es[i])] + annotated_once_from(es, i + 1)
    }
}

fn look_past_of(events: &Vec<Event>, i: usize) -> (r: (Option<(Vec<String>, Option<String>)>, usize))
    requires
        i < events@.len(),
    ensures
        i < r.1 <= events@.len(),
        (match r.0 {
            Some((c, id)) => Some((string_views(c@), opt_view(id))),
            None => None,
        }) == look_past(event_views(events@), i as int).0,
        r.1 == look_past(event_views(events@), i as int).1,
{
    let n = events.len();
    if n - i <= 1 {
        return (None, i + 1);
    }
    let opens = match &events[i + 1] {
        Event::Start(Tag::Paragraph) => true,
        _ => false,
    };
    if !opens {
        return (None, i + 2);
    }
    if n - i <= 2 {
        return (None, i + 2);
    }
    if n - i <= 3 {
        return (None, i + 3);
    }
    match &events[i + 2] {
        Event::Text(text) => {
            let closes = match &events[i + 3] {
                Event::End(TagEnd::Paragraph) => true,
                _ => false,
            };
            if closes {
                (parse_attr_block(text.as_str()), i + 4)
            } else {
                (None, i + 4)
            }
        },
        _ => (None, i + 4),
    }
}

/// A single pass that attaches each attribute block that follows the end
/// of a block to that end event; it does not keep the events it reads past
/// a block end when they turn out not to hold an attribute block.
pub fn intercept_attributes(events: Vec<Event>) -> (r: Vec<AnnotatedEvent>)
    ensures
        annotated_views(r@) == annotated_once_from(event_views(events@), 0),
{
    let ghost es = event_views(events@);
    let n = events.len();
    let mut result: Vec<AnnotatedEvent> = Vec::new();
    let mut i: usize = 0;
    while i < n
        invariant
            n == events@.len() == es.len(),
            es == event_views(events@),
            annotated_views(result@) + annotated_once_from(es, i as int) == annotated_once_from(es, 0),
        decreases n - i,
    {
        let ghost before = annotated_views(result@);
        let event = copy_event(&events[i]);
        let next: usize;
        if is_block_end(&events[i]) {
            let (found, j) = look_past_of(&events, i);
            match found {
                Some((classes, id)) => {
                    result.push(AnnotatedEvent::Attributed { inner: event, classes, id });
                },
                None => {
                    result.push(AnnotatedEvent::Standard(event));
                },
            }
            next = j;
        } else {
            result.push(AnnotatedEvent::Standard(event));
            next = i + 1;
        }
        proof {
            assert(annotated_views(result@) =~= before.push(annotated_once_from(es, i as int)[0]));
            assert(annotated_once_from(es, i as int) =~= seq![annotated_once_from(es, i as int)[0]]
                + annotated_once_from(es, next as int));
            assert(annotated_views(result@) + annotated_once_from(es, next as int) =~= before
                + annotated_once_from(es, i as int));
        }
        i = next;
    }
    proof {
        assert(annotated_once_from(es, i as int) =~= Seq::<AnnotatedView>::empty());
        assert(annotated_views(result@) =~= annotated_once_from(es, 0));
    }
    result
}

proof fn lemma_plain_from(es: Seq<EventView>, i: int)
    requires
        0 <= i <= es.len(),
        forall|k: int| 0 <= k < es.len() ==> !(block_end(es[k]) && #[trigger] attr_paragraph(es, k) is Some),
    ensures
        annotated_from(es, i) == es.skip(i).map_values(|e: EventView| AnnotatedView::Standard(e)),
    decreases es.len() - i,
{
    if i < es.len() {
        lemma_plain_from(es, i + 1);
        assert(attr_paragraph(es, i) is None || !block_end(es[i]));
        assert(es.skip(i).map_values(|e: EventView| AnnotatedView::Standard(e)) =~= seq![
            AnnotatedView::Standard(es[i]),
        ] + es.skip(i + 1).map_values(|e: EventView| AnnotatedView::Standard(e)));
    } else {
        assert(es.skip(i).map_values(|e: EventView| AnnotatedView::Standard(e)) =~= Seq::<
            AnnotatedView,
        >::empty());
    }
}

/// A document in which no block end is followed by an attribute paragraph
/// passes through the attribute pass unchanged, every event standard.
pub proof fn law_no_attributes_no_change(es: Seq<EventView>)
    requires
        forall|k: int| 0 <= k < es.len() ==> !(block_end(es[k]) && #[trigger] attr_paragraph(es, k) is Some),
    ensures
        annotated_from(es, 0) == es.map_values(|e: EventView| AnnotatedView::Standard(e)),
{
    lemma_plain_from(es, 0);
    assert(es.skip(0) =~= es);
}

} // verus!
