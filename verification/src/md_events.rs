//! The events of a parsed Markdown document, as the writers read them: the
//! start and end of each block and inline container, text, code, math and
//! breaks.

use vstd::prelude::*;

verus! {

#[derive(Debug, Clone, Copy, PartialEq, Eq)]
pub enum HeadingLevel {
    H1,
    H2,
    H3,
    H4,
    H5,
    H6,
}

#[derive(Debug, Clone, Copy, PartialEq, Eq)]
pub enum Alignment {
    Unaligned,
    Left,
    Center,
    Right,
}

/// The opening of a container.
#[derive(Debug, Clone)]
pub enum Tag {
    /// A heading, with the id its attributes give it.
    Heading { level: HeadingLevel, id: Option<String> },
    Paragraph,
    BlockQuote,
    /// A fenced code block with its info string.
    FencedCode(String),
    IndentedCode,
    /// A list, numbered from the given start when ordered.
    List(Option<u64>),
    Item,
    Table(Vec<Alignment>),
    TableHead,
    TableRow,
    TableCell,
    Emphasis,
    Strong,
    Strikethrough,
    Link { dest_url: String, title: String },
    Image { dest_url: String, title: String },
    /// The definition of a footnote, with its label.
    FootnoteDefinition(String),
    /// A container the writers do not read.
    Other,
}

/// The closing of a container.
#[derive(Debug, Clone, Copy, PartialEq, Eq)]
pub enum TagEnd {
    Heading(HeadingLevel),
    Paragraph,
    BlockQuote,
    CodeBlock,
    /// The end of a list, ordered or not.
    List(bool),
    Item,
    Table,
    TableHead,
    TableRow,
    TableCell,
    Emphasis,
    Strong,
    Strikethrough,
    Link,
    Image,
    FootnoteDefinition,
    Other,
}

/// One event of a Markdown document.
#[derive(Debug, Clone)]
pub enum Event {
    Start(Tag),
    End(TagEnd),
    Text(String),
    Code(String),
    InlineMath(String),
    DisplayMath(String),
    FootnoteReference(String),
    Html(String),
    InlineHtml(String),
    SoftBreak,
    HardBreak,
    Rule,
    /// An event the writers do not read.
    Other,
}

pub ghost enum TagView {
    Heading { level: HeadingLevel, id: Option<Seq<char>> },
    Paragraph,
    BlockQuote,
    FencedCode(Seq<char>),
    IndentedCode,
    List(Option<u64>),
    Item,
    Table(Seq<Alignment>),
    TableHead,
    TableRow,
    TableCell,
    Emphasis,
    Strong,
    Strikethrough,
    Link { dest_url: Seq<char>, title: Seq<char> },
    Image { dest_url: Seq<char>, title: Seq<char> },
    FootnoteDefinition(Seq<char>),
    Other,
}

impl View for Tag {
    type V = TagView;

    open spec fn view(&self) -> TagView {
        match self {
            Tag::Heading { level, id } => TagView::Heading {
                level: *level,
                id: match id {
                    Some(i) => Some(i@),
                    None => None,
                },
            },
            Tag::Paragraph => TagView::Paragraph,
            Tag::BlockQuote => TagView::BlockQuote,
            Tag::FencedCode(s) => TagView::FencedCode(s@),
            Tag::IndentedCode => TagView::IndentedCode,
            Tag::List(n) => TagView::List(*n),
            Tag::Item => TagView::Item,
            Tag::Table(a) => TagView::Table(a@),
            Tag::TableHead => TagView::TableHead,
            Tag::TableRow => TagView::TableRow,
            Tag::TableCell => TagView::TableCell,
            Tag::Emphasis => TagView::Emphasis,
            Tag::Strong => TagView::Strong,
            Tag::Strikethrough => TagView::Strikethrough,
            Tag::Link { dest_url, title } => TagView::Link { dest_url: dest_url@, title: title@ },
            Tag::Image { dest_url, title } => TagView::Image { dest_url: dest_url@, title: title@ },
            Tag::FootnoteDefinition(l) => TagView::FootnoteDefinition(l@),
            Tag::Other => TagView::Other,
        }
    }
}

pub ghost enum EventView {
    Start(TagView),
    End(TagEnd),
    Text(Seq<char>),
    Code(Seq<char>),
    InlineMath(Seq<char>),
    DisplayMath(Seq<char>),
    FootnoteReference(Seq<char>),
    Html(Seq<char>),
    InlineHtml(Seq<char>),
    SoftBreak,
    HardBreak,
    Rule,
    Other,
}

impl View for Event {
    type V = EventView;

    open spec fn view(&self) -> EventView {
        match self {
            Event::Start(t) => EventView::Start(t@),
            Event::End(t) => EventView::End(*t),
            Event::Text(s) => EventView::Text(s@),
            Event::Code(s) => EventView::Code(s@),
            Event::InlineMath(s) => EventView::InlineMath(s@),
            Event::DisplayMath(s) => EventView::DisplayMath(s@),
            Event::FootnoteReference(s) => EventView::FootnoteReference(s@),
            Event::Html(s) => EventView::Html(s@),
            Event::InlineHtml(s) => EventView::InlineHtml(s@),
            Event::SoftBreak => EventView::SoftBreak,
            Event::HardBreak => EventView::HardBreak,
            Event::Rule => EventView::Rule,
            Event::Other => EventView::Other,
        }
    }
}

pub open spec fn event_views(v: Seq<Event>) -> Seq<EventView> {
    v.map_values(|e: Event| e@)
}

/// A copy of a tag.
pub fn copy_tag(t: &Tag) -> (r: Tag)
    ensures
        r@ == t@,
{
    match t {
        Tag::Heading { level, id } => Tag::Heading {
            level: *level,
            id: match id {
                Some(i) => Some(i.clone()),
                None => None,
            },
        },
        Tag::Paragraph => Tag::Paragraph,
        Tag::BlockQuote => Tag::BlockQuote,
        Tag::FencedCode(s) => Tag::FencedCode(s.clone()),
        Tag::IndentedCode => Tag::IndentedCode,
        Tag::List(n) => Tag::List(*n),
        Tag::Item => Tag::Item,
        Tag::Table(a) => {
            let c = a.clone();
            assert(c@ =~= a@);
            Tag::Table(c)
        },
        Tag::TableHead => Tag::TableHead,
        Tag::TableRow => Tag::TableRow,
        Tag::TableCell => Tag::TableCell,
        Tag::Emphasis => Tag::Emphasis,
        Tag::Strong => Tag::Strong,
        Tag::Strikethrough => Tag::Strikethrough,
        Tag::Link { dest_url, title } => Tag::Link { dest_url: dest_url.clone(), title: title.clone() },
        Tag::Image { dest_url, title } => Tag::Image { dest_url: dest_url.clone(), title: title.clone() },
        Tag::FootnoteDefinition(l) => Tag::FootnoteDefinition(l.clone()),
        Tag::Other => Tag::Other,
    }
}

/// A copy of an event.
pub fn copy_event(e: &Event) -> (r: Event)
    ensures
        r@ == e@,
{
    match e {
        Event::Start(t) => Event::Start(copy_tag(t)),
        Event::End(t) => Event::End(*t),
        Event::Text(s) => Event::Text(s.clone()),
        Event::Code(s) => Event::Code(s.clone()),
        Event::InlineMath(s) => Event::InlineMath(s.clone()),
        Event::DisplayMath(s) => Event::DisplayMath(s.clone()),
        Event::FootnoteReference(s) => Event::FootnoteReference(s.clone()),
        Event::Html(s) => Event::Html(s.clone()),
        Event::InlineHtml(s) => Event::InlineHtml(s.clone()),
        Event::SoftBreak => Event::SoftBreak,
        Event::HardBreak => Event::HardBreak,
        Event::Rule => Event::Rule,
        Event::Other => Event::Other,
    }
}

} // verus!
