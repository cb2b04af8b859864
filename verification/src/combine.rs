//! Joining several Markdown documents into one event stream. Each document
//! after the first starts on a new page, and the ids of each are prefixed
//! with its namespace so that cross-references stay within the document.

use vstd::prelude::*;
use crate::md_events::{copy_event, event_views, Event, EventView, Tag, TagView};
use crate::text::{append_str, chars_of, replace, replace_str, string_of, strip_prefix, strip_prefix_of};

verus! {

/// The HTML page break put between two documents.
pub open spec fn page_break() -> Seq<char> {
    "<div style=\"page-break-after: always;\"></div>\n"@
}

/// `ns-text`.
pub open spec fn prefixed(ns: Seq<char>, text: Seq<char>) -> Seq<char> {
    ns + "-"@ + text
}

/// An event of the document with namespace `ns`: heading ids and in-page
/// link targets are prefixed, and so are `id="` and `href="#` in raw HTML.
pub open spec fn namespaced(ns: Seq<char>, e: EventView) -> EventView {
    match e {
        EventView::Start(TagView::Heading { level, id }) => EventView::Start(
            TagView::Heading {
                level,
                id: match id {
                    Some(i) => Some(prefixed(ns, i)),
                    None => None,
                },
            },
        ),
        EventView::Start(TagView::Link { dest_url, title }) => EventView::Start(
            TagView::Link {
                dest_url: match strip_prefix(dest_url, "#"@) {
                    Some(rest) => "#"@ + prefixed(ns, rest),
                    None => dest_url,
                },
                title,
            },
        ),
        EventView::Html(h) => EventView::Html(
            replace(replace(h, "id=\""@, "id=\""@ + ns + "-"@), "href=\"#"@, "href=\"#"@ + ns + "-"@),
        ),
        _ => e,
    }
}

/// Concatenates the event streams of several documents.
pub struct AstConcatenator {
    events: Vec<Event>,
}

impl View for AstConcatenator {
    type V = Seq<EventView>;

    closed spec fn view(&self) -> Seq<EventView> {
        event_views(self.events@)
    }
}

impl Default for AstConcatenator {
    fn default() -> (r: Self)
        ensures
            r@ == Seq::<EventView>::empty(),
    {
        Self::new()
    }
}

/// `s` with `"<from>"` replaced by `"<from>ns-"`, the HTML attribute
/// prefixes being `from`.
fn prefix_attr(s: &[char], from: &str, ns: &str) -> (r: Vec<char>)
    requires
        from@.len() > 0,
    ensures
        r@ == replace(s@, from@, from@ + ns@ + "-"@),
{
    let mut to: Vec<char> = chars_of(from);
    append_str(&mut to, ns);
    append_str(&mut to, "-");
    let fv = chars_of(from);
    crate::text::replace_of(s, fv.as_slice(), to.as_slice())
}

impl AstConcatenator {
    pub fn new() -> (r: Self)
        ensures
            r@ == Seq::<EventView>::empty(),
    {
        let r = AstConcatenator { events: Vec::new() };
        assert(r@ =~= Seq::<EventView>::empty());
        r
    }

    pub fn with_capacity(capacity: usize) -> (r: Self)
        ensures
            r@ == Seq::<EventView>::empty(),
    {
        let r = AstConcatenator { events: Vec::with_capacity(capacity) };
        assert(r@ =~= Seq::<EventView>::empty());
        r
    }

    /// Appends a document's events under `namespace`, after a page break
    /// when it is not the first document.
    pub fn add_document(&mut self, namespace: &str, doc_events: Vec<Event>) -> (r: &mut Self)
        ensures
            r@ == old(self)@ + (if old(self)@.len() > 0 {
                seq![EventView::Html(page_break())]
            } else {
                seq![]
            }) + event_views(doc_events@).map_values(|e: EventView| namespaced(namespace@, e)),
            *final(self) == *final(r),
    {
        let ghost start = self@;
        if self.events.len() > 0 {
            self.events.push(Event::Html(String::from_str("<div style=\"page-break-after: always;\"></div>\n")));
        }
        let ghost base = self@;
        proof {
            reveal_strlit("#");
            reveal_strlit("id=\"");
            reveal_strlit("href=\"#");
        }
        let n = doc_events.len();
        for i in 0..n
            invariant
                n == doc_events@.len(),
                self@ == base + event_views(doc_events@).take(i as int).map_values(
                    |e: EventView| namespaced(namespace@, e),
                ),
        {
            proof {
                reveal_strlit("#");
                reveal_strlit("id=\"");
                reveal_strlit("href=\"#");
            }
            let event = &doc_events[i];
            let next = match event {
                Event::Start(Tag::Heading { level, id }) => Event::Start(
                    Tag::Heading {
                        level: *level,
                        id: match id {
                            Some(idv) => {
                                let mut v = chars_of(namespace);
                                append_str(&mut v, "-");
                                append_str(&mut v, idv.as_str());
                                assert(v@ =~= prefixed(namespace@, idv@));
                                Some(string_of(v.as_slice()))
                            },
                            None => None,
                        },
                    },
                ),
                Event::Start(Tag::Link { dest_url, title }) => {
                    let d = chars_of(dest_url.as_str());
                    let new_url = match strip_prefix_of(d.as_slice(), "#") {
                        Some(rest) => {
                            let mut v = chars_of("#");
                            append_str(&mut v, namespace);
                            append_str(&mut v, "-");
                            crate::text::append(&mut v, rest.as_slice());
                            assert(v@ =~= "#"@ + prefixed(namespace@, rest@));
                            string_of(v.as_slice())
                        },
                        None => dest_url.clone(),
                    };
                    Event::Start(Tag::Link { dest_url: new_url, title: title.clone() })
                },
                Event::Html(html) => {
                    let h = chars_of(html.as_str());
                    let a = prefix_attr(h.as_slice(), "id=\"", namespace);
                    let b = prefix_attr(a.as_slice(), "href=\"#", namespace);
                    Event::Html(string_of(b.as_slice()))
                },
                _ => copy_event(event),
            };
            let ghost prev = self@;
            self.events.push(next);
            proof {
                assert(event_views(doc_events@).take(i + 1) =~= event_views(doc_events@).take(
                    i as int,
                ).push(event@));
                assert(self@ =~= prev.push(next@));
                assert(next@ == namespaced(namespace@, event@));
                assert(self@ =~= base + event_views(doc_events@).take(i + 1).map_values(
                    |e: EventView| namespaced(namespace@, e),
                ));
            }
        }
        proof {
            assert(event_views(doc_events@).take(n as int) =~= event_views(doc_events@));
            assert(self@ =~= start + (if start.len() > 0 {
                seq![EventView::Html(page_break())]
            } else {
                seq![]
            }) + event_views(doc_events@).map_values(|e: EventView| namespaced(namespace@, e)));
        }
        self
    }

    /// The combined event stream.
    pub fn build(self) -> (r: Vec<Event>)
        ensures
            event_views(r@) == self@,
    {
        self.events
    }
}

} // verus!
