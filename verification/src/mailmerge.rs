//! Mail-merge substitution of `{{field}}` tags in text and in Markdown templates.

use vstd::prelude::*;
use crate::md_events::{copy_event, event_views, Event, EventView, Tag, TagView};
use crate::text::{
    append, chars_of, contains_str, find, find_seq, lemma_find_bounds, seq_eq, slice_of,
    string_of, tail_of, trim, trim_of,
};

verus! {

/// The value of `key` in a record: the first entry with that key, or
/// nothing when there is none.
pub open spec fn record_value(record: Seq<(Seq<char>, Seq<char>)>, key: Seq<char>) -> Seq<char>
    decreases record.len(),
{
    if record.len() == 0 {
        seq![]
    } else if record[0].0 == key {
        record[0].1
    } else {
        record_value(record.drop_first(), key)
    }
}

/// The text of each field name and value of a record.
pub open spec fn record_views(record: Seq<(String, String)>) -> Seq<(Seq<char>, Seq<char>)> {
    record.map_values(|p: (String, String)| (p.0@, p.1@))
}

pub open spec fn close_tag() -> Seq<char> {
    seq!['}', '}']
}

/// `s` with each `{{ key }}` replaced by the record's value for the trimmed
/// key, and whether any tag was replaced. An opening `{{` with no closing
/// `}}` after it is kept, with the rest of the text, as it is.
pub open spec fn fill_tags(s: Seq<char>, record: Seq<(Seq<char>, Seq<char>)>) -> (Seq<char>, bool)
    decreases s.len(),
{
    if s.len() == 0 {
        (seq![], false)
    } else if s.len() >= 2 && s[0] == '{' && s[1] == '{' {
        let rest = s.skip(2);
        match find(rest, close_tag()) {
            Some(p) => {
                proof {
                    lemma_find_bounds(rest, close_tag());
                }
                let after = fill_tags(rest.skip(p + 2), record);
                (record_value(record, trim(rest.take(p))) + after.0, true)
            },
            None => (seq!['{', '{'] + rest, false),
        }
    } else {
        let after = fill_tags(s.drop_first(), record);
        (seq![s[0]] + after.0, after.1)
    }
}

/// What `replace_tags` returns: the filled text when the text holds `{{`
/// and some tag was replaced.
pub open spec fn replaced_tags(s: Seq<char>, record: Seq<(Seq<char>, Seq<char>)>) -> Option<Seq<char>> {
    if find(s, seq!['{', '{']) is Some {
        let f = fill_tags(s, record);
        if f.1 {
            Some(f.0)
        } else {
            None
        }
    } else {
        None
    }
}

fn record_value_of(record: &Vec<(String, String)>, key: &[char]) -> (r: Vec<char>)
    ensures
        r@ == record_value(record_views(record@), key@),
{
    let n = record.len();
    let mut i: usize = 0;
    assert(record_views(record@).skip(0) =~= record_views(record@));
    while i < n
        invariant
            n == record_views(record@).len(),
            i <= n,
            record_value(record_views(record@), key@) == record_value(record_views(record@).skip(i as int), key@),
        decreases n - i,
    {
        assert(record_views(record@).skip(i as int)[0] == record_views(record@)[i as int]);
        let k = chars_of(record[i].0.as_str());
        if seq_eq(k.as_slice(), key) {
            return chars_of(record[i].1.as_str());
        }
        assert(record_views(record@).skip(i as int).drop_first() =~= record_views(record@).skip(i + 1));
        i += 1;
    }
    Vec::new()
}

fn fill_tags_of(s: &[char], record: &Vec<(String, String)>) -> (r: (Vec<char>, bool))
    ensures
        (r.0@, r.1) == fill_tags(s@, record_views(record@)),
{
    let n = s.len();
    let mut out: Vec<char> = Vec::new();
    let mut any = false;
    let mut i: usize = 0;
    let close: Vec<char> = vec!['}', '}'];
    assert(close@ =~= close_tag());
    assert(s@.skip(0) =~= s@);
    while i < n
        invariant
            n == s@.len(),
            i <= n,
            close@ == close_tag(),
            fill_tags(s@, record_views(record@)) == (
                out@ + fill_tags(s@.skip(i as int), record_views(record@)).0,
                any || fill_tags(s@.skip(i as int), record_views(record@)).1,
            ),
        decreases n - i,
    {
        let ghost cur = s@.skip(i as int);
        assert(cur[0] == s@[i as int]);
        if i + 1 < n && s[i] == '{' && s[i + 1] == '{' {
            assert(cur[1] == s@[i + 1]);
            let rest = tail_of(s, i + 2);
            assert(rest@ =~= cur.skip(2));
            match find_seq(rest, close.as_slice()) {
                Some(p) => {
                    proof {
                        lemma_find_bounds(rest@, close_tag());
                    }
                    let key = slice_of(rest, 0, p);
                    let k = trim_of(key.as_slice());
                    let v = record_value_of(record, k.as_slice());
                    append(&mut out, v.as_slice());
                    any = true;
                    assert(rest@.skip(p + 2) =~= s@.skip(i + 2 + p + 2));
                    assert(key@ =~= rest@.take(p as int));
                    i = i + 2 + p + 2;
                },
                None => {
                    out.push('{');
                    out.push('{');
                    append(&mut out, rest);
                    assert(s@.skip(n as int) =~= Seq::<char>::empty());
                    i = n;
                },
            }
        } else {
            out.push(s[i]);
            assert(cur.drop_first() =~= s@.skip(i + 1));
            i += 1;
        }
    }
    assert(s@.skip(n as int) =~= Seq::<char>::empty());
    (out, any)
}

/// Replaces `{{field}}` tags in `text` with values from `record`: `Some`
/// with the new text when a tag was replaced (a missing field gives the
/// empty string), `None` when the text holds no complete tag.
pub fn replace_tags(text: &str, record: &Vec<(String, String)>) -> (r: Option<String>)
    ensures
        match r {
            Some(t) => replaced_tags(text@, record_views(record@)) == Some(t@),
            None => replaced_tags(text@, record_views(record@)) is None,
        },
{
    let s = chars_of(text);
    let open: Vec<char> = vec!['{', '{'];
    assert(open@ =~= seq!['{', '{']);
    match find_seq(s.as_slice(), open.as_slice()) {
        None => None,
        Some(_) => {
            let (out, any) = fill_tags_of(s.as_slice(), record);
            if any {
                Some(string_of(out.as_slice()))
            } else {
                None
            }
        },
    }
}

/// `s` with its tags filled in, or `s` itself when it has no complete tag.
pub open spec fn filled(s: Seq<char>, record: Seq<(Seq<char>, Seq<char>)>) -> Seq<char> {
    match replaced_tags(s, record) {
        Some(t) => t,
        None => s,
    }
}

/// An event of a template with its tags filled in: text, HTML, and the
/// destination and title of links and images; other events stay as they are.
pub open spec fn merged_event(e: EventView, record: Seq<(Seq<char>, Seq<char>)>) -> EventView {
    match e {
        EventView::Text(t) => EventView::Text(filled(t, record)),
        EventView::Html(h) => EventView::Html(filled(h, record)),
        EventView::Start(TagView::Link { dest_url, title }) => EventView::Start(
            TagView::Link { dest_url: filled(dest_url, record), title: filled(title, record) },
        ),
        EventView::Start(TagView::Image { dest_url, title }) => EventView::Start(
            TagView::Image { dest_url: filled(dest_url, record), title: filled(title, record) },
        ),
        _ => e,
    }
}

fn fill(s: &String, record: &Vec<(String, String)>) -> (r: String)
    ensures
        r@ == filled(s@, record_views(record@)),
{
    match replace_tags(s.as_str(), record) {
        Some(t) => t,
        None => s.clone(),
    }
}

/// Fills the tags of every event of a template from a record.
pub fn process_ast(template_events: &[Event], record: &Vec<(String, String)>) -> (r: Vec<Event>)
    ensures
        event_views(r@) == event_views(template_events@).map_values(
            |e: EventView| merged_event(e, record_views(record@)),
        ),
{
    let mut processed: Vec<Event> = Vec::new();
    let n = template_events.len();
    for i in 0..n
        invariant
            n == template_events@.len(),
            processed@.len() == i,
            forall|k: int|
                0 <= k < i ==> (#[trigger] processed@[k])@ == merged_event(template_events@[k]@, record_views(record@)),
    {
        let event = &template_events[i];
        let new_event = match event {
            Event::Text(text) => Event::Text(fill(text, record)),
            Event::Html(html) => Event::Html(fill(html, record)),
            Event::Start(Tag::Link { dest_url, title }) => Event::Start(
                Tag::Link { dest_url: fill(dest_url, record), title: fill(title, record) },
            ),
            Event::Start(Tag::Image { dest_url, title }) => Event::Start(
                Tag::Image { dest_url: fill(dest_url, record), title: fill(title, record) },
            ),
            _ => copy_event(event),
        };
        processed.push(new_event);
    }
    assert(event_views(processed@) =~= event_views(template_events@).map_values(
        |e: EventView| merged_event(e, record_views(record@)),
    ));
    processed
}

} // verus!
