//! Writing a Markdown document as a Marp slide deck: YAML front matter with
//! the Marp directives, then the document serialized back to CommonMark,
//! with a `---` slide separator for each rule and before each level-one or
//! level-two heading after the first heading.

use vstd::prelude::*;
use crate::config::Config;
use crate::md_events::{Alignment, Event, HeadingLevel, Tag, TagEnd};
use crate::text::{
    append, append_str, chars_of, copy_chars, decimal_of_u64, lines, lines_of, nat_decimal, replace,
    replace_str, string_of, views,
};

verus! {

// ── The serializer's state ───────────────────────────────────────────────────

#[verifier::ext_equal]
pub ghost struct Ser {
    pub in_heading: bool,
    pub heading_prefix: Seq<char>,
    pub heading_count: int,
    pub in_paragraph: bool,
    pub blockquote_depth: int,
    pub in_code_block: bool,
    pub list_stack: Seq<Option<int>>,
    pub pending_item_prefix: Option<Seq<char>>,
    pub bold_depth: int,
    pub italic_depth: int,
    pub strikethrough: bool,
    pub in_link: bool,
    pub link_url: Seq<char>,
    pub link_title: Seq<char>,
    pub link_text_buf: Seq<char>,
    pub in_image: bool,
    pub image_url: Seq<char>,
    pub image_title: Seq<char>,
    pub image_alt_buf: Seq<char>,
    pub in_table: bool,
    pub in_table_head: bool,
    pub table_row_idx: int,
    pub table_cells: Seq<Seq<char>>,
    pub table_alignments: Seq<Alignment>,
    pub inline_buf: Seq<char>,
}

pub open spec fn initial() -> Ser {
    Ser {
        in_heading: false,
        heading_prefix: seq![],
        heading_count: 0,
        in_paragraph: false,
        blockquote_depth: 0,
        in_code_block: false,
        list_stack: seq![],
        pending_item_prefix: None,
        bold_depth: 0,
        italic_depth: 0,
        strikethrough: false,
        in_link: false,
        link_url: seq![],
        link_title: seq![],
        link_text_buf: seq![],
        in_image: false,
        image_url: seq![],
        image_title: seq![],
        image_alt_buf: seq![],
        in_table: false,
        in_table_head: false,
        table_row_idx: 0,
        table_cells: seq![],
        table_alignments: seq![],
        inline_buf: seq![],
    }
}

/// `"> "` repeated `d` times.
pub open spec fn quote_marks(d: int) -> Seq<char>
    decreases d,
{
    if d <= 0 {
        seq![]
    } else {
        quote_marks(d - 1) + "> "@
    }
}

/// Two spaces repeated `d` times.
pub open spec fn indent(d: int) -> Seq<char>
    decreases d,
{
    if d <= 0 {
        seq![]
    } else {
        indent(d - 1) + "  "@
    }
}

/// `text` wrapped in the active strikethrough, emphasis and strong markers.
pub open spec fn formatted(st: Ser, text: Seq<char>, apply: bool) -> Seq<char> {
    if apply {
        let s1 = if st.strikethrough {
            "~~"@ + text + "~~"@
        } else {
            text
        };
        let s2 = if st.italic_depth > 0 {
            "*"@ + s1 + "*"@
        } else {
            s1
        };
        if st.bold_depth > 0 {
            "**"@ + s2 + "**"@
        } else {
            s2
        }
    } else {
        text
    }
}

/// Adding inline text: into the current table cell, or the link text, or
/// the inline buffer after any pending heading or list-item prefix.
pub open spec fn push_text(st: Ser, text: Seq<char>, apply: bool) -> (Ser, Seq<char>) {
    let f = formatted(st, text, apply);
    if st.in_table && st.table_cells.len() > 0 {
        let k = st.table_cells.len() - 1;
        (Ser { table_cells: st.table_cells.update(k, st.table_cells[k] + f), ..st }, seq![])
    } else if st.in_link {
        (Ser { link_text_buf: st.link_text_buf + text, ..st }, seq![])
    } else {
        let o1 = if st.in_heading {
            st.heading_prefix
        } else {
            seq![]
        };
        let st1 = if st.in_heading {
            Ser { in_heading: false, heading_prefix: seq![], ..st }
        } else {
            st
        };
        let o2 = match st1.pending_item_prefix {
            Some(p) => quote_marks(st1.blockquote_depth) + p,
            None => if st1.in_paragraph && st1.inline_buf.len() == 0 {
                quote_marks(st1.blockquote_depth)
            } else {
                seq![]
            },
        };
        (Ser { pending_item_prefix: None, inline_buf: st1.inline_buf + f, ..st1 }, o1 + o2)
    }
}

/// Writing out the inline buffer, and a heading prefix not yet written.
pub open spec fn flush(st: Ser) -> (Ser, Seq<char>) {
    let st1 = Ser { inline_buf: seq![], ..st };
    if st.in_heading && st.heading_prefix.len() > 0 {
        (Ser { heading_prefix: seq![], in_heading: false, ..st1 }, st.inline_buf + st.heading_prefix)
    } else {
        (st1, st.inline_buf)
    }
}

pub open spec fn hashes(l: HeadingLevel) -> Seq<char> {
    match l {
        HeadingLevel::H1 => "#"@,
        HeadingLevel::H2 => "##"@,
        HeadingLevel::H3 => "###"@,
        HeadingLevel::H4 => "####"@,
        HeadingLevel::H5 => "#####"@,
        HeadingLevel::H6 => "######"@,
    }
}

pub open spec fn row_cells(cells: Seq<Seq<char>>) -> Seq<char>
    decreases cells.len(),
{
    if cells.len() == 0 {
        seq![]
    } else {
        row_cells(cells.drop_last()) + " "@ + cells.last() + " |"@
    }
}

/// A pipe-table row.
pub open spec fn table_row(cells: Seq<Seq<char>>) -> Seq<char> {
    "|"@ + row_cells(cells) + "\n"@
}

pub open spec fn align_sep(a: Alignment) -> Seq<char> {
    match a {
        Alignment::Left => " :--- |"@,
        Alignment::Center => " :---: |"@,
        Alignment::Right => " ---: |"@,
        Alignment::Unaligned => " --- |"@,
    }
}

/// The separator cells of the first `k` columns.
pub open spec fn sep_cells(aligns: Seq<Alignment>, k: int) -> Seq<char>
    decreases k,
{
    if k <= 0 {
        seq![]
    } else {
        sep_cells(aligns, k - 1) + align_sep(
            if k - 1 < aligns.len() {
                aligns[k - 1]
            } else {
                Alignment::Unaligned
            },
        )
    }
}

/// The separator row under a table head of `count` cells.
pub open spec fn table_separator(aligns: Seq<Alignment>, count: int) -> Seq<char> {
    "|"@ + sep_cells(
        aligns,
        if count > aligns.len() {
            count
        } else {
            aligns.len() as int
        },
    ) + "\n"@
}

/// The lines of code-block text, each after the block-quote marks.
pub open spec fn code_lines(d: int, ls: Seq<Seq<char>>) -> Seq<char>
    decreases ls.len(),
{
    if ls.len() == 0 {
        seq![]
    } else {
        code_lines(d, ls.drop_last()) + quote_marks(d) + ls.last() + "\n"@
    }
}

pub open spec fn link_text(text: Seq<char>, url: Seq<char>, title: Seq<char>) -> Seq<char> {
    if title.len() == 0 {
        "["@ + text + "]("@ + url + ")"@
    } else {
        "["@ + text + "]("@ + url + " \""@ + title + "\")"@
    }
}

/// One event: the new state and what is written.
pub open spec fn step(st: Ser, e: Event) -> (Ser, Seq<char>) {
    match e {
        Event::Rule => {
            let (s1, o1) = flush(st);
            (s1, o1 + "\n---\n\n"@)
        },
        Event::Start(Tag::Heading { level, .. }) => {
            let (s1, o1) = flush(st);
            let sep = if (level == HeadingLevel::H1 || level == HeadingLevel::H2) && s1.heading_count > 0 {
                "\n---\n\n"@
            } else {
                seq![]
            };
            (Ser { in_heading: true, heading_prefix: hashes(level) + " "@, ..s1 }, o1 + sep)
        },
        Event::End(TagEnd::Heading(_)) => {
            let s0 = Ser { in_heading: false, heading_count: st.heading_count + 1, ..st };
            let (s1, o1) = flush(s0);
            (s1, o1 + "\n\n"@)
        },
        Event::Start(Tag::Paragraph) => (Ser { in_paragraph: true, ..st }, seq![]),
        Event::End(TagEnd::Paragraph) => {
            let (s1, o1) = flush(Ser { in_paragraph: false, ..st });
            (s1, o1 + "\n\n"@)
        },
        Event::Start(Tag::BlockQuote) => (Ser { blockquote_depth: st.blockquote_depth + 1, ..st }, seq![]),
        Event::End(TagEnd::BlockQuote) => (
            Ser {
                blockquote_depth: if st.blockquote_depth > 0 {
                    st.blockquote_depth - 1
                } else {
                    0
                },
                ..st
            },
            "\n"@,
        ),
        Event::Start(Tag::FencedCode(lang)) => {
            let (s1, o1) = flush(st);
            (Ser { in_code_block: true, ..s1 }, o1 + "```"@ + lang@ + "\n"@)
        },
        Event::Start(Tag::IndentedCode) => {
            let (s1, o1) = flush(st);
            (Ser { in_code_block: true, ..s1 }, o1 + "```\n"@)
        },
        Event::End(TagEnd::CodeBlock) => (Ser { in_code_block: false, ..st }, "```\n\n"@),
        Event::Start(Tag::List(start)) => (
            Ser {
                list_stack: st.list_stack.push(
                    match start {
                        Some(n) => Some(n as int),
                        None => None,
                    },
                ),
                ..st
            },
            seq![],
        ),
        Event::End(TagEnd::List(_)) => {
            let ls = if st.list_stack.len() > 0 {
                st.list_stack.drop_last()
            } else {
                st.list_stack
            };
            (Ser { list_stack: ls, ..st }, if ls.len() == 0 {
                "\n"@
            } else {
                seq![]
            })
        },
        Event::Start(Tag::Item) => {
            let (s1, o1) = flush(st);
            let depth = if s1.list_stack.len() > 0 {
                s1.list_stack.len() - 1
            } else {
                0
            };
            if s1.list_stack.len() > 0 && s1.list_stack.last() is Some {
                let n = s1.list_stack.last()->0;
                let k = s1.list_stack.len() - 1;
                (
                    Ser {
                        list_stack: s1.list_stack.update(k, Some(n + 1)),
                        pending_item_prefix: Some(indent(depth) + nat_decimal(n as nat) + ". "@),
                        ..s1
                    },
                    o1,
                )
            } else {
                (Ser { pending_item_prefix: Some(indent(depth) + "- "@), ..s1 }, o1)
            }
        },
        Event::End(TagEnd::Item) => {
            let (s1, o1) = flush(st);
            (s1, o1 + "\n"@)
        },
        Event::Start(Tag::Table(aligns)) => {
            let (s1, o1) = flush(st);
            (
                Ser {
                    table_alignments: aligns@,
                    in_table: true,
                    table_row_idx: 0,
                    table_cells: seq![],
                    ..s1
                },
                o1,
            )
        },
        Event::End(TagEnd::Table) => (Ser { in_table: false, ..st }, "\n"@),
        Event::Start(Tag::TableHead) => (Ser { in_table_head: true, ..st }, seq![]),
        Event::End(TagEnd::TableHead) => (
            Ser { in_table_head: false, table_cells: seq![], ..st },
            table_row(st.table_cells) + table_separator(st.table_alignments, st.table_cells.len() as int),
        ),
        Event::Start(Tag::TableRow) => (Ser { table_cells: seq![], ..st }, seq![]),
        Event::End(TagEnd::TableRow) => (
            Ser { table_cells: seq![], table_row_idx: st.table_row_idx + 1, ..st },
            table_row(st.table_cells),
        ),
        Event::Start(Tag::TableCell) => (Ser { table_cells: st.table_cells.push(seq![]), ..st }, seq![]),
        Event::End(TagEnd::TableCell) => (st, seq![]),
        Event::Start(Tag::Strong) => (Ser { bold_depth: st.bold_depth + 1, ..st }, seq![]),
        Event::End(TagEnd::Strong) => (
            Ser {
                bold_depth: if st.bold_depth > 0 {
                    st.bold_depth - 1
                } else {
                    0
                },
                ..st
            },
            seq![],
        ),
        Event::Start(Tag::Emphasis) => (Ser { italic_depth: st.italic_depth + 1, ..st }, seq![]),
        Event::End(TagEnd::Emphasis) => (
            Ser {
                italic_depth: if st.italic_depth > 0 {
                    st.italic_depth - 1
                } else {
                    0
                },
                ..st
            },
            seq![],
        ),
        Event::Start(Tag::Strikethrough) => (Ser { strikethrough: true, ..st }, seq![]),
        Event::End(TagEnd::Strikethrough) => (Ser { strikethrough: false, ..st }, seq![]),
        Event::Start(Tag::Link { dest_url, title }) => (
            Ser { link_url: dest_url@, link_title: title@, in_link: true, link_text_buf: seq![], ..st },
            seq![],
        ),
        Event::End(TagEnd::Link) => {
            let s0 = Ser { in_link: false, link_text_buf: seq![], ..st };
            push_text(s0, link_text(st.link_text_buf, st.link_url, st.link_title), false)
        },
        Event::Start(Tag::Image { dest_url, title }) => (
            Ser {
                image_url: dest_url@,
                image_title: title@,
                image_alt_buf: seq![],
                in_image: true,
                ..st
            },
            seq![],
        ),
        Event::End(TagEnd::Image) => {
            let s0 = Ser { in_image: false, image_alt_buf: seq![], ..st };
            push_text(s0, "!"@ + link_text(st.image_alt_buf, st.image_url, st.image_title), false)
        },
        Event::Code(t) => push_text(st, "`"@ + t@ + "`"@, false),
        Event::Text(t) => {
            if st.in_image {
                (Ser { image_alt_buf: st.image_alt_buf + t@, ..st }, seq![])
            } else if st.in_link {
                (Ser { link_text_buf: st.link_text_buf + t@, ..st }, seq![])
            } else if st.in_code_block {
                (st, code_lines(st.blockquote_depth, lines(t@)))
            } else {
                push_text(st, t@, true)
            }
        },
        Event::SoftBreak => push_text(st, "\n"@, false),
        Event::HardBreak => push_text(st, "  \n"@, false),
        Event::InlineMath(m) => push_text(st, "$"@ + m@ + "$"@, false),
        Event::DisplayMath(m) => {
            let (s1, o1) = flush(st);
            (s1, o1 + "$$\n"@ + m@ + "\n$$\n\n"@)
        },
        Event::FootnoteReference(l) => push_text(st, "[^"@ + l@ + "]"@, false),
        _ => (st, seq![]),
    }
}

/// The state after a run of events, and all that was written.
pub open spec fn run(st: Ser, es: Seq<Event>) -> (Ser, Seq<char>)
    decreases es.len(),
{
    if es.len() == 0 {
        (st, seq![])
    } else {
        let r = run(st, es.drop_last());
        let s = step(r.0, es.last());
        (s.0, r.1 + s.1)
    }
}

/// A front-matter value in double quotes, its own quotes escaped.
pub open spec fn quoted(s: Seq<char>) -> Seq<char> {
    "\""@ + replace(s, "\""@, "\\\""@) + "\"\n"@
}

/// The Marp front matter: the directives, and the title, author and date
/// that are set.
pub open spec fn front_matter(c: Config) -> Seq<char> {
    "---\nmarp: true\nheadingDivider: 2\npaginate: true\ntheme: default\n"@ + (if c.title@.len() > 0 {
        "title: "@ + quoted(c.title@)
    } else {
        seq![]
    }) + (if c.author@.len() > 0 {
        "author: "@ + quoted(c.author@)
    } else {
        seq![]
    }) + (if c.date@.len() > 0 {
        "date: "@ + quoted(c.date@)
    } else {
        seq![]
    }) + "math: katex\n---\n\n"@
}

/// The Marp deck of a document.
pub open spec fn marp_document(events: Seq<Event>, c: Config) -> Seq<char> {
    front_matter(c) + run(initial(), events).1
}

// ── The serializer ───────────────────────────────────────────────────────────

struct SerState {
    in_heading: bool,
    heading_prefix: Vec<char>,
    heading_count: usize,
    in_paragraph: bool,
    blockquote_depth: usize,
    in_code_block: bool,
    list_stack: Vec<Option<u64>>,
    pending_item_prefix: Option<Vec<char>>,
    bold_depth: usize,
    italic_depth: usize,
    strikethrough: bool,
    in_link: bool,
    link_url: Vec<char>,
    link_title: Vec<char>,
    link_text_buf: Vec<char>,
    in_image: bool,
    image_url: Vec<char>,
    image_title: Vec<char>,
    image_alt_buf: Vec<char>,
    in_table: bool,
    in_table_head: bool,
    table_row_idx: usize,
    table_cells: Vec<Vec<char>>,
    table_alignments: Vec<Alignment>,
    inline_buf: Vec<char>,
}

spec fn num_views(v: Seq<Option<u64>>) -> Seq<Option<int>> {
    v.map_values(
        |o: Option<u64>|
            match o {
                Some(n) => Some(n as int),
                None => None,
            },
    )
}

impl View for SerState {
    type V = Ser;

    closed spec fn view(&self) -> Ser {
        Ser {
            in_heading: self.in_heading,
            heading_prefix: self.heading_prefix@,
            heading_count: self.heading_count as int,
            in_paragraph: self.in_paragraph,
            blockquote_depth: self.blockquote_depth as int,
            in_code_block: self.in_code_block,
            list_stack: num_views(self.list_stack@),
            pending_item_prefix: match self.pending_item_prefix {
                Some(p) => Some(p@),
                None => None,
            },
            bold_depth: self.bold_depth as int,
            italic_depth: self.italic_depth as int,
            strikethrough: self.strikethrough,
            in_link: self.in_link,
            link_url: self.link_url@,
            link_title: self.link_title@,
            link_text_buf: self.link_text_buf@,
            in_image: self.in_image,
            image_url: self.image_url@,
            image_title: self.image_title@,
            image_alt_buf: self.image_alt_buf@,
            in_table: self.in_table,
            in_table_head: self.in_table_head,
            table_row_idx: self.table_row_idx as int,
            table_cells: views(self.table_cells@),
            table_alignments: self.table_alignments@,
            inline_buf: self.inline_buf@,
        }
    }
}

fn quote_marks_of(d: usize) -> (r: Vec<char>)
    ensures
        r@ == quote_marks(d as int),
{
    let mut r: Vec<char> = Vec::new();
    for i in 0..d
        invariant
            r@ == quote_marks(i as int),
    {
        append_str(&mut r, "> ");
    }
    r
}

fn indent_of(d: usize) -> (r: Vec<char>)
    ensures
        r@ == indent(d as int),
{
    let mut r: Vec<char> = Vec::new();
    for i in 0..d
        invariant
            r@ == indent(i as int),
    {
        append_str(&mut r, "  ");
    }
    r
}

fn formatted_of(st: &SerState, text: &[char], apply: bool) -> (r: Vec<char>)
    ensures
        r@ == formatted(st@, text@, apply),
{
    let mut s = copy_chars(text);
    if apply {
        if st.strikethrough {
            let mut t: Vec<char> = Vec::new();
            append_str(&mut t, "~~");
            append(&mut t, s.as_slice());
            append_str(&mut t, "~~");
            s = t;
        }
        if st.italic_depth > 0 {
            let mut t: Vec<char> = Vec::new();
            append_str(&mut t, "*");
            append(&mut t, s.as_slice());
            append_str(&mut t, "*");
            s = t;
        }
        if st.bold_depth > 0 {
            let mut t: Vec<char> = Vec::new();
            append_str(&mut t, "**");
            append(&mut t, s.as_slice());
            append_str(&mut t, "**");
            s = t;
        }
    }
    s
}

fn push_text_exec(st: &mut SerState, out: &mut Vec<char>, text: &[char], apply: bool)
    ensures
        final(st)@ == push_text(old(st)@, text@, apply).0,
        final(out)@ == old(out)@ + push_text(old(st)@, text@, apply).1,
{
    let ghost s0 = st@;
    let f = formatted_of(st, text, apply);
    if st.in_table && st.table_cells.len() > 0 {
        let k = st.table_cells.len() - 1;
        let mut c = copy_chars(st.table_cells[k].as_slice());
        append(&mut c, f.as_slice());
        st.table_cells.set(k, c);
        proof {
            assert(views(st.table_cells@) =~= s0.table_cells.update(k as int, s0.table_cells[k as int] + f@));
            assert(st@ =~= push_text(s0, text@, apply).0);
            assert(out@ =~= old(out)@ + seq![]);
        }
        return;
    }
    if st.in_link {
        append(&mut st.link_text_buf, text);
        proof {
            assert(st@ =~= push_text(s0, text@, apply).0);
            assert(out@ =~= old(out)@ + seq![]);
        }
        return;
    }
    let ghost o0 = out@;
    if st.in_heading {
        append(out, st.heading_prefix.as_slice());
        st.in_heading = false;
        st.heading_prefix = Vec::new();
    }
    let ghost o1 = out@;
    let ghost s1 = st@;
    match st.pending_item_prefix.take() {
        Some(prefix) => {
            let bq = quote_marks_of(st.blockquote_depth);
            append(out, bq.as_slice());
            append(out, prefix.as_slice());
        },
        None => {
            if st.in_paragraph && st.inline_buf.len() == 0 {
                let bq = quote_marks_of(st.blockquote_depth);
                append(out, bq.as_slice());
            }
        },
    }
    append(&mut st.inline_buf, f.as_slice());
    proof {
        assert(st@ =~= push_text(s0, text@, apply).0);
        assert(out@ =~= old(out)@ + push_text(s0, text@, apply).1);
    }
}

fn flush_exec(st: &mut SerState, out: &mut Vec<char>)
    ensures
        final(st)@ == flush(old(st)@).0,
        final(out)@ == old(out)@ + flush(old(st)@).1,
{
    let ghost s0 = st@;
    append(out, st.inline_buf.as_slice());
    st.inline_buf = Vec::new();
    if st.in_heading && st.heading_prefix.len() > 0 {
        append(out, st.heading_prefix.as_slice());
        st.heading_prefix = Vec::new();
        st.in_heading = false;
    }
    proof {
        assert(st@ =~= flush(s0).0);
        assert(out@ =~= old(out)@ + flush(s0).1);
    }
}

/// The counters of `st` can grow once for each of `rest` more events.
spec fn fits(st: Ser, rest: int) -> bool {
    &&& st.heading_count + rest <= usize::MAX
    &&& st.blockquote_depth + rest <= usize::MAX
    &&& st.bold_depth + rest <= usize::MAX
    &&& st.italic_depth + rest <= usize::MAX
    &&& st.table_row_idx + rest <= usize::MAX
    &&& forall|k: int| 0 <= k < st.list_stack.len() && #[trigger] st.list_stack[k] is Some ==> st.list_stack[k]->0 + rest <= u64::MAX
}

fn text_of(s: &String) -> (r: Vec<char>)
    ensures
        r@ == s@,
{
    chars_of(s.as_str())
}

fn table_row_of(cells: &Vec<Vec<char>>, out: &mut Vec<char>)
    ensures
        final(out)@ == old(out)@ + table_row(views(cells@)),
{
    let ghost o0 = out@;
    append_str(out, "|");
    let n = cells.len();
    for i in 0..n
        invariant
            n == cells@.len(),
            out@ == o0 + "|"@ + row_cells(views(cells@).take(i as int)),
    {
        append_str(out, " ");
        append(out, cells[i].as_slice());
        append_str(out, " |");
        proof {
            assert(views(cells@).take(i + 1).drop_last() =~= views(cells@).take(i as int));
        }
    }
    append_str(out, "\n");
    proof {
        assert(views(cells@).take(n as int) =~= views(cells@));
    }
}

fn table_separator_of(aligns: &Vec<Alignment>, count: usize, out: &mut Vec<char>)
    ensures
        final(out)@ == old(out)@ + table_separator(aligns@, count as int),
{
    let ghost o0 = out@;
    let total = if count > aligns.len() {
        count
    } else {
        aligns.len()
    };
    append_str(out, "|");
    for i in 0..total
        invariant
            out@ == o0 + "|"@ + sep_cells(aligns@, i as int),
    {
        let a = if i < aligns.len() {
            aligns[i]
        } else {
            Alignment::Unaligned
        };
        let sep: &str = match a {
            Alignment::Left => " :--- |",
            Alignment::Center => " :---: |",
            Alignment::Right => " ---: |",
            Alignment::Unaligned => " --- |",
        };
        append_str(out, sep);
    }
    append_str(out, "\n");
}

/// Which of four groups of events `e` belongs to: block structure,
/// lists and tables, inline markers, or inline content.
spec fn event_kind(e: Event) -> int {
    match e {
        Event::Rule | Event::DisplayMath(_) => 0,
        Event::Start(Tag::Heading { .. }) | Event::End(TagEnd::Heading(_)) | Event::Start(Tag::Paragraph)
        | Event::End(TagEnd::Paragraph) | Event::Start(Tag::BlockQuote) | Event::End(TagEnd::BlockQuote)
        | Event::Start(Tag::FencedCode(_)) | Event::Start(Tag::IndentedCode) | Event::End(
            TagEnd::CodeBlock,
        ) => 0,
        Event::Start(Tag::List(_)) | Event::End(TagEnd::List(_)) | Event::Start(Tag::Item) | Event::End(
            TagEnd::Item,
        ) | Event::Start(Tag::Table(_)) | Event::End(TagEnd::Table) | Event::Start(Tag::TableHead)
        | Event::End(TagEnd::TableHead) | Event::Start(Tag::TableRow) | Event::End(TagEnd::TableRow)
        | Event::Start(Tag::TableCell) | Event::End(TagEnd::TableCell) => 1,
        Event::Start(Tag::Strong) | Event::End(TagEnd::Strong) | Event::Start(Tag::Emphasis) | Event::End(
            TagEnd::Emphasis,
        ) | Event::Start(Tag::Strikethrough) | Event::End(TagEnd::Strikethrough) | Event::Start(
            Tag::Link { .. },
        ) | Event::Start(Tag::Image { .. }) => 2,
        _ => 3,
    }
}

#[verifier::rlimit(100)]
#[verifier::spinoff_prover]
fn step_block(st: &mut SerState, out: &mut Vec<char>, e: &Event, rest: Ghost<int>)
    requires
        event_kind(*e) == 0,
        fits(old(st)@, rest@),
        rest@ >= 1,
        e matches Event::Start(Tag::List(Some(n))) ==> n + rest@ <= u64::MAX,
    ensures
        final(st)@ == step(old(st)@, *e).0,
        final(out)@ == old(out)@ + step(old(st)@, *e).1,
        fits(final(st)@, rest@ - 1),
{
    let ghost s0 = st@;
    let ghost o0 = out@;
    match e {
        Event::Rule => {
            flush_exec(st, out);
            append_str(out, "\n---\n\n");
        },
        Event::Start(Tag::Heading { level, .. }) => {
            flush_exec(st, out);
            let is_top = match level {
                HeadingLevel::H1 => true,
                HeadingLevel::H2 => true,
                _ => false,
            };
            if is_top && st.heading_count > 0 {
                append_str(out, "\n---\n\n");
            }
            st.in_heading = true;
            let h: &str = match level {
                HeadingLevel::H1 => "#",
                HeadingLevel::H2 => "##",
                HeadingLevel::H3 => "###",
                HeadingLevel::H4 => "####",
                HeadingLevel::H5 => "#####",
                HeadingLevel::H6 => "######",
            };
            let mut p = chars_of(h);
            append_str(&mut p, " ");
            st.heading_prefix = p;
        },
        Event::End(TagEnd::Heading(_)) => {
            st.in_heading = false;
            st.heading_count = st.heading_count + 1;
            flush_exec(st, out);
            append_str(out, "\n\n");
        },
        Event::Start(Tag::Paragraph) => {
            st.in_paragraph = true;
        },
        Event::End(TagEnd::Paragraph) => {
            st.in_paragraph = false;
            flush_exec(st, out);
            append_str(out, "\n\n");
        },
        Event::Start(Tag::BlockQuote) => {
            st.blockquote_depth = st.blockquote_depth + 1;
        },
        Event::End(TagEnd::BlockQuote) => {
            st.blockquote_depth = if st.blockquote_depth > 0 {
                st.blockquote_depth - 1
            } else {
                0
            };
            append_str(out, "\n");
        },
        Event::Start(Tag::FencedCode(lang)) => {
            flush_exec(st, out);
            append_str(out, "```");
            append_str(out, lang.as_str());
            append_str(out, "\n");
            st.in_code_block = true;
        },
        Event::Start(Tag::IndentedCode) => {
            flush_exec(st, out);
            append_str(out, "```\n");
            st.in_code_block = true;
        },
        Event::End(TagEnd::CodeBlock) => {
            st.in_code_block = false;
            append_str(out, "```\n\n");
        },
        Event::DisplayMath(m) => {
            flush_exec(st, out);
            append_str(out, "$$\n");
            append_str(out, m.as_str());
            append_str(out, "\n$$\n\n");
        },
        _ => {},
    }
    proof {
        assert(st@ =~= step(s0, *e).0);
        assert(out@ =~= o0 + step(s0, *e).1);
        let s1 = st@;
        assert forall|k: int| 0 <= k < s1.list_stack.len() && #[trigger] s1.list_stack[k] is Some implies s1.list_stack[k]->0
            + (rest@ - 1) <= u64::MAX by {
            if k < s0.list_stack.len() {
                assert(s0.list_stack[k] is Some);
            }
        }
    }
}

#[verifier::rlimit(100)]
#[verifier::spinoff_prover]
fn step_list(st: &mut SerState, out: &mut Vec<char>, e: &Event, rest: Ghost<int>)
    requires
        event_kind(*e) == 1,
        fits(old(st)@, rest@),
        rest@ >= 1,
        e matches Event::Start(Tag::List(Some(n))) ==> n + rest@ <= u64::MAX,
    ensures
        final(st)@ == step(old(st)@, *e).0,
        final(out)@ == old(out)@ + step(old(st)@, *e).1,
        fits(final(st)@, rest@ - 1),
{
    let ghost s0 = st@;
    let ghost o0 = out@;
    match e {
        Event::Start(Tag::List(start)) => {
            st.list_stack.push(*start);
            proof {
                assert(num_views(st.list_stack@) =~= s0.list_stack.push(
                    match *start {
                        Some(n) => Some(n as int),
                        None => None,
                    },
                ));
            }
        },
        Event::End(TagEnd::List(_)) => {
            if st.list_stack.len() > 0 {
                st.list_stack.pop();
                proof {
                    assert(num_views(st.list_stack@) =~= s0.list_stack.drop_last());
                }
            }
            if st.list_stack.len() == 0 {
                append_str(out, "\n");
            }
        },
        Event::Start(Tag::Item) => {
            flush_exec(st, out);
            let ghost s1 = st@;
            let len = st.list_stack.len();
            let depth = if len > 0 {
                len - 1
            } else {
                0
            };
            let mut prefix = indent_of(depth);
            if len > 0 && st.list_stack[len - 1].is_some() {
                let n = st.list_stack[len - 1].unwrap();
                let d = decimal_of_u64(n);
                append(&mut prefix, d.as_slice());
                append_str(&mut prefix, ". ");
                proof {
                    assert(s1.list_stack[len - 1] == Some(n as int));
                    assert(s1.list_stack[len - 1] is Some);
                }
                st.list_stack.set(len - 1, Some(n + 1));
                proof {
                    assert(num_views(st.list_stack@) =~= s1.list_stack.update(len - 1, Some(n + 1)));
                }
            } else {
                append_str(&mut prefix, "- ");
            }
            st.pending_item_prefix = Some(prefix);
        },
        Event::End(TagEnd::Item) => {
            flush_exec(st, out);
            append_str(out, "\n");
        },
        Event::Start(Tag::Table(aligns)) => {
            flush_exec(st, out);
            st.table_alignments = aligns.clone();
            st.in_table = true;
            st.table_row_idx = 0;
            st.table_cells = Vec::new();
            proof {
                assert(st.table_alignments@ =~= aligns@);
                assert(views(st.table_cells@) =~= Seq::<Seq<char>>::empty());
            }
        },
        Event::End(TagEnd::Table) => {
            st.in_table = false;
            append_str(out, "\n");
        },
        Event::Start(Tag::TableHead) => {
            st.in_table_head = true;
        },
        Event::End(TagEnd::TableHead) => {
            st.in_table_head = false;
            table_row_of(&st.table_cells, out);
            table_separator_of(&st.table_alignments, st.table_cells.len(), out);
            st.table_cells = Vec::new();
            proof {
                assert(views(st.table_cells@) =~= Seq::<Seq<char>>::empty());
            }
        },
        Event::Start(Tag::TableRow) => {
            st.table_cells = Vec::new();
            proof {
                assert(views(st.table_cells@) =~= Seq::<Seq<char>>::empty());
            }
        },
        Event::End(TagEnd::TableRow) => {
            table_row_of(&st.table_cells, out);
            st.table_cells = Vec::new();
            st.table_row_idx = st.table_row_idx + 1;
            proof {
                assert(views(st.table_cells@) =~= Seq::<Seq<char>>::empty());
            }
        },
        Event::Start(Tag::TableCell) => {
            st.table_cells.push(Vec::new());
            proof {
                assert(views(st.table_cells@) =~= s0.table_cells.push(seq![]));
            }
        },
        Event::End(TagEnd::TableCell) => {},
        _ => {},
    }
    proof {
        assert(st@ =~= step(s0, *e).0);
        assert(out@ =~= o0 + step(s0, *e).1);
        let s1 = st@;
        assert forall|k: int| 0 <= k < s1.list_stack.len() && #[trigger] s1.list_stack[k] is Some implies s1.list_stack[k]->0
            + (rest@ - 1) <= u64::MAX by {
            if k < s0.list_stack.len() {
                assert(s0.list_stack[k] is Some);
            }
        }
    }
}

#[verifier::rlimit(100)]
#[verifier::spinoff_prover]
fn step_marks(st: &mut SerState, out: &mut Vec<char>, e: &Event, rest: Ghost<int>)
    requires
        event_kind(*e) == 2,
        fits(old(st)@, rest@),
        rest@ >= 1,
        e matches Event::Start(Tag::List(Some(n))) ==> n + rest@ <= u64::MAX,
    ensures
        final(st)@ == step(old(st)@, *e).0,
        final(out)@ == old(out)@ + step(old(st)@, *e).1,
        fits(final(st)@, rest@ - 1),
{
    let ghost s0 = st@;
    let ghost o0 = out@;
    match e {
        Event::Start(Tag::Strong) => {
            st.bold_depth = st.bold_depth + 1;
        },
        Event::End(TagEnd::Strong) => {
            st.bold_depth = if st.bold_depth > 0 {
                st.bold_depth - 1
            } else {
                0
            };
        },
        Event::Start(Tag::Emphasis) => {
            st.italic_depth = st.italic_depth + 1;
        },
        Event::End(TagEnd::Emphasis) => {
            st.italic_depth = if st.italic_depth > 0 {
                st.italic_depth - 1
            } else {
                0
            };
        },
        Event::Start(Tag::Strikethrough) => {
            st.strikethrough = true;
        },
        Event::End(TagEnd::Strikethrough) => {
            st.strikethrough = false;
        },
        Event::Start(Tag::Link { dest_url, title }) => {
            st.link_url = text_of(dest_url);
            st.link_title = text_of(title);
            st.in_link = true;
            st.link_text_buf = Vec::new();
        },
        Event::Start(Tag::Image { dest_url, title }) => {
            st.image_url = text_of(dest_url);
            st.image_title = text_of(title);
            st.image_alt_buf = Vec::new();
            st.in_image = true;
        },
        _ => {},
    }
    proof {
        assert(st@ =~= step(s0, *e).0);
        assert(out@ =~= o0 + step(s0, *e).1);
        let s1 = st@;
        assert forall|k: int| 0 <= k < s1.list_stack.len() && #[trigger] s1.list_stack[k] is Some implies s1.list_stack[k]->0
            + (rest@ - 1) <= u64::MAX by {
            if k < s0.list_stack.len() {
                assert(s0.list_stack[k] is Some);
            }
        }
    }
}

#[verifier::rlimit(100)]
#[verifier::spinoff_prover]
fn step_inline(st: &mut SerState, out: &mut Vec<char>, e: &Event, rest: Ghost<int>)
    requires
        event_kind(*e) == 3,
        fits(old(st)@, rest@),
        rest@ >= 1,
        e matches Event::Start(Tag::List(Some(n))) ==> n + rest@ <= u64::MAX,
    ensures
        final(st)@ == step(old(st)@, *e).0,
        final(out)@ == old(out)@ + step(old(st)@, *e).1,
        fits(final(st)@, rest@ - 1),
{
    let ghost s0 = st@;
    let ghost o0 = out@;
    match e {
        Event::End(TagEnd::Link) => {
            st.in_link = false;
            let mut text: Vec<char> = Vec::new();
            std::mem::swap(&mut text, &mut st.link_text_buf);
            let mut md: Vec<char> = Vec::new();
            append_str(&mut md, "[");
            append(&mut md, text.as_slice());
            append_str(&mut md, "](");
            append(&mut md, st.link_url.as_slice());
            if st.link_title.len() == 0 {
                append_str(&mut md, ")");
            } else {
                append_str(&mut md, " \"");
                append(&mut md, st.link_title.as_slice());
                append_str(&mut md, "\")");
            }
            proof {
                assert(md@ =~= link_text(s0.link_text_buf, s0.link_url, s0.link_title));
            }
            push_text_exec(st, out, md.as_slice(), false);
        },
        Event::End(TagEnd::Image) => {
            st.in_image = false;
            let mut alt: Vec<char> = Vec::new();
            std::mem::swap(&mut alt, &mut st.image_alt_buf);
            let mut md: Vec<char> = Vec::new();
            append_str(&mut md, "![");
            append(&mut md, alt.as_slice());
            append_str(&mut md, "](");
            append(&mut md, st.image_url.as_slice());
            if st.image_title.len() == 0 {
                append_str(&mut md, ")");
            } else {
                append_str(&mut md, " \"");
                append(&mut md, st.image_title.as_slice());
                append_str(&mut md, "\")");
            }
            proof {
                reveal_strlit("![");
                reveal_strlit("!");
                reveal_strlit("[");
                assert(md@ =~= "!"@ + link_text(s0.image_alt_buf, s0.image_url, s0.image_title));
            }
            push_text_exec(st, out, md.as_slice(), false);
        },
        Event::Code(t) => {
            let mut md: Vec<char> = Vec::new();
            append_str(&mut md, "`");
            append_str(&mut md, t.as_str());
            append_str(&mut md, "`");
            push_text_exec(st, out, md.as_slice(), false);
        },
        Event::Text(t) => {
            let tv = text_of(t);
            if st.in_image {
                append(&mut st.image_alt_buf, tv.as_slice());
            } else if st.in_link {
                append(&mut st.link_text_buf, tv.as_slice());
            } else if st.in_code_block {
                let bq = quote_marks_of(st.blockquote_depth);
                let ls = lines_of(tv.as_slice());
                let n = ls.len();
                for i in 0..n
                    invariant
                        n == ls@.len(),
                        bq@ == quote_marks(s0.blockquote_depth),
                        out@ == o0 + code_lines(s0.blockquote_depth, views(ls@).take(i as int)),
                {
                    append(out, bq.as_slice());
                    append(out, ls[i].as_slice());
                    append_str(out, "\n");
                    proof {
                        assert(views(ls@).take(i + 1).drop_last() =~= views(ls@).take(i as int));
                    }
                }
                proof {
                    assert(views(ls@).take(n as int) =~= views(ls@));
                }
            } else {
                push_text_exec(st, out, tv.as_slice(), true);
            }
        },
        Event::SoftBreak => {
            let v = chars_of("\n");
            push_text_exec(st, out, v.as_slice(), false);
        },
        Event::HardBreak => {
            let v = chars_of("  \n");
            push_text_exec(st, out, v.as_slice(), false);
        },
        Event::InlineMath(m) => {
            let mut md: Vec<char> = Vec::new();
            append_str(&mut md, "$");
            append_str(&mut md, m.as_str());
            append_str(&mut md, "$");
            push_text_exec(st, out, md.as_slice(), false);
        },
        Event::FootnoteReference(l) => {
            let mut md: Vec<char> = Vec::new();
            append_str(&mut md, "[^");
            append_str(&mut md, l.as_str());
            append_str(&mut md, "]");
            push_text_exec(st, out, md.as_slice(), false);
        },
        _ => {},
    }
    proof {
        assert(st@ =~= step(s0, *e).0);
        assert(out@ =~= o0 + step(s0, *e).1);
        let s1 = st@;
        assert forall|k: int| 0 <= k < s1.list_stack.len() && #[trigger] s1.list_stack[k] is Some implies s1.list_stack[k]->0
            + (rest@ - 1) <= u64::MAX by {
            if k < s0.list_stack.len() {
                assert(s0.list_stack[k] is Some);
            }
        }
    }
}

fn step_exec(st: &mut SerState, out: &mut Vec<char>, e: &Event, rest: Ghost<int>)
    requires
        fits(old(st)@, rest@),
        rest@ >= 1,
        e matches Event::Start(Tag::List(Some(n))) ==> n + rest@ <= u64::MAX,
    ensures
        final(st)@ == step(old(st)@, *e).0,
        final(out)@ == old(out)@ + step(old(st)@, *e).1,
        fits(final(st)@, rest@ - 1),
{
    let ghost s0 = st@;
    let kind: u8 = match e {
        Event::Rule | Event::DisplayMath(_) => 0,
        Event::Start(Tag::Heading { .. }) | Event::End(TagEnd::Heading(_)) | Event::Start(Tag::Paragraph)
        | Event::End(TagEnd::Paragraph) | Event::Start(Tag::BlockQuote) | Event::End(TagEnd::BlockQuote)
        | Event::Start(Tag::FencedCode(_)) | Event::Start(Tag::IndentedCode) | Event::End(
            TagEnd::CodeBlock,
        ) => 0,
        Event::Start(Tag::List(_)) | Event::End(TagEnd::List(_)) | Event::Start(Tag::Item) | Event::End(
            TagEnd::Item,
        ) | Event::Start(Tag::Table(_)) | Event::End(TagEnd::Table) | Event::Start(Tag::TableHead)
        | Event::End(TagEnd::TableHead) | Event::Start(Tag::TableRow) | Event::End(TagEnd::TableRow)
        | Event::Start(Tag::TableCell) | Event::End(TagEnd::TableCell) => 1,
        Event::Start(Tag::Strong) | Event::End(TagEnd::Strong) | Event::Start(Tag::Emphasis) | Event::End(
            TagEnd::Emphasis,
        ) | Event::Start(Tag::Strikethrough) | Event::End(TagEnd::Strikethrough) | Event::Start(
            Tag::Link { .. },
        ) | Event::Start(Tag::Image { .. }) => 2,
        _ => 3,
    };
    if kind == 0 {
        step_block(st, out, e, rest);
    } else if kind == 1 {
        step_list(st, out, e, rest);
    } else if kind == 2 {
        step_marks(st, out, e, rest);
    } else {
        step_inline(st, out, e, rest);
    }
}

fn quoted_of(s: &String) -> (r: Vec<char>)
    ensures
        r@ == quoted(s@),
{
    proof {
        reveal_strlit("\"");
    }
    let v = chars_of(s.as_str());
    let esc = replace_str(v.as_slice(), "\"", "\\\"");
    let mut r: Vec<char> = Vec::new();
    append_str(&mut r, "\"");
    append(&mut r, esc.as_slice());
    append_str(&mut r, "\"\n");
    r
}

/// Writes a Markdown document, given as its events, as a Marp slide deck.
pub fn convert(events: Vec<Event>, config: &Config) -> (r: Result<String, String>)
    requires
        events@.len() < usize::MAX,
        forall|i: int|
            0 <= i < events@.len() ==> (#[trigger] events@[i] matches Event::Start(Tag::List(Some(n)))
                ==> n + events@.len() <= u64::MAX),
    ensures
        r matches Ok(s) && s@ == marp_document(events@, *config),
{
    let mut out: Vec<char> = Vec::new();
    append_str(&mut out, "---\nmarp: true\nheadingDivider: 2\npaginate: true\ntheme: default\n");
    if chars_of(config.title.as_str()).len() > 0 {
        append_str(&mut out, "title: ");
        let q = quoted_of(&config.title);
        append(&mut out, q.as_slice());
    }
    if chars_of(config.author.as_str()).len() > 0 {
        append_str(&mut out, "author: ");
        let q = quoted_of(&config.author);
        append(&mut out, q.as_slice());
    }
    if chars_of(config.date.as_str()).len() > 0 {
        append_str(&mut out, "date: ");
        let q = quoted_of(&config.date);
        append(&mut out, q.as_slice());
    }
    append_str(&mut out, "math: katex\n---\n\n");
    let ghost fm = out@;
    proof {
        assert(fm =~= front_matter(*config));
    }
    let mut st = SerState {
        in_heading: false,
        heading_prefix: Vec::new(),
        heading_count: 0,
        in_paragraph: false,
        blockquote_depth: 0,
        in_code_block: false,
        list_stack: Vec::new(),
        pending_item_prefix: None,
        bold_depth: 0,
        italic_depth: 0,
        strikethrough: false,
        in_link: false,
        link_url: Vec::new(),
        link_title: Vec::new(),
        link_text_buf: Vec::new(),
        in_image: false,
        image_url: Vec::new(),
        image_title: Vec::new(),
        image_alt_buf: Vec::new(),
        in_table: false,
        in_table_head: false,
        table_row_idx: 0,
        table_cells: Vec::new(),
        table_alignments: Vec::new(),
        inline_buf: Vec::new(),
    };
    proof {
        assert(num_views(st.list_stack@) =~= Seq::<Option<int>>::empty());
        assert(views(st.table_cells@) =~= Seq::<Seq<char>>::empty());
        assert(st@ =~= initial());
        assert(events@.take(0) =~= Seq::<Event>::empty());
    }
    let n = events.len();
    for i in 0..n
        invariant
            n == events@.len() < usize::MAX,
            forall|q: int|
                0 <= q < events@.len() ==> (#[trigger] events@[q] matches Event::Start(Tag::List(Some(k)))
                    ==> k + events@.len() <= u64::MAX),
            st@ == run(initial(), events@.take(i as int)).0,
            out@ == fm + run(initial(), events@.take(i as int)).1,
            fits(st@, n - i),
    {
        let ghost before = st@;
        proof {
            assert(events@[i as int] == events@[i as int]);
        }
        step_exec(&mut st, &mut out, &events[i], Ghost((n - i) as int));
        proof {
            assert(events@.take(i + 1).drop_last() =~= events@.take(i as int));
            assert(events@.take(i + 1).last() == events@[i as int]);
        }
    }
    proof {
        assert(events@.take(n as int) =~= events@);
    }
    Ok(string_of(out.as_slice()))
}

// ── Laws ─────────────────────────────────────────────────────────────────────

/// Every deck opens with the Marp front matter.
pub proof fn law_deck_opens_with_directives(events: Seq<Event>, c: Config)
    ensures
        marp_document(events, c).take(14) == "---\nmarp: true"@,
{
    reveal_strlit("---\nmarp: true");
    reveal_strlit("---\nmarp: true\nheadingDivider: 2\npaginate: true\ntheme: default\n");
    let a = "---\nmarp: true\nheadingDivider: 2\npaginate: true\ntheme: default\n"@;
    let d = marp_document(events, c);
    let fm = front_matter(c);
    assert(fm.take(14) =~= a.take(14)) by {
        let b = a + (if c.title@.len() > 0 {
            "title: "@ + quoted(c.title@)
        } else {
            seq![]
        });
        let b2 = b + (if c.author@.len() > 0 {
            "author: "@ + quoted(c.author@)
        } else {
            seq![]
        });
        let b3 = b2 + (if c.date@.len() > 0 {
            "date: "@ + quoted(c.date@)
        } else {
            seq![]
        });
        assert(b.take(14) =~= a.take(14));
        assert(b2.take(14) =~= b.take(14));
        assert(b3.take(14) =~= b2.take(14));
        assert(fm == b3 + "math: katex\n---\n\n"@);
        assert(fm.take(14) =~= b3.take(14));
    }
    assert(d.take(14) =~= fm.take(14));
    assert(a.take(14) =~= "---\nmarp: true"@);
}

/// A thematic break always ends the slide: after the pending inline text,
/// a `---` separator is written.
pub proof fn law_rule_separates_slides(st: Ser)
    ensures
        step(st, Event::Rule).1 == flush(st).1 + "\n---\n\n"@,
{
}

/// A level-one or level-two heading after the first heading starts a new
/// slide; the first heading, and deeper ones, do not.
pub proof fn law_top_headings_separate_slides(st: Ser, level: HeadingLevel, id: Option<String>)
    ensures
        step(st, Event::Start(Tag::Heading { level, id })).1 == flush(st).1 + if (level == HeadingLevel::H1
            || level == HeadingLevel::H2) && st.heading_count > 0 {
            "\n---\n\n"@
        } else {
            seq![]
        },
{
}

/// Text inside emphasis is written between `*`, inside strong text between
/// `**`, inside strike-through between `~~`; the style events themselves
/// write nothing, and closing a style that was opened on unstyled text
/// gives the unstyled state back. A heading's text is preceded by as many
/// `#` as its level and a space.
pub proof fn law_marp_inline_styles(st: Ser, t: Seq<char>, id: Option<String>)
    requires
        st.bold_depth == 0,
        st.italic_depth == 0,
        !st.strikethrough,
    ensures
        step(st, Event::Start(Tag::Emphasis)).1 == Seq::<char>::empty(),
        step(st, Event::Start(Tag::Strong)).1 == Seq::<char>::empty(),
        step(st, Event::Start(Tag::Strikethrough)).1 == Seq::<char>::empty(),
        formatted(step(st, Event::Start(Tag::Emphasis)).0, t, true) == "*"@ + t + "*"@,
        formatted(step(st, Event::Start(Tag::Strong)).0, t, true) == "**"@ + t + "**"@,
        formatted(step(st, Event::Start(Tag::Strikethrough)).0, t, true) == "~~"@ + t + "~~"@,
        formatted(st, t, true) == t,
        step(step(st, Event::Start(Tag::Emphasis)).0, Event::End(TagEnd::Emphasis)).0 == st,
        step(step(st, Event::Start(Tag::Strong)).0, Event::End(TagEnd::Strong)).0 == st,
        step(step(st, Event::Start(Tag::Strikethrough)).0, Event::End(TagEnd::Strikethrough)).0 == st,
        step(st, Event::Start(Tag::Heading { level: HeadingLevel::H1, id })).0.heading_prefix == "# "@,
        step(st, Event::Start(Tag::Heading { level: HeadingLevel::H2, id })).0.heading_prefix == "## "@,
        step(st, Event::Start(Tag::Heading { level: HeadingLevel::H3, id })).0.heading_prefix == "### "@,
{
    reveal_strlit("#");
    reveal_strlit("##");
    reveal_strlit("###");
    reveal_strlit(" ");
    reveal_strlit("# ");
    reveal_strlit("## ");
    reveal_strlit("### ");
    assert("# "@ =~= "#"@ + " "@);
    assert("## "@ =~= "##"@ + " "@);
    assert("### "@ =~= "###"@ + " "@);
}

/// A deck opens with its Marp front matter, which sets the title, the
/// author and the date, each quoted on its own line, when the configuration
/// gives them.
pub proof fn law_marp_front_matter(events: Seq<Event>, c: Config)
    ensures
        marp_document(events, c).take(front_matter(c).len() as int) == front_matter(c),
        crate::text::starts_with(front_matter(c), "---\nmarp: true\n"@),
        c.title@.len() > 0 ==> crate::text::contains_text(front_matter(c), "title: "@ + quoted(c.title@)),
        c.author@.len() > 0 ==> crate::text::contains_text(front_matter(c), "author: "@ + quoted(c.author@)),
        c.date@.len() > 0 ==> crate::text::contains_text(front_matter(c), "date: "@ + quoted(c.date@)),
{
    reveal_strlit("---\nmarp: true\n");
    reveal_strlit("---\nmarp: true\nheadingDivider: 2\npaginate: true\ntheme: default\n");
    let head = "---\nmarp: true\nheadingDivider: 2\npaginate: true\ntheme: default\n"@;
    let tp = if c.title@.len() > 0 {
        "title: "@ + quoted(c.title@)
    } else {
        seq![]
    };
    let ap = if c.author@.len() > 0 {
        "author: "@ + quoted(c.author@)
    } else {
        seq![]
    };
    let dp = if c.date@.len() > 0 {
        "date: "@ + quoted(c.date@)
    } else {
        seq![]
    };
    let tail = "math: katex\n---\n\n"@;
    assert((front_matter(c) + run(initial(), events).1).take(front_matter(c).len() as int) =~= front_matter(c));
    assert(front_matter(c).take(15) =~= head.take(15));
    assert(head.take(15) =~= "---\nmarp: true\n"@);
    crate::text::lemma_contains_middle(head, tp, ap + dp + tail);
    assert(front_matter(c) =~= head + tp + (ap + dp + tail));
    crate::text::lemma_contains_middle(head + tp, ap, dp + tail);
    assert(front_matter(c) =~= (head + tp) + ap + (dp + tail));
    crate::text::lemma_contains_middle(head + tp + ap, dp, tail);
}

} // verus!
