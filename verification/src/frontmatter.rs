//! Locating the YAML front-matter block at the start of a Markdown document.

use vstd::prelude::*;
use crate::text::{
    chars_of, copy_chars, find, find_str, index_of, slice_of, starts_with, starts_with_str,
    string_of, strip_prefix, strip_prefix_of, trim, trim_of, trim_start, trim_start_of,
};

verus! {

/// Where the front matter of a document is.
pub enum FrontMatter {
    /// The document does not start with `---`, or no closing `---` follows:
    /// all of it is body.
    Absent,
    /// The YAML text between the delimiters, and the body after them.
    Block { yaml: String, body: String },
}

/// The position of the closing delimiter line in the text after the
/// opening `---`.
pub open spec fn closing_position(after: Seq<char>) -> Option<int> {
    match find(after, "\n---"@) {
        Some(p) => Some(p),
        None => find(after, "\r\n---"@),
    }
}

/// The body after the closing `---` line, which starts at `start`.
pub open spec fn body_after(after: Seq<char>, start: int) -> Seq<char> {
    let ac = after.skip(start);
    match strip_prefix(ac, "---"@) {
        Some(rest) => match strip_prefix(rest, "\n"@) {
            Some(r) => r,
            None => match strip_prefix(rest, "\r\n"@) {
                Some(r) => r,
                None => rest,
            },
        },
        None => ac,
    }
}

/// The front matter of `md`: the YAML between a leading `---` and the next
/// line that starts with `---`, and the text after that line.
pub open spec fn front_matter_spec(md: Seq<char>) -> Option<(Seq<char>, Seq<char>)> {
    let t = trim_start(md);
    if !starts_with(t, "---"@) {
        None
    } else {
        let after = t.skip(3);
        match closing_position(after) {
            Some(pos) => {
                let yaml = trim(after.take(pos));
                let body = match index_of(after.skip(pos), '\n') {
                    Some(n) => body_after(after, pos + n + 1),
                    None => seq![],
                };
                Some((yaml, body))
            },
            None => None,
        }
    }
}

fn strip_opt(s: &[char], p: &str) -> (r: Option<Vec<char>>)
    ensures
        match r {
            Some(v) => strip_prefix(s@, p@) == Some(v@),
            None => strip_prefix(s@, p@) is None,
        },
{
    strip_prefix_of(s, p)
}

/// Splits off the front matter of a Markdown document.
pub fn split_frontmatter(markdown: &str) -> (r: FrontMatter)
    ensures
        match r {
            FrontMatter::Absent => front_matter_spec(markdown@) is None,
            FrontMatter::Block { yaml, body } => front_matter_spec(markdown@) == Some((yaml@, body@)),
        },
{
    let md = chars_of(markdown);
    let t = trim_start_of(md.as_slice());
    if !starts_with_str(t.as_slice(), "---") {
        return FrontMatter::Absent;
    }
    let three = chars_of("---");
    proof {
        reveal_strlit("---");
    }
    let after = slice_of(t.as_slice(), three.len(), t.len());
    assert(after@ =~= t@.skip(3));
    let closing = match find_str(after.as_slice(), "\n---") {
        Some(p) => Some(p),
        None => find_str(after.as_slice(), "\r\n---"),
    };
    match closing {
        Some(pos) => {
            proof {
                reveal_strlit("\n---");
                reveal_strlit("\r\n---");
                crate::text::lemma_find_bounds(after@, "\n---"@);
                crate::text::lemma_find_bounds(after@, "\r\n---"@);
            }
            let head = slice_of(after.as_slice(), 0, pos);
            assert(head@ =~= after@.take(pos as int));
            let yaml = trim_of(head.as_slice());
            let tail = slice_of(after.as_slice(), pos, after.len());
            assert(tail@ =~= after@.skip(pos as int));
            let body: Vec<char> = match crate::text::find_char(tail.as_slice(), '\n') {
                Some(n) => {
                    proof {
                        crate::text::lemma_find_bounds(tail@, seq!['\n']);
                        assert(seq!['\n'].len() == 1);
                        assert(crate::text::find(tail@, seq!['\n']) == Some(n as int));
                    }
                    let start = pos + n + 1;
                    let ac = slice_of(after.as_slice(), start, after.len());
                    assert(ac@ =~= after@.skip(start as int));
                    match strip_opt(ac.as_slice(), "---") {
                        Some(rest) => match strip_opt(rest.as_slice(), "\n") {
                            Some(r) => r,
                            None => match strip_opt(rest.as_slice(), "\r\n") {
                                Some(r) => r,
                                None => rest,
                            },
                        },
                        None => ac,
                    }
                },
                None => Vec::new(),
            };
            FrontMatter::Block { yaml: string_of(yaml.as_slice()), body: string_of(body.as_slice()) }
        },
        None => FrontMatter::Absent,
    }
}

} // verus!
