//! Reading Marp slide decks back into plain CommonMark: the YAML front
//! matter is removed, and so are HTML comments that hold Marp directives.

use vstd::prelude::*;
use crate::text::{
    split_char, append, append_str, chars_of, find, find_char, find_str, index_of, is_at, is_ws, lines,
    lines_of, slice_of, starts_with, starts_with_str, string_of, tail_of, trim, trim_of, views,
    lemma_find_bounds,
};
use crate::unicode::{char_is_alphanumeric, unicode_alphanumeric};

verus! {

// ── Front matter ─────────────────────────────────────────────────────────────

/// Offset just past the first line of `ls` (whose lengths are summed from
/// `acc` on, one extra for each line break) that trims to `---`.
pub open spec fn closing_offset(ls: Seq<Seq<char>>, acc: int) -> Option<int>
    decreases ls.len(),
{
    if ls.len() == 0 {
        None
    } else if trim(ls[0]) == "---"@ {
        Some(acc + ls[0].len() + 1)
    } else {
        closing_offset(ls.drop_first(), acc + ls[0].len() + 1)
    }
}

/// Where the body starts inside the text after the opening line, if the
/// document has a closed front-matter block.
pub open spec fn front_matter_end(s: Seq<char>) -> Option<int> {
    if !starts_with(s, "---"@) {
        None
    } else {
        match index_of(s, '\n') {
            None => None,
            Some(nl) => match closing_offset(lines(s.skip(nl + 1)), 0) {
                None => None,
                Some(off) => Some(nl + 1 + off),
            },
        }
    }
}

/// The document without its front matter. A closing `---` that is the
/// last line, with no line break after it, leaves nothing.
pub open spec fn without_front_matter(s: Seq<char>) -> Seq<char> {
    match front_matter_end(s) {
        Some(e) => if e <= s.len() {
            s.skip(e)
        } else {
            seq![]
        },
        None => s,
    }
}

fn trims_to_rule(l: &[char]) -> (r: bool)
    ensures
        r == (trim(l@) == "---"@),
{
    let t = trim_of(l);
    let rule = chars_of("---");
    crate::text::seq_eq(t.as_slice(), rule.as_slice())
}

fn strip_front_matter(input: &[char]) -> (r: Vec<char>)
    ensures
        r@ == without_front_matter(input@),
{
    if !starts_with_str(input, "---") {
        return slice_of(input, 0, input.len());
    }
    let nl = match find_char(input, '\n') {
        Some(nl) => nl,
        None => {
            return slice_of(input, 0, input.len());
        },
    };
    proof {
        lemma_find_bounds(input@, seq!['\n']);
    }
    let il = input.len();
    assert(nl < il);
    let after = tail_of(input, nl + 1);
    let n = after.len();
    let mut pos: usize = 0;
    let mut acc: usize = 0;
    assert(after@.skip(0) == after@);
    while pos < n
        invariant
            pos <= n == after@.len(),
            acc <= pos,
            after@ == input@.skip(nl + 1),
            nl + 1 <= input@.len(),
            il == input@.len(),
            closing_offset(lines(after@), 0) == closing_offset(
                lines(after@.skip(pos as int)),
                acc as int,
            ),
            front_matter_end(input@) == (match closing_offset(lines(after@), 0) {
                None => None,
                Some(off) => Some(nl + 1 + off),
            }),
        decreases n - pos,
    {
        let rest = tail_of(after, pos);
        proof {
            lemma_find_bounds(rest@, seq!['\n']);
        }
        let (line, next) = match find_char(rest, '\n') {
            Some(k) => {
                let mut line = slice_of(rest, 0, k);
                if k > 0 && rest[k - 1] == '\r' {
                    line.pop();
                }
                assert(rest@.skip(k + 1) == after@.skip(pos + k + 1));
                (line, pos + k + 1)
            },
            None => (slice_of(rest, 0, rest.len()), n),
        };
        assert(lines(rest@)[0] == line@);
        assert(lines(rest@).drop_first() == lines(after@.skip(next as int)));
        if trims_to_rule(line.as_slice()) {
            assert(closing_offset(lines(rest@), acc as int) == Some(acc + line@.len() + 1));
            assert(acc + line@.len() <= n);
            let off = acc + line.len() + 1;
            if off <= il - nl - 1 {
                return slice_of(input, nl + 1 + off, il);
            }
            return Vec::new();
        }
        if next == n {
            assert(after@.skip(n as int) == Seq::<char>::empty());
            assert(lines(Seq::<char>::empty()) =~= Seq::<Seq<char>>::empty());
            assert(lines(rest@).drop_first() =~= Seq::<Seq<char>>::empty());
            assert(closing_offset(lines(rest@), acc as int) == closing_offset(
                lines(rest@).drop_first(),
                acc + line@.len() + 1,
            ));
            assert(closing_offset(lines(rest@), acc as int) is None);
            return slice_of(input, 0, input.len());
        }
        acc = acc + line.len() + 1;
        pos = next;
    }
    assert(after@.skip(n as int) == Seq::<char>::empty());
    slice_of(input, 0, input.len())
}

// ── Directive comments ───────────────────────────────────────────────────────

pub open spec fn comment_open() -> Seq<char> {
    seq!['<', '!', '-', '-']
}

pub open spec fn comment_close() -> Seq<char> {
    seq!['-', '-', '>']
}

/// The characters a directive key may hold.
pub open spec fn key_char(c: char) -> bool {
    unicode_alphanumeric(c) || c == '-' || c == '_'
}

pub open spec fn trim_start_underscores(s: Seq<char>) -> Seq<char>
    decreases s.len(),
{
    if s.len() > 0 && s[0] == '_' {
        trim_start_underscores(s.drop_first())
    } else {
        s
    }
}

/// The text before the first `:` (all of it when there is none).
pub open spec fn before_colon(s: Seq<char>) -> Seq<char> {
    match index_of(s, ':') {
        Some(i) => s.take(i),
        None => s,
    }
}

/// The key a directive line names: the text before its first `:`,
/// trimmed, without leading underscores.
pub open spec fn directive_key(line: Seq<char>) -> Seq<char> {
    trim_start_underscores(trim(before_colon(line)))
}

/// The first line of `ls` that is not blank, trimmed.
pub open spec fn first_nonblank(ls: Seq<Seq<char>>) -> Option<Seq<char>>
    decreases ls.len(),
{
    if ls.len() == 0 {
        None
    } else if trim(ls[0]).len() > 0 {
        Some(trim(ls[0]))
    } else {
        first_nonblank(ls.drop_first())
    }
}

/// A comment body is a Marp directive when its first non-blank line is a
/// `key: value` line whose key, leading underscores aside, is non-empty and
/// made of letters, digits, `-` and `_`.
pub open spec fn marp_directive(body: Seq<char>) -> bool {
    match first_nonblank(lines(trim(body))) {
        None => false,
        Some(l) => {
            let k = directive_key(l);
            index_of(l, ':') is Some && k.len() > 0 && forall|i: int|
                0 <= i < k.len() ==> #[trigger] key_char(k[i])
        },
    }
}

#[verifier::loop_isolation(false)]
fn is_marp_directive(body: &[char]) -> (r: bool)
    ensures
        r == marp_directive(body@),
{
    let trimmed = trim_of(body);
    let ls = lines_of(trimmed.as_slice());
    let n = ls.len();
    let ghost all = views(ls@);
    assert(all.skip(0) == all);
    for i in 0..n
        invariant
            n == ls@.len(),
            all == views(ls@),
            all == lines(trim(body@)),
            first_nonblank(all) == first_nonblank(all.skip(i as int)),
    {
        assert(all.skip(i as int)[0] == ls@[i as int]@);
        assert(all.skip(i as int).drop_first() == all.skip(i + 1));
        let line = trim_of(ls[i].as_slice());
        if line.len() > 0 {
        assert(first_nonblank(all) == Some(line@));
        proof {
            lemma_find_bounds(line@, seq![':']);
        }
        let key_part = match find_char(line.as_slice(), ':') {
            Some(k) => slice_of(line.as_slice(), 0, k),
            None => {
                return false;
            },
        };
        let key_trimmed = trim_of(key_part.as_slice());
        let mut a: usize = 0;
        let kl = key_trimmed.len();
        assert(key_trimmed@.skip(0) == key_trimmed@);
        while a < kl && key_trimmed[a] == '_'
            invariant
                a <= kl == key_trimmed@.len(),
                trim_start_underscores(key_trimmed@) == trim_start_underscores(
                    key_trimmed@.skip(a as int),
                ),
            decreases kl - a,
        {
            assert(key_trimmed@.skip(a as int).drop_first() == key_trimmed@.skip(a + 1));
            a += 1;
        }
        assert(key_part@ == before_colon(line@));
        assert(trim_start_underscores(key_trimmed@.skip(a as int)) == key_trimmed@.skip(a as int));
        let key = slice_of(key_trimmed.as_slice(), a, kl);
        assert(key@ == key_trimmed@.skip(a as int));
        assert(key@ == directive_key(line@));
        if key.len() == 0 {
            return false;
        }
        let m = key.len();
        for j in 0..m
            invariant
                m == key@.len(),
                forall|q: int| 0 <= q < j ==> #[trigger] key_char(key@[q]),
        {
            let c = key[j];
            if !(char_is_alphanumeric(c) || c == '-' || c == '_') {
                assert(!key_char(key@[j as int]));
                return false;
            }
        }
        return true;
        }
    }
    assert(all.skip(n as int) == Seq::<Seq<char>>::empty());
    false
}

/// Whether every comment that the stripper meets closes at least four
/// characters after it opens (`<!-->` and `<!--->` are not comments the
/// reader can take apart).
pub open spec fn comments_well_formed(s: Seq<char>) -> bool
    decreases s.len(),
{
    match find(s, comment_open()) {
        None => true,
        Some(a) => match find(s.skip(a), comment_close()) {
            None => true,
            Some(e) => {
                proof {
                    lemma_find_bounds(s, comment_open());
                    lemma_find_bounds(s.skip(a), comment_close());
                }
                e >= 4 && comments_well_formed(s.skip(a + e + 3))
            },
        },
    }
}

/// The text with every directive comment removed; other comments stay.
pub open spec fn strip_directive_comments(s: Seq<char>) -> Seq<char>
    decreases s.len(),
{
    match find(s, comment_open()) {
        None => s,
        Some(a) => match find(s.skip(a), comment_close()) {
            None => s,
            Some(e) => {
                proof {
                    lemma_find_bounds(s, comment_open());
                    lemma_find_bounds(s.skip(a), comment_close());
                }
                let body = s.subrange(a + 4, a + e);
                s.take(a) + (if marp_directive(body) {
                    Seq::<char>::empty()
                } else {
                    comment_open() + body + comment_close()
                }) + strip_directive_comments(s.skip(a + e + 3))
            },
        },
    }
}

fn strip_marp_html_comments(input: &[char]) -> (r: Vec<char>)
    requires
        comments_well_formed(input@),
    ensures
        r@ == strip_directive_comments(input@),
{
    let n = input.len();
    let mut out: Vec<char> = Vec::new();
    let mut pos: usize = 0;
    assert(input@.skip(0) == input@);
    loop
        invariant_except_break
            pos <= n == input@.len(),
            out@ + strip_directive_comments(input@.skip(pos as int)) == strip_directive_comments(
                input@,
            ),
            comments_well_formed(input@.skip(pos as int)),
        ensures
            out@ == strip_directive_comments(input@),
        decreases n - pos,
    {
        let rest = tail_of(input, pos);
        proof {
            lemma_find_bounds(rest@, comment_open());
        }
        let open = vec!['<', '!', '-', '-'];
        let close = vec!['-', '-', '>'];
        assert(open@ == comment_open());
        assert(close@ == comment_close());
        let start = match crate::text::find_at(rest, open.as_slice(), 0) {
            Some(a) => a,
            None => {
                append(&mut out, rest);
                break ;
            },
        };
        let from_start = tail_of(rest, start);
        proof {
            lemma_find_bounds(from_start@, comment_close());
        }
        match crate::text::find_at(from_start, close.as_slice(), 0) {
            Some(e) => {
                let ghost old_out = out@;
                let head = slice_of(rest, 0, start);
                append(&mut out, head.as_slice());
                let body = slice_of(rest, start + 4, start + e);
                assert(body@ == rest@.subrange(start + 4, start + e));
                if !is_marp_directive(body.as_slice()) {
                    append(&mut out, open.as_slice());
                    append(&mut out, body.as_slice());
                    append(&mut out, close.as_slice());
                }
                assert(rest@.skip(start + e + 3) == input@.skip(pos + start + e + 3));
                pos = pos + start + e + 3;
            },
            None => {
                append(&mut out, rest);
                break ;
            },
        }
    }
    out
}

// ── Slide separators ─────────────────────────────────────────────────────────

/// A line as the reader writes it back: a slide separator (a line that
/// trims to `---`) follows a blank line, so that CommonMark reads it as a
/// thematic break and not as the underline of a heading.
pub open spec fn separated_line(l: Seq<char>) -> Seq<char> {
    if trim(l) == "---"@ {
        "\n---"@
    } else {
        l
    }
}

/// The text with every slide separator line put after a blank line.
pub open spec fn normalize_separators(s: Seq<char>) -> Seq<char> {
    crate::text::join(split_char(s, '\n').map_values(|l: Seq<char>| separated_line(l)), "\n"@)
}

fn normalize_separators_of(s: &[char]) -> (r: Vec<char>)
    ensures
        r@ == normalize_separators(s@),
{
    let parts = crate::text::split_char_of(s, '\n');
    let n = parts.len();
    let mut out: Vec<Vec<char>> = Vec::new();
    for i in 0..n
        invariant
            n == parts@.len(),
            views(out@) == views(parts@).take(i as int).map_values(|l: Seq<char>| separated_line(l)),
    {
        let line = if trims_to_rule(parts[i].as_slice()) {
            chars_of("\n---")
        } else {
            crate::text::copy_chars(parts[i].as_slice())
        };
        let ghost before = views(out@);
        out.push(line);
        proof {
            assert(views(out@) =~= before.push(line@));
            assert(views(parts@).take(i + 1) =~= views(parts@).take(i as int).push(parts@[i as int]@));
            assert(views(out@) =~= views(parts@).take(i + 1).map_values(|l: Seq<char>| separated_line(l)));
        }
    }
    proof {
        assert(views(parts@).take(n as int) =~= views(parts@));
    }
    let sep = chars_of("\n");
    crate::text::join_of(&out, sep.as_slice())
}

/// What `parse_marp` returns for `s`: the body after the front matter,
/// directive comments removed, slide separators after a blank line, trimmed.
pub open spec fn marp_to_markdown(s: Seq<char>) -> Seq<char> {
    trim(normalize_separators(strip_directive_comments(without_front_matter(s))))
}

/// The inputs the reader takes apart without failing: comments that close
/// at least four characters after they open.
pub open spec fn marp_readable(s: Seq<char>) -> bool {
    comments_well_formed(without_front_matter(s))
}

/// Parse a Marp Markdown document and return its content as standard
/// CommonMark: front matter and directive comments removed, slide
/// separators put after a blank line, the rest trimmed.
pub fn parse_marp(input: &str) -> (r: Result<String, String>)
    requires
        marp_readable(input@),
    ensures
        r matches Ok(md) && md@ == marp_to_markdown(input@),
{
    let chars = chars_of(input);
    let body = strip_front_matter(chars.as_slice());
    let body = strip_marp_html_comments(body.as_slice());
    let body = normalize_separators_of(body.as_slice());
    let t = trim_of(body.as_slice());
    Ok(string_of(t.as_slice()))
}

/// A document without front matter or comments comes back with only its
/// slide separators set apart and its ends trimmed.
pub proof fn law_marp_passthrough(s: Seq<char>)
    requires
        !starts_with(s, "---"@),
        find(s, comment_open()) is None,
    ensures
        marp_to_markdown(s) == trim(normalize_separators(s)),
{
}

} // verus!
