//! `{.Class #id}` attribute blocks that follow a Markdown block.

use vstd::prelude::*;
use crate::text::{
    is_ascii_alnum, is_ascii_alphanumeric, slice_of, split_ws, split_ws_of, string_of, strings_of,
    trim, trim_str, views,
};

verus! {

/// A CSS identifier character: ASCII letter or digit, `-` or `_`.
pub open spec fn ident_char(c: char) -> bool {
    is_ascii_alnum(c) || c == '-' || c == '_'
}

pub open spec fn valid_ident(s: Seq<char>) -> bool {
    s.len() > 0 && forall|i: int| 0 <= i < s.len() ==> #[trigger] ident_char(s[i])
}

pub fn is_valid_ident(s: &[char]) -> (r: bool)
    ensures
        r == valid_ident(s@),
{
    if s.len() == 0 {
        return false;
    }
    let n = s.len();
    for i in 0..n
        invariant
            n == s@.len(),
            forall|j: int| 0 <= j < i ==> #[trigger] ident_char(s@[j]),
    {
        let c = s[i];
        if !(is_ascii_alphanumeric(c) || c == '-' || c == '_') {
            assert(!ident_char(s@[i as int]));
            return false;
        }
    }
    true
}

/// Reads the tokens of an attribute block from left to right: `.name` adds a
/// class, `#name` sets the id (a later one replaces an earlier one), and
/// anything else, or a name that is not an identifier, rejects the block.
pub open spec fn read_attr_tokens(
    tokens: Seq<Seq<char>>,
    classes: Seq<Seq<char>>,
    id: Option<Seq<char>>,
) -> Option<(Seq<Seq<char>>, Option<Seq<char>>)>
    decreases tokens.len(),
{
    if tokens.len() == 0 {
        Some((classes, id))
    } else {
        let t = tokens[0];
        let name = t.skip(1);
        if t.len() > 0 && t[0] == '.' {
            if valid_ident(name) {
                read_attr_tokens(tokens.drop_first(), classes.push(name), id)
            } else {
                None
            }
        } else if t.len() > 0 && t[0] == '#' {
            if valid_ident(name) {
                read_attr_tokens(tokens.drop_first(), classes, Some(name))
            } else {
                None
            }
        } else {
            None
        }
    }
}

/// The classes and id of an attribute block: the trimmed text must be
/// enclosed in braces, every whitespace-separated token inside must be a
/// `.class` or `#id`, and at least one class or id must be given.
pub open spec fn attr_block(text: Seq<char>) -> Option<(Seq<Seq<char>>, Option<Seq<char>>)> {
    let t = trim(text);
    if !(t.len() > 0 && t[0] == '{' && t.last() == '}') || t.len() < 2 {
        None
    } else {
        match read_attr_tokens(split_ws(t.subrange(1, t.len() - 1)), seq![], None) {
            Some((classes, id)) => if classes.len() == 0 && id is None {
                None
            } else {
                Some((classes, id))
            },
            None => None,
        }
    }
}

pub open spec fn string_views(v: Seq<String>) -> Seq<Seq<char>> {
    v.map_values(|s: String| s@)
}

pub open spec fn opt_view(o: Option<String>) -> Option<Seq<char>> {
    match o {
        Some(s) => Some(s@),
        None => None,
    }
}

/// Attempts to parse a `{...}` attribute block from a string, returning its
/// classes and id.
#[verifier::loop_isolation(false)]
pub fn parse_attr_block(text: &str) -> (r: Option<(Vec<String>, Option<String>)>)
    ensures
        r matches Some((classes, id)) ==> attr_block(text@) == Some(
            (string_views(classes@), opt_view(id)),
        ),
        r is None ==> attr_block(text@) is None,
{
    let trimmed = trim_str(text);
    let n = trimmed.len();
    if n == 0 || trimmed[0] != '{' || trimmed[n - 1] != '}' {
        return None;
    }
    if n < 2 {
        return None;
    }
    let inner = slice_of(trimmed.as_slice(), 1, n - 1);
    let tokens = split_ws_of(inner.as_slice());
    let ghost all = views(tokens@);
    let mut classes: Vec<String> = Vec::new();
    let mut id: Option<String> = None;
    let m = tokens.len();
    assert(all.skip(0) == all);
    assert(string_views(classes@) =~= Seq::<Seq<char>>::empty());
    for i in 0..m
        invariant
            m == tokens@.len(),
            all == views(tokens@),
            all == split_ws(inner@),
            read_attr_tokens(all, seq![], None) == read_attr_tokens(
                all.skip(i as int),
                string_views(classes@),
                opt_view(id),
            ),
    {
        let tok = &tokens[i];
        assert(all.skip(i as int)[0] == tok@);
        assert(all.skip(i as int).drop_first() == all.skip(i + 1));
        if tok.len() > 0 && tok[0] == '.' {
            let name = slice_of(tok.as_slice(), 1, tok.len());
            assert(name@ == tok@.skip(1));
            if is_valid_ident(name.as_slice()) {
                let ghost before = classes@;
                classes.push(string_of(name.as_slice()));
                assert(string_views(classes@) == string_views(before).push(name@));
            } else {
                return None;
            }
        } else if tok.len() > 0 && tok[0] == '#' {
            let name = slice_of(tok.as_slice(), 1, tok.len());
            assert(name@ == tok@.skip(1));
            if is_valid_ident(name.as_slice()) {
                id = Some(string_of(name.as_slice()));
            } else {
                return None;
            }
        } else {
            return None;
        }
    }
    assert(all.skip(m as int) == Seq::<Seq<char>>::empty());
    if classes.len() == 0 && id.is_none() {
        return None;
    }
    Some((classes, id))
}

} // verus!
