//! Regular-expression matching, done by the `regex` crate.

use vstd::prelude::*;
use regex::Regex;

verus! {

#[verifier::external_type_specification]
#[verifier::external_body]
pub struct ExRegex(Regex);

/// The capture groups of the leftmost-first match of `pattern` in `hay`, as
/// `regex::Regex::captures` reports them: group 0 is the whole match, and a
/// group that did not take part in the match is `None`.
pub uninterp spec fn regex_captures(pattern: Seq<char>, hay: Seq<char>) -> Option<Seq<Option<Seq<char>>>>;

/// The capture groups of each successive non-overlapping match of `pattern`
/// in `hay`, in order, as `regex::Regex::captures_iter` yields them.
pub uninterp spec fn regex_captures_all(pattern: Seq<char>, hay: Seq<char>) -> Seq<Seq<Option<Seq<char>>>>;

/// Whether `regex::Regex::new` accepts `pattern` (a function of the pattern alone).
pub uninterp spec fn regex_compiles(pattern: Seq<char>) -> bool;

/// A compiled regular expression together with the source it was compiled
/// from; only `compile` makes one.
pub struct Pattern {
    source: String,
    re: Regex,
}

impl Pattern {
    pub closed spec fn source(&self) -> Seq<char> {
        self.source@
    }
}

pub open spec fn group_views(v: Seq<Option<String>>) -> Seq<Option<Seq<char>>> {
    v.map_values(|g: Option<String>| match g {
        Some(s) => Some(s@),
        None => None,
    })
}

/// Calls `regex::Regex::new`. Claims that it succeeds exactly when
/// `regex_compiles` holds of the pattern, and that a compiled pattern
/// remembers the source text it was compiled from. Which patterns compile is
/// not stated (a syntax error or a size limit makes compilation fail).
#[verifier::external_body]
pub(crate) fn compile(pattern: &str) -> (r: Option<Pattern>)
    ensures
        r is Some == regex_compiles(pattern@),
        r matches Some(p) ==> p.source() == pattern@,
{
    Regex::new(pattern).ok().map(|re| Pattern { source: pattern.to_string(), re })
}

/// Calls `regex::Regex::captures`. Claims that the groups returned are
/// `regex_captures` of the pattern's source and the haystack.
#[verifier::external_body]
pub(crate) fn captures(p: &Pattern, hay: &str) -> (r: Option<Vec<Option<String>>>)
    ensures
        match r {
            Some(g) => regex_captures(p.source(), hay@) == Some(group_views(g@)),
            None => regex_captures(p.source(), hay@) is None,
        },
{
    p.re.captures(hay).map(|caps| caps.iter().map(|m| m.map(|m| m.as_str().to_string())).collect())
}

/// Calls `regex::Regex::captures_iter`. Claims that the groups of the
/// successive matches are `regex_captures_all` of the pattern's source and
/// the haystack.
#[verifier::external_body]
pub(crate) fn captures_all(p: &Pattern, hay: &str) -> (r: Vec<Vec<Option<String>>>)
    ensures
        r@.len() == regex_captures_all(p.source(), hay@).len(),
        forall|i: int|
            0 <= i < r@.len() ==> group_views(#[trigger] r@[i]@) == regex_captures_all(
                p.source(),
                hay@,
            )[i],
{
    p.re.captures_iter(hay).map(|caps| caps.iter().map(|m| m.map(|m| m.as_str().to_string())).collect()).collect()
}

/// The text `hay` with every successive non-overlapping match of `pattern`
/// replaced by `rep`, as `regex::Regex::replace_all` returns it (`rep` taken
/// as written, with `$` group references expanded).
pub uninterp spec fn regex_replace_all(pattern: Seq<char>, hay: Seq<char>, rep: Seq<char>) -> Seq<char>;

/// Calls `regex::Regex::replace_all`. Claims that the result is
/// `regex_replace_all` of the pattern's source, the haystack and the
/// replacement.
#[verifier::external_body]
pub(crate) fn replace_all(p: &Pattern, hay: &str, rep: &str) -> (r: String)
    ensures
        r@ == regex_replace_all(p.source(), hay@, rep@),
{
    p.re.replace_all(hay, rep).into_owned()
}

} // verus!
