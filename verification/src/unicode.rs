//! Unicode character classes and case mapping that the standard library
//! computes from its own tables. On ASCII they are stated here in full;
//! beyond ASCII they are named after the tables.

use vstd::prelude::*;

verus! {

pub open spec fn is_ascii_char(c: char) -> bool {
    c < '\u{80}'
}

pub open spec fn ascii_letter(c: char) -> bool {
    ('a' <= c && c <= 'z') || ('A' <= c && c <= 'Z')
}

pub open spec fn ascii_digit(c: char) -> bool {
    '0' <= c && c <= '9'
}

/// Whether `c` has the Unicode `Alphabetic` property, as the tables of the
/// standard library give it.
pub uninterp spec fn alphabetic_property(c: char) -> bool;

/// Whether `c` is `Alphabetic` or `Numeric` in the tables of the standard
/// library.
pub uninterp spec fn alphanumeric_property(c: char) -> bool;

/// Whether `c` is alphabetic, as `char::is_alphabetic` reports it: on ASCII
/// exactly the letters.
pub open spec fn unicode_alphabetic(c: char) -> bool {
    if is_ascii_char(c) {
        ascii_letter(c)
    } else {
        alphabetic_property(c)
    }
}

/// Whether `c` is alphanumeric, as `char::is_alphanumeric` reports it: on
/// ASCII exactly the letters and digits.
pub open spec fn unicode_alphanumeric(c: char) -> bool {
    if is_ascii_char(c) {
        ascii_letter(c) || ascii_digit(c)
    } else {
        alphanumeric_property(c)
    }
}

/// Calls `char::is_alphabetic`. Claims that the result is the `Alphabetic`
/// property of `c`: for an ASCII character, that it is a letter (no other
/// ASCII character has the property); beyond ASCII a function of `c` alone,
/// given by the tables of the standard library, which are not written out.
#[verifier::external_body]
pub(crate) fn char_is_alphabetic(c: char) -> (b: bool)
    ensures
        b == (if is_ascii_char(c) {
            ascii_letter(c)
        } else {
            alphabetic_property(c)
        }),
{
    c.is_alphabetic()
}

/// Calls `char::is_alphanumeric`. Claims that the result is
/// `Alphabetic || Numeric` for `c`: for an ASCII character, that it is a
/// letter or a decimal digit; beyond ASCII a function of `c` alone.
#[verifier::external_body]
pub(crate) fn char_is_alphanumeric(c: char) -> (b: bool)
    ensures
        b == (if is_ascii_char(c) {
            ascii_letter(c) || ascii_digit(c)
        } else {
            alphanumeric_property(c)
        }),
{
    c.is_alphanumeric()
}

/// `c` with an ASCII capital made small.
pub open spec fn ascii_lower(c: char) -> char {
    if 'A' <= c && c <= 'Z' {
        ((c as u32) + 32) as char
    } else {
        c
    }
}

pub open spec fn ascii_text(s: Seq<char>) -> bool {
    forall|i: int| 0 <= i < s.len() ==> is_ascii_char(#[trigger] s[i])
}

/// The Unicode lower-case mapping of `s` as the tables of the standard
/// library give it.
pub uninterp spec fn lowercase_mapping(s: Seq<char>) -> Seq<char>;

/// The lower-case form of `s`, as `str::to_lowercase` computes it: on ASCII
/// text each capital made small.
pub open spec fn lowercase(s: Seq<char>) -> Seq<char> {
    if ascii_text(s) {
        s.map_values(|c: char| ascii_lower(c))
    } else {
        lowercase_mapping(s)
    }
}

/// Calls `str::to_lowercase`. Claims that the result is the Unicode
/// lower-case mapping of `s`: on ASCII text each capital `A`..`Z` made
/// small and every other character kept; otherwise a function of `s` alone
/// (the mapping tables and the context rule for final sigma are not
/// written out here).
#[verifier::external_body]
pub(crate) fn to_lowercase(s: &str) -> (r: String)
    ensures
        r@ == (if ascii_text(s@) {
            s@.map_values(|c: char| ascii_lower(c))
        } else {
            lowercase_mapping(s@)
        }),
{
    s.to_lowercase()
}

} // verus!
