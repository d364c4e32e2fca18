//! Unicode case mapping and character classes, taken from `std`.
//!
//! These depend on the Unicode tables that `std` carries. On ASCII characters and
//! texts they are the ASCII rules, which are stated here; beyond ASCII their
//! results are named, and the rest of the library is stated over those names.
use vstd::prelude::*;

verus! {

/// An ASCII character.
pub open spec fn in_ascii(c: char) -> bool {
    (c as u32) < 128
}

/// A text of ASCII characters only.
pub open spec fn all_ascii(s: Seq<char>) -> bool {
    forall|i: int| 0 <= i < s.len() ==> in_ascii(#[trigger] s[i])
}

/// 'A' to 'Z'.
pub open spec fn ascii_upper_letter(c: char) -> bool {
    65 <= (c as u32) <= 90
}

/// 'a' to 'z'.
pub open spec fn ascii_lower_letter(c: char) -> bool {
    97 <= (c as u32) <= 122
}

/// '0' to '9'.
pub open spec fn ascii_digit(c: char) -> bool {
    48 <= (c as u32) <= 57
}

/// The ASCII lower-case rule: 'A' to 'Z' become 'a' to 'z'; any other character
/// stays.
pub open spec fn ascii_lower(c: char) -> char {
    if ascii_upper_letter(c) {
        ((c as u32) + 32) as char
    } else {
        c
    }
}

/// The ASCII upper-case rule: 'a' to 'z' become 'A' to 'Z'; any other character
/// stays.
pub open spec fn ascii_upper(c: char) -> char {
    if ascii_lower_letter(c) {
        ((c as u32) - 32) as char
    } else {
        c
    }
}

/// What `char::is_alphanumeric` returns for a character beyond ASCII.
pub uninterp spec fn alphanumeric_beyond_ascii(c: char) -> bool;

/// What `char::is_alphabetic` returns for a character beyond ASCII.
pub uninterp spec fn alphabetic_beyond_ascii(c: char) -> bool;

/// The first character of `char::to_uppercase` for a character beyond ASCII.
pub uninterp spec fn upper_first_beyond_ascii(c: char) -> char;

/// The first character of `char::to_lowercase` for a character beyond ASCII.
pub uninterp spec fn lower_first_beyond_ascii(c: char) -> char;

/// What `str::to_lowercase` returns for a text that is not all ASCII.
pub uninterp spec fn lowercase_beyond_ascii(s: Seq<char>) -> Seq<char>;

/// What `str::to_uppercase` returns for a text that is not all ASCII.
pub uninterp spec fn uppercase_beyond_ascii(s: Seq<char>) -> Seq<char>;

/// What `char::is_alphanumeric` returns: on ASCII, the letters and digits.
pub open spec fn char_alphanumeric(c: char) -> bool {
    if in_ascii(c) {
        ascii_upper_letter(c) || ascii_lower_letter(c) || ascii_digit(c)
    } else {
        alphanumeric_beyond_ascii(c)
    }
}

/// What `char::is_alphabetic` returns: on ASCII, the letters.
pub open spec fn char_alphabetic(c: char) -> bool {
    if in_ascii(c) {
        ascii_upper_letter(c) || ascii_lower_letter(c)
    } else {
        alphabetic_beyond_ascii(c)
    }
}

/// The first character of `char::to_uppercase`: on ASCII, the ASCII rule.
pub open spec fn char_upper_first(c: char) -> char {
    if in_ascii(c) {
        ascii_upper(c)
    } else {
        upper_first_beyond_ascii(c)
    }
}

/// The first character of `char::to_lowercase`: on ASCII, the ASCII rule.
pub open spec fn char_lower_first(c: char) -> char {
    if in_ascii(c) {
        ascii_lower(c)
    } else {
        lower_first_beyond_ascii(c)
    }
}

/// What `str::to_lowercase` returns: for an ASCII text, each character by the
/// ASCII rule.
pub open spec fn lowercase(s: Seq<char>) -> Seq<char> {
    if all_ascii(s) {
        s.map_values(|c: char| ascii_lower(c))
    } else {
        lowercase_beyond_ascii(s)
    }
}

/// What `str::to_uppercase` returns: for an ASCII text, each character by the
/// ASCII rule.
pub open spec fn uppercase(s: Seq<char>) -> Seq<char> {
    if all_ascii(s) {
        s.map_values(|c: char| ascii_upper(c))
    } else {
        uppercase_beyond_ascii(s)
    }
}

/// Calls `char::is_alphanumeric`: on ASCII, true of the letters and digits.
#[verifier::external_body]
pub(crate) fn is_alphanumeric(c: char) -> (r: bool)
    ensures
        r == (if in_ascii(c) {
            ascii_upper_letter(c) || ascii_lower_letter(c) || ascii_digit(c)
        } else {
            alphanumeric_beyond_ascii(c)
        }),
{
    c.is_alphanumeric()
}

/// Calls `char::is_alphabetic`: on ASCII, true of the letters.
#[verifier::external_body]
pub(crate) fn is_alphabetic(c: char) -> (r: bool)
    ensures
        r == (if in_ascii(c) { ascii_upper_letter(c) || ascii_lower_letter(c) } else { alphabetic_beyond_ascii(c) }),
{
    c.is_alphabetic()
}

/// Calls `char::to_uppercase` and keeps its first character, which always exists;
/// on ASCII, the ASCII upper-case rule.
#[verifier::external_body]
pub(crate) fn upper_first(c: char) -> (r: char)
    ensures
        r == (if in_ascii(c) { ascii_upper(c) } else { upper_first_beyond_ascii(c) }),
{
    c.to_uppercase().next().unwrap()
}

/// Calls `char::to_lowercase` and keeps its first character, which always exists;
/// on ASCII, the ASCII lower-case rule.
#[verifier::external_body]
pub(crate) fn lower_first(c: char) -> (r: char)
    ensures
        r == (if in_ascii(c) { ascii_lower(c) } else { lower_first_beyond_ascii(c) }),
{
    c.to_lowercase().next().unwrap()
}

/// Calls `str::to_lowercase` on the text of `s`: an ASCII text is lower-cased by
/// the ASCII rule, character by character.
#[verifier::external_body]
pub(crate) fn to_lowercase(s: &str) -> (r: String)
    ensures
        r@ == (if all_ascii(s@) { s@.map_values(|c: char| ascii_lower(c)) } else { lowercase_beyond_ascii(s@) }),
{
    s.to_lowercase()
}

/// Calls `str::to_uppercase` on the text of `s`: an ASCII text is upper-cased by
/// the ASCII rule, character by character.
#[verifier::external_body]
pub(crate) fn to_uppercase(s: &str) -> (r: String)
    ensures
        r@ == (if all_ascii(s@) { s@.map_values(|c: char| ascii_upper(c)) } else { uppercase_beyond_ascii(s@) }),
{
    s.to_uppercase()
}

} // verus!
