//! Character classes.

use vstd::prelude::*;

verus! {

/// Whether a character past ASCII has the Unicode property `Alphabetic`.
pub uninterp spec fn alphabetic_past_ascii(c: char) -> bool;

/// Whether a character past ASCII has one of the Unicode number categories.
pub uninterp spec fn numeric_past_ascii(c: char) -> bool;

/// Whether `c` is an ASCII letter.
pub open spec fn ascii_letter(c: char) -> bool {
    ('a' <= c <= 'z') || ('A' <= c <= 'Z')
}

/// Whether `c` is an ASCII digit.
pub open spec fn ascii_digit(c: char) -> bool {
    '0' <= c <= '9'
}

/// Whether `c` is a letter.
pub open spec fn letter(c: char) -> bool {
    if c <= '\u{7f}' { ascii_letter(c) } else { alphabetic_past_ascii(c) }
}

/// Whether `c` is a letter or a number.
pub open spec fn letter_or_number(c: char) -> bool {
    if c <= '\u{7f}' {
        ascii_letter(c) || ascii_digit(c)
    } else {
        alphabetic_past_ascii(c) || numeric_past_ascii(c)
    }
}

/// `char::is_alphabetic`: of ASCII the letters, of the rest what the Unicode tables say.
#[verifier::external_body]
pub(crate) fn is_letter(c: char) -> (r: bool)
    ensures
        r == letter(c),
        c > '\u{7f}' ==> r == alphabetic_past_ascii(c),
{
    c.is_alphabetic()
}

/// `char::is_alphanumeric`: the characters that `char::is_alphabetic` or `char::is_numeric`
/// accepts; of ASCII these are the letters and digits.
#[verifier::external_body]
pub(crate) fn is_letter_or_number(c: char) -> (r: bool)
    ensures
        r == letter_or_number(c),
        c > '\u{7f}' ==> r == (alphabetic_past_ascii(c) || numeric_past_ascii(c)),
{
    c.is_alphanumeric()
}

} // verus!
