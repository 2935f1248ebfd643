//! Character classes used by the lexer and the validation rules.
//!
//! The Unicode classes (`alphabetic`, `alphanumeric`, `whitespace`) are
//! decided by std; they depend on the character alone, so each gets an
//! uninterpreted name and a trusted wrapper whose result is that name.

use vstd::prelude::*;

verus! {

/// Whether std classifies `c` as alphabetic (`char::is_alphabetic`).
pub uninterp spec fn char_alphabetic(c: char) -> bool;

/// Whether std classifies `c` as alphanumeric (`char::is_alphanumeric`).
pub uninterp spec fn char_alphanumeric(c: char) -> bool;

/// Whether std classifies `c` as whitespace (`char::is_whitespace`).
pub uninterp spec fn char_whitespace(c: char) -> bool;

/// Relies on char::is_alphabetic; its documentation states that
/// is_alphanumeric is is_alphabetic or is_numeric, so an alphabetic
/// character is alphanumeric.
#[verifier::external_body]
pub(crate) fn is_alphabetic_char(c: char) -> (r: bool)
    ensures
        r == char_alphabetic(c),
        r ==> char_alphanumeric(c),
{
    c.is_alphabetic()
}

/// Relies on char::is_alphanumeric: the result depends on the character alone.
#[verifier::external_body]
pub(crate) fn is_alphanumeric_char(c: char) -> (r: bool)
    ensures
        r == char_alphanumeric(c),
{
    c.is_alphanumeric()
}

/// Relies on char::is_whitespace: the result depends on the character
/// alone.
#[verifier::external_body]
pub(crate) fn is_whitespace_char(c: char) -> (r: bool)
    ensures
        r == char_whitespace(c),
{
    c.is_whitespace()
}

/// Relies on String::push: appends exactly one character at the end.
#[verifier::external_body]
pub(crate) fn push_char(s: &mut String, c: char)
    ensures
        final(s)@ == old(s)@.push(c),
{
    s.push(c);
}

/// An ASCII decimal digit.
pub open spec fn spec_is_digit(c: char) -> bool {
    48 <= c as u32 <= 57
}

/// The numeric value of an ASCII decimal digit.
pub open spec fn spec_digit_val(c: char) -> int {
    c as u32 - 48
}

pub fn is_digit(c: char) -> (r: bool)
    ensures
        r == spec_is_digit(c),
{
    let u = c as u32;
    48 <= u && u <= 57
}

/// A string all of whose characters are whitespace; what is left after
/// trimming such a string is empty.
pub open spec fn blank(s: Seq<char>) -> bool {
    forall|i: int| 0 <= i < s.len() ==> char_whitespace(#[trigger] s[i])
}

/// Whether trimming `s` leaves nothing, character by character.
pub fn is_blank(s: &String) -> (r: bool)
    ensures
        r == blank(s@),
{
    let text = s.as_str();
    let n = text.unicode_len();
    let mut i: usize = 0;
    while i < n
        invariant
            0 <= i <= n,
            n == text@.len(),
            text@ == s@,
            forall|j: int| 0 <= j < i ==> char_whitespace(#[trigger] text@[j]),
        decreases n - i,
    {
        let c = text.get_char(i);
        if !is_whitespace_char(c) {
            return false;
        }
        i = i + 1;
    }
    true
}

} // verus!
