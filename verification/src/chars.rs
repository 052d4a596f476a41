//! Character classes. Within ASCII they are spelled out here; beyond it they
//! are those of std's Unicode tables.

use vstd::prelude::*;

verus! {

/// What `char::is_numeric` answers for `c`.
pub uninterp spec fn numeric_char(c: char) -> bool;

/// What `char::is_alphabetic` answers for `c`.
pub uninterp spec fn alphabetic_char(c: char) -> bool;

/// What `char::is_whitespace` answers for `c`.
pub uninterp spec fn whitespace_char(c: char) -> bool;

/// Calls `char::is_numeric`. Not proved: the answer is a function of the
/// character alone, named `numeric_char`. The library asks only beyond ASCII.
#[verifier::external_body]
fn unicode_numeric(c: char) -> (r: bool)
    ensures
        r == numeric_char(c),
{
    c.is_numeric()
}

/// Calls `char::is_alphabetic`. Not proved: the answer is a function of the
/// character alone, named `alphabetic_char`. The library asks only beyond ASCII.
#[verifier::external_body]
fn unicode_alphabetic(c: char) -> (r: bool)
    ensures
        r == alphabetic_char(c),
{
    c.is_alphabetic()
}

/// Calls `char::is_whitespace`. Not proved: the answer is a function of the
/// character alone, named `whitespace_char`. The library asks only beyond ASCII.
#[verifier::external_body]
fn unicode_whitespace(c: char) -> (r: bool)
    ensures
        r == whitespace_char(c),
{
    c.is_whitespace()
}

/// Calls `String::push`. Not proved: the text that comes back is `s` with `c`
/// appended as its last character.
#[verifier::external_body]
pub(crate) fn push_char(s: String, c: char) -> (r: String)
    ensures
        r@ == s@.push(c),
{
    let mut r = s;
    r.push(c);
    r
}

/// A character of ASCII.
pub open spec fn is_ascii(c: char) -> bool {
    (c as u32) < 128
}

/// One of the ten decimal digits of ASCII.
pub open spec fn is_ascii_digit(c: char) -> bool {
    48 <= c as u32 && c as u32 <= 57
}

/// A digit: within ASCII the ten decimal digits, beyond it what Unicode
/// counts as numeric.
pub open spec fn is_digit(c: char) -> bool {
    if is_ascii(c) {
        is_ascii_digit(c)
    } else {
        numeric_char(c)
    }
}

/// A letter: within ASCII `A` to `Z` and `a` to `z`, beyond it what Unicode
/// counts as alphabetic.
pub open spec fn is_letter(c: char) -> bool {
    if is_ascii(c) {
        (65 <= c as u32 && c as u32 <= 90) || (97 <= c as u32 && c as u32 <= 122)
    } else {
        alphabetic_char(c)
    }
}

/// What may start an identifier: a letter or an underscore.
pub open spec fn is_ident_start(c: char) -> bool {
    is_letter(c) || c == '_'
}

/// What may continue an identifier: a letter, a digit or an underscore.
pub open spec fn is_ident_part(c: char) -> bool {
    is_letter(c) || is_digit(c) || c == '_'
}

/// White space: within ASCII the blank and the controls from tab to carriage
/// return, beyond it what Unicode counts as white space.
pub open spec fn is_space(c: char) -> bool {
    if is_ascii(c) {
        c as u32 == 32 || (9 <= c as u32 && c as u32 <= 13)
    } else {
        whitespace_char(c)
    }
}

/// The characters that operators are made of.
pub open spec fn is_operator_char(c: char) -> bool {
    c == '+' || c == '-' || c == '=' || c == '/' || c == '*' || c == '!' || c == '<' || c == '>'
        || c == '~' || c == '|' || c == '&' || c == '^'
}

/// One of the four brackets.
pub open spec fn is_bracket(c: char) -> bool {
    c == '(' || c == ')' || c == '{' || c == '}'
}

/// Whether `c` is a digit.
pub fn digit(c: char) -> (r: bool)
    ensures
        r == is_digit(c),
{
    let u: u32 = c as u32;
    if u < 128 {
        48 <= u && u <= 57
    } else {
        unicode_numeric(c)
    }
}

/// Whether `c` is a letter.
pub fn letter(c: char) -> (r: bool)
    ensures
        r == is_letter(c),
{
    let u: u32 = c as u32;
    if u < 128 {
        (65 <= u && u <= 90) || (97 <= u && u <= 122)
    } else {
        unicode_alphabetic(c)
    }
}

/// Whether `c` may continue an identifier.
pub fn ident_part(c: char) -> (r: bool)
    ensures
        r == is_ident_part(c),
{
    letter(c) || digit(c) || c == '_'
}

/// Whether `c` is white space.
pub fn space(c: char) -> (r: bool)
    ensures
        r == is_space(c),
{
    let u: u32 = c as u32;
    if u < 128 {
        u == 32 || (9 <= u && u <= 13)
    } else {
        unicode_whitespace(c)
    }
}

/// Whether `input` is an operator character.
pub fn is_operator(input: &char) -> (r: bool)
    ensures
        r == is_operator_char(*input),
{
    let c: char = *input;
    c == '+' || c == '-' || c == '=' || c == '/' || c == '*' || c == '!' || c == '<' || c == '>'
        || c == '~' || c == '|' || c == '&' || c == '^'
}

/// Whether `c` is a bracket.
pub fn bracket(c: char) -> (r: bool)
    ensures
        r == is_bracket(c),
{
    c == '(' || c == ')' || c == '{' || c == '}'
}

} // verus!
