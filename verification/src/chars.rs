//! ASCII character classes and case conversion used by the pattern engine.

use vstd::prelude::*;

verus! {

/// ASCII lowercase letter.
pub open spec fn is_lower(c: char) -> bool {
    97 <= c as int && c as int <= 122
}

/// ASCII uppercase letter.
pub open spec fn is_upper(c: char) -> bool {
    65 <= c as int && c as int <= 90
}

/// ASCII decimal digit.
pub open spec fn is_digit(c: char) -> bool {
    48 <= c as int && c as int <= 57
}

/// ASCII letter.
pub open spec fn is_alpha(c: char) -> bool {
    is_lower(c) || is_upper(c)
}

/// Word constituent: ASCII letter, digit or underscore.
pub open spec fn is_word(c: char) -> bool {
    is_alpha(c) || is_digit(c) || c == '_'
}

/// Lowercase form of an ASCII letter; any other character is unchanged.
pub open spec fn to_lower(c: char) -> char {
    if is_upper(c) {
        (c as int + 32) as char
    } else {
        c
    }
}

/// Uppercase form of an ASCII letter; any other character is unchanged.
pub open spec fn to_upper(c: char) -> char {
    if is_lower(c) {
        (c as int - 32) as char
    } else {
        c
    }
}

/// Case conversion maps letters to letters, and the two forms of a letter
/// determine each other.
pub proof fn lemma_case_chars(c: char)
    requires
        is_alpha(c),
    ensures
        is_alpha(to_lower(c)),
        is_alpha(to_upper(c)),
        is_lower(to_lower(c)),
        is_upper(to_upper(c)),
        to_lower(c) as int == if is_upper(c) {
            c as int + 32
        } else {
            c as int
        },
        to_upper(c) as int == if is_lower(c) {
            c as int - 32
        } else {
            c as int
        },
{
}

pub fn word_char(c: char) -> (r: bool)
    ensures
        r == is_word(c),
{
    let u = c as u32;
    (97 <= u && u <= 122) || (65 <= u && u <= 90) || (48 <= u && u <= 57) || u == 95
}

pub fn alpha_char(c: char) -> (r: bool)
    ensures
        r == is_alpha(c),
{
    let u = c as u32;
    (97 <= u && u <= 122) || (65 <= u && u <= 90)
}

pub fn lower_char(c: char) -> (r: char)
    ensures
        r == to_lower(c),
{
    let u = c as u32;
    if 65 <= u && u <= 90 {
        ((c as u8) + 32) as char
    } else {
        c
    }
}

pub fn upper_char(c: char) -> (r: char)
    ensures
        r == to_upper(c),
{
    let u = c as u32;
    if 97 <= u && u <= 122 {
        ((c as u8) - 32) as char
    } else {
        c
    }
}

} // verus!
