//! Character classes used throughout the title parser: whitespace, digits,
//! ASCII letters, bracket sets, and case-insensitive comparison.

use vstd::prelude::*;

verus! {

/// The whitespace characters, the same set that `char::is_whitespace` accepts.
pub open spec fn is_space(c: char) -> bool {
    ||| c == ' '
    ||| c == '\t'
    ||| c == '\n'
    ||| c == '\r'
    ||| c == '\u{b}'
    ||| c == '\u{c}'
    ||| c == '\u{85}'
    ||| c == '\u{a0}'
    ||| c == '\u{1680}'
    ||| (0x2000 <= c as u32 && c as u32 <= 0x200a)
    ||| c == '\u{2028}'
    ||| c == '\u{2029}'
    ||| c == '\u{202f}'
    ||| c == '\u{205f}'
    ||| c == '\u{3000}'
}

pub fn space(c: char) -> (r: bool)
    ensures
        r == is_space(c),
{
    c == ' ' || c == '\t' || c == '\n' || c == '\r' || c == '\u{b}' || c == '\u{c}'
        || c == '\u{85}' || c == '\u{a0}' || c == '\u{1680}'
        || (0x2000 <= c as u32 && c as u32 <= 0x200a) || c == '\u{2028}' || c == '\u{2029}'
        || c == '\u{202f}' || c == '\u{205f}' || c == '\u{3000}'
}

pub open spec fn is_digit(c: char) -> bool {
    48 <= c as u32 && c as u32 <= 57
}

pub fn digit(c: char) -> (r: bool)
    ensures
        r == is_digit(c),
{
    48 <= c as u32 && c as u32 <= 57
}

pub open spec fn is_ascii_letter(c: char) -> bool {
    (65 <= c as u32 && c as u32 <= 90) || (97 <= c as u32 && c as u32 <= 122)
}

pub fn ascii_letter(c: char) -> (r: bool)
    ensures
        r == is_ascii_letter(c),
{
    (65 <= c as u32 && c as u32 <= 90) || (97 <= c as u32 && c as u32 <= 122)
}

/// The code point of `c` with an upper-case ASCII letter folded to lower case.
pub open spec fn fold_u32(c: char) -> u32 {
    if 65 <= c as u32 && c as u32 <= 90 {
        (c as u32 + 32) as u32
    } else {
        c as u32
    }
}

/// ASCII-case-insensitive character equality.
pub open spec fn eq_ci(a: char, b: char) -> bool {
    fold_u32(a) == fold_u32(b)
}

pub fn char_eq_ci(a: char, b: char) -> (r: bool)
    ensures
        r == eq_ci(a, b),
{
    let fa: u32 = if 65 <= a as u32 && a as u32 <= 90 {
        a as u32 + 32
    } else {
        a as u32
    };
    let fb: u32 = if 65 <= b as u32 && b as u32 <= 90 {
        b as u32 + 32
    } else {
        b as u32
    };
    fa == fb
}

/// Opening brackets that `remove_brackets` strips from the front.
pub open spec fn is_open_bracket(c: char) -> bool {
    c == '(' || c == '[' || c == '{' || c == '<' || c == '【'
}

pub fn open_bracket(c: char) -> (r: bool)
    ensures
        r == is_open_bracket(c),
{
    c == '(' || c == '[' || c == '{' || c == '<' || c == '【'
}

/// Closing brackets that `remove_brackets` strips from the back.
pub open spec fn is_close_bracket(c: char) -> bool {
    c == ')' || c == ']' || c == '}' || c == '>' || c == '】'
}

pub fn close_bracket(c: char) -> (r: bool)
    ensures
        r == is_close_bracket(c),
{
    c == ')' || c == ']' || c == '}' || c == '>' || c == '】'
}

/// Matched empty pairs that `remove_empty_brackets` deletes.
pub open spec fn is_pair(a: char, b: char) -> bool {
    ||| (a == '(' && b == ')')
    ||| (a == '[' && b == ']')
    ||| (a == '{' && b == '}')
    ||| (a == '<' && b == '>')
}

pub fn bracket_pair(a: char, b: char) -> (r: bool)
    ensures
        r == is_pair(a, b),
{
    (a == '(' && b == ')') || (a == '[' && b == ']') || (a == '{' && b == '}') || (a == '<' && b
        == '>')
}

} // verus!
