//! Character classes and token shapes of the expression language.
//!
//! A token is either a nonempty run of ASCII digits (a number literal) or a
//! single non-digit, non-whitespace character (an operator, a parenthesis, or
//! an unrecognized symbol left for the parser to reject).

use vstd::prelude::*;
use vstd::string::StrSliceExecFns;

verus! {

/// An ASCII decimal digit, `'0'` through `'9'`.
pub open spec fn is_digit_char(c: char) -> bool {
    48 <= c as u32 && c as u32 <= 57
}

/// The characters with the Unicode `White_Space` property, the classification
/// used by `char::is_whitespace`: ASCII whitespace, next line, no-break space,
/// ogham space mark, the en/em family of spaces, line and paragraph
/// separators, narrow and medium no-break spaces, and the ideographic space.
pub open spec fn is_whitespace_char(c: char) -> bool {
    let u = c as u32;
    ||| u == 0x20
    ||| 0x9 <= u && u <= 0xD
    ||| u == 0x85
    ||| u == 0xA0
    ||| u == 0x1680
    ||| 0x2000 <= u && u <= 0x200A
    ||| u == 0x2028
    ||| u == 0x2029
    ||| u == 0x202F
    ||| u == 0x205F
    ||| u == 0x3000
}

/// The text of a number token: a nonempty run of digits.
pub open spec fn is_number_text(t: Seq<char>) -> bool {
    t.len() > 0 && forall|k: int| 0 <= k < t.len() ==> is_digit_char(#[trigger] t[k])
}

/// The text of an opening-parenthesis token.
pub open spec fn is_open_paren_text(t: Seq<char>) -> bool {
    t.len() == 1 && t[0] == '('
}

/// The text of a closing-parenthesis token.
pub open spec fn is_close_paren_text(t: Seq<char>) -> bool {
    t.len() == 1 && t[0] == ')'
}

/// Decides `is_digit_char`.
pub fn is_digit(c: char) -> (r: bool)
    ensures
        r == is_digit_char(c),
{
    let u: u32 = c as u32;
    48 <= u && u <= 57
}

/// Decides `is_whitespace_char`.
pub fn is_whitespace(c: char) -> (r: bool)
    ensures
        r == is_whitespace_char(c),
{
    let u: u32 = c as u32;
    u == 0x20 || (0x9 <= u && u <= 0xD) || u == 0x85 || u == 0xA0 || u == 0x1680 || (0x2000 <= u
        && u <= 0x200A) || u == 0x2028 || u == 0x2029 || u == 0x202F || u == 0x205F || u == 0x3000
}

/// Decides `is_number_text`.
pub fn is_number_token(t: &str) -> (r: bool)
    ensures
        r == is_number_text(t@),
{
    let n = t.unicode_len();
    if n == 0 {
        return false;
    }
    let mut k: usize = 0;
    while k < n
        invariant
            n == t@.len(),
            k <= n,
            forall|j: int| 0 <= j < k ==> is_digit_char(#[trigger] t@[j]),
        decreases n - k,
    {
        if !is_digit(t.get_char(k)) {
            return false;
        }
        k += 1;
    }
    true
}

/// Decides `is_open_paren_text`.
pub fn is_open_paren(t: &str) -> (r: bool)
    ensures
        r == is_open_paren_text(t@),
{
    t.unicode_len() == 1 && t.get_char(0) == '('
}

/// Decides `is_close_paren_text`.
pub fn is_close_paren(t: &str) -> (r: bool)
    ensures
        r == is_close_paren_text(t@),
{
    t.unicode_len() == 1 && t.get_char(0) == ')'
}

} // verus!
