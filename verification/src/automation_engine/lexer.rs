//! The lexer of the automation engine. Its tokens, token kinds and tokenization are
//! those of the statement lexer; the per-character validators below decide whether a
//! character may extend the word that is being read.
pub use crate::lexer::lexer::{lexer, Token, TokenKind};
use crate::lexer::lexer::{is_digit, is_letter, spec_is_digit, spec_is_letter};
use crate::text::chars_of;
use vstd::prelude::*;

verus! {

/// `c` may extend the identifier `current`: it is a letter or digit, and neither the
/// word's first character (or `c` itself when the word is empty) is a digit.
pub open spec fn spec_validate_identifier(c: char, current: Seq<char>) -> bool {
    &&& (spec_is_digit(c) || spec_is_letter(c))
    &&& if current.len() > 0 {
        !spec_is_digit(current[0])
    } else {
        !spec_is_digit(c)
    }
}

/// `c` may extend the number `current`: it is a digit or `.`, and a `.` never follows a `.`.
pub open spec fn spec_validate_number(c: char, current: Seq<char>) -> bool {
    spec_is_digit(c) && (c != '.' || current.len() == 0 || current.last() != '.')
}

pub fn validate_identifier(c: char, current_token: &str) -> (b: bool)
    ensures
        b == spec_validate_identifier(c, current_token@),
{
    if !is_digit(c) && !is_letter(c) {
        return false;
    }
    let chars = chars_of(current_token);
    if chars.len() > 0 {
        if is_digit(chars[0]) {
            return false;
        }
    } else {
        if is_digit(c) {
            return false;
        }
    }
    true
}

pub fn validate_number(c: char, current_token: &str) -> (b: bool)
    ensures
        b == spec_validate_number(c, current_token@),
{
    let chars = chars_of(current_token);
    let last_is_dot = chars.len() > 0 && chars[chars.len() - 1] == '.';
    is_digit(c) && (c != '.' || !last_is_dot)
}

} // verus!
