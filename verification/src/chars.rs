//! Character classification used by the lexer, with spec-level definitions
//! and executable counterparts proved against them.

use vstd::prelude::*;

verus! {

/// The character the cursor reads at index `i`: the text's character inside
/// the buffer, and the NUL sentinel at or past the end of input.
pub open spec fn char_at(s: Seq<char>, i: int) -> char {
    if 0 <= i < s.len() {
        s[i]
    } else {
        '\0'
    }
}

/// Whitespace skipped between tokens (the ASCII whitespace set).
pub open spec fn is_ws(c: char) -> bool {
    c == ' ' || c == '\t' || c == '\n' || c == '\r' || c == '\x0c'
}

pub open spec fn is_digit(c: char) -> bool {
    '0' <= c && c <= '9'
}

pub open spec fn is_alpha(c: char) -> bool {
    ('a' <= c && c <= 'z') || ('A' <= c && c <= 'Z')
}

pub open spec fn is_alnum(c: char) -> bool {
    is_alpha(c) || is_digit(c)
}

pub open spec fn is_hex_digit(c: char) -> bool {
    is_digit(c) || ('a' <= c && c <= 'f') || ('A' <= c && c <= 'F')
}

/// First character of an identifier or keyword.
pub open spec fn is_id_start(c: char) -> bool {
    is_alpha(c) || c == '_' || c == '.'
}

/// Continuation character of an identifier or keyword.
pub open spec fn is_id_cont(c: char) -> bool {
    is_alnum(c) || c == '_'
}

/// Parentheses and brackets, each always a single-character token.
pub open spec fn is_paren(c: char) -> bool {
    c == '(' || c == ')' || c == '[' || c == ']' || c == '{' || c == '}'
}

/// Escape characters recognized directly after a backslash, besides `x`.
pub open spec fn is_simple_escape(c: char) -> bool {
    c == '"' || c == '\\' || c == '0' || c == 't' || c == 'n' || c == 'r'
}

pub fn ws_char(c: char) -> (r: bool)
    ensures
        r == is_ws(c),
{
    c == ' ' || c == '\t' || c == '\n' || c == '\r' || c == '\x0c'
}

pub fn digit_char(c: char) -> (r: bool)
    ensures
        r == is_digit(c),
{
    '0' <= c && c <= '9'
}

pub fn alpha_char(c: char) -> (r: bool)
    ensures
        r == is_alpha(c),
{
    ('a' <= c && c <= 'z') || ('A' <= c && c <= 'Z')
}

pub fn hex_digit_char(c: char) -> (r: bool)
    ensures
        r == is_hex_digit(c),
{
    digit_char(c) || ('a' <= c && c <= 'f') || ('A' <= c && c <= 'F')
}

pub fn id_start_char(c: char) -> (r: bool)
    ensures
        r == is_id_start(c),
{
    alpha_char(c) || c == '_' || c == '.'
}

pub fn id_cont_char(c: char) -> (r: bool)
    ensures
        r == is_id_cont(c),
{
    alpha_char(c) || digit_char(c) || c == '_'
}

pub fn paren_char(c: char) -> (r: bool)
    ensures
        r == is_paren(c),
{
    c == '(' || c == ')' || c == '[' || c == ']' || c == '{' || c == '}'
}

pub fn simple_escape_char(c: char) -> (r: bool)
    ensures
        r == is_simple_escape(c),
{
    c == '"' || c == '\\' || c == '0' || c == 't' || c == 'n' || c == 'r'
}

} // verus!
