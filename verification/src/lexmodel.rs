//! The functional model of the lexer: spec-level scanning functions over the
//! decoded character sequence.  `lex_from` states, for a text and a cursor
//! position, exactly which token or syntax error the next scan yields and
//! where the cursor stops.  The executable lexer is proved to match it.
//!
//! Lexemes are verbatim slices of the text: escape sequences inside string
//! and character literals are preserved as literal escape text, not decoded.

use vstd::prelude::*;
use vstd::math::min;
use crate::chars::{char_at, is_ws, is_digit, is_hex_digit, is_id_start, is_id_cont, is_paren,
    is_simple_escape};
use crate::lexer::TokenType;

verus! {

pub open spec fn msg_invalid_char() -> Seq<char> {
    "invalid character"@
}

pub open spec fn msg_str_trailing() -> Seq<char> {
    "expected trailing `\"`"@
}

pub open spec fn msg_char_trailing() -> Seq<char> {
    "expected trailing quote"@
}

pub open spec fn msg_char_empty() -> Seq<char> {
    "empty character literal"@
}

pub open spec fn msg_char_ws() -> Seq<char> {
    "whitespace in character literal"@
}

pub open spec fn msg_escape() -> Seq<char> {
    "invalid character escape"@
}

pub open spec fn msg_hex() -> Seq<char> {
    "expected two hex values after `\\x`"@
}

/// The fixed keyword set; any other identifier lexeme stays an identifier.
pub open spec fn is_keyword(s: Seq<char>) -> bool {
    s == "import"@ || s == "fn"@ || s == "const"@ || s == "mutable"@
}

/// First position at or after `i` holding no whitespace (possibly the end).
pub open spec fn ws_end(s: Seq<char>, i: int) -> int
    decreases s.len() - i,
{
    if 0 <= i < s.len() && is_ws(s[i]) {
        ws_end(s, i + 1)
    } else {
        i
    }
}

/// First position at or after `i` holding no identifier-continuation
/// character (possibly the end).
pub open spec fn id_end(s: Seq<char>, i: int) -> int
    decreases s.len() - i,
{
    if 0 <= i < s.len() && is_id_cont(s[i]) {
        id_end(s, i + 1)
    } else {
        i
    }
}

/// Scans a numeric body from `i`: digits, with at most one decimal point.
/// Returns the stop position and whether a point was consumed.
pub open spec fn num_scan(s: Seq<char>, i: int, seen_dot: bool) -> (int, bool)
    decreases s.len() - i,
{
    let c = char_at(s, i);
    if is_digit(c) || (c == '.' && !seen_dot) {
        num_scan(s, i + 1, seen_dot || c == '.')
    } else {
        (i, seen_dot)
    }
}

/// Outcome of scanning an escape sequence whose backslash sits at `k - 1`.
/// On failure, `lex_end` is the exclusive end of the partial lexeme (the
/// characters the scan had accepted) and `at` the failure position.
pub ghost enum EscOut {
    Next { next: int },
    Bad { msg: Seq<char>, lex_end: int, at: int },
}

pub open spec fn esc_scan(s: Seq<char>, k: int) -> EscOut {
    let c = char_at(s, k);
    if is_simple_escape(c) {
        EscOut::Next { next: k + 1 }
    } else if c == 'x' {
        if !is_hex_digit(char_at(s, k + 1)) {
            EscOut::Bad { msg: msg_hex(), lex_end: min(k + 2, s.len() as int), at: k + 1 }
        } else if !is_hex_digit(char_at(s, k + 2)) {
            EscOut::Bad { msg: msg_hex(), lex_end: min(k + 3, s.len() as int), at: k + 2 }
        } else {
            EscOut::Next { next: k + 3 }
        }
    } else {
        EscOut::Bad { msg: msg_escape(), lex_end: k, at: k }
    }
}

/// Outcome of scanning a literal's body: the position directly after the
/// closing delimiter, or a syntax error.
pub ghost enum ScanOut {
    Done { next: int },
    Fail { msg: Seq<char>, lex_end: int, at: int },
}

/// Scans a string literal's body from `j` (directly after the opening
/// quote) to its closing quote.  A raw newline or the end of input fails;
/// escape sequences are checked and kept verbatim.
pub open spec fn str_scan(s: Seq<char>, j: int) -> ScanOut
    decreases s.len() - j,
{
    let c = char_at(s, j);
    if c == '"' {
        ScanOut::Done { next: j + 1 }
    } else if c == '\n' || c == '\0' {
        ScanOut::Fail { msg: msg_str_trailing(), lex_end: j, at: j }
    } else if c == '\\' {
        match esc_scan(s, j + 1) {
            EscOut::Next { next } => str_scan(s, next),
            EscOut::Bad { msg, lex_end, at } => ScanOut::Fail { msg, lex_end, at },
        }
    } else {
        str_scan(s, j + 1)
    }
}

/// Checks the closing quote of a character literal at `m`.
pub open spec fn char_term(s: Seq<char>, m: int) -> ScanOut {
    if char_at(s, m) == '\'' {
        ScanOut::Done { next: m + 1 }
    } else {
        ScanOut::Fail { msg: msg_char_trailing(), lex_end: min(m + 1, s.len() as int), at: m }
    }
}

/// Scans a character literal opened at `i`: exactly one literal character or
/// one escape sequence, then a closing quote.  An empty literal, raw
/// whitespace in place of the character, and a missing terminator each fail
/// with their own error.
pub open spec fn char_scan(s: Seq<char>, i: int) -> ScanOut {
    let j = i + 1;
    let c = char_at(s, j);
    if c == '\'' {
        ScanOut::Fail { msg: msg_char_empty(), lex_end: j + 1, at: j }
    } else if is_ws(c) {
        ScanOut::Fail { msg: msg_char_ws(), lex_end: j + 1, at: j }
    } else if c == '\0' {
        ScanOut::Fail { msg: msg_char_trailing(), lex_end: j, at: j }
    } else if c == '\\' {
        match esc_scan(s, j + 1) {
            EscOut::Next { next } => char_term(s, next),
            EscOut::Bad { msg, lex_end, at } => ScanOut::Fail { msg, lex_end, at },
        }
    } else {
        char_term(s, j + 1)
    }
}

/// What one scan yields: a token (its tag, verbatim lexeme, start offset and
/// the cursor position directly after it), or a syntax error (its message,
/// partial lexeme, token start, and failure position, where the cursor
/// stops).
pub ghost enum LexOut {
    Tok { tag: TokenType, lexeme: Seq<char>, start: int, next: int },
    Fail { msg: Seq<char>, lexeme: Seq<char>, token_start: int, at: int },
}

/// The lexer's single-step model: from cursor position `i`, skip whitespace,
/// classify by the first character, and scan one token.
pub open spec fn lex_from(s: Seq<char>, i: int) -> LexOut {
    let j = ws_end(s, i);
    let c = char_at(s, j);
    if c == '\0' {
        LexOut::Tok { tag: TokenType::Eof, lexeme: seq!['\0'], start: j, next: j }
    } else if is_id_start(c) {
        let e = id_end(s, j + 1);
        let lx = s.subrange(j, e);
        let tag = if is_keyword(lx) {
            TokenType::Keyword
        } else {
            TokenType::Id
        };
        LexOut::Tok { tag, lexeme: lx, start: j, next: e }
    } else if c == '"' {
        match str_scan(s, j + 1) {
            ScanOut::Done { next } => (LexOut::Tok {
                tag: TokenType::Str,
                lexeme: s.subrange(j, next),
                start: j,
                next,
            }),
            ScanOut::Fail { msg, lex_end, at } => (LexOut::Fail {
                msg,
                lexeme: s.subrange(j, lex_end),
                token_start: j,
                at,
            }),
        }
    } else if c == '\'' {
        match char_scan(s, j) {
            ScanOut::Done { next } => (LexOut::Tok {
                tag: TokenType::Char,
                lexeme: s.subrange(j, next),
                start: j,
                next,
            }),
            ScanOut::Fail { msg, lex_end, at } => (LexOut::Fail {
                msg,
                lexeme: s.subrange(j, lex_end),
                token_start: j,
                at,
            }),
        }
    } else if is_digit(c) {
        let r = num_scan(s, j + 1, false);
        let e = r.0;
        let seen = r.1;
        if char_at(s, e - 1) == '.' {
            LexOut::Tok { tag: TokenType::Int, lexeme: s.subrange(j, e - 1), start: j, next: e - 1 }
        } else {
            let tag = if seen {
                TokenType::Float
            } else {
                TokenType::Int
            };
            LexOut::Tok { tag, lexeme: s.subrange(j, e), start: j, next: e }
        }
    } else if is_paren(c) {
        LexOut::Tok { tag: TokenType::Paren, lexeme: s.subrange(j, j + 1), start: j, next: j + 1 }
    } else {
        LexOut::Fail { msg: msg_invalid_char(), lexeme: s.subrange(j, j + 1), token_start: j, at: j }
    }
}

/// An escape scan moves forward and stays inside the text, as does the
/// partial lexeme and failure position it reports.
pub proof fn lemma_esc_scan_bounds(s: Seq<char>, k: int)
    requires
        0 <= k <= s.len(),
    ensures
        match esc_scan(s, k) {
            EscOut::Next { next } => k < next <= s.len(),
            EscOut::Bad { msg, lex_end, at } => k <= lex_end <= s.len() && k <= at <= s.len(),
        },
{
}

/// A string-body scan moves forward and stays inside the text, as does the
/// partial lexeme and failure position it reports.
pub proof fn lemma_str_scan_bounds(s: Seq<char>, j: int)
    requires
        0 <= j <= s.len(),
    ensures
        match str_scan(s, j) {
            ScanOut::Done { next } => j < next <= s.len(),
            ScanOut::Fail { msg, lex_end, at } => j <= lex_end <= s.len() && j <= at <= s.len(),
        },
    decreases s.len() - j,
{
    let c = char_at(s, j);
    if c == '"' || c == '\n' || c == '\0' {
    } else if c == '\\' {
        lemma_esc_scan_bounds(s, j + 1);
        match esc_scan(s, j + 1) {
            EscOut::Next { next } => {
                lemma_str_scan_bounds(s, next);
            },
            EscOut::Bad { .. } => {
            },
        }
    } else {
        lemma_str_scan_bounds(s, j + 1);
    }
}

/// A character-literal scan moves forward and stays inside the text, as does
/// the partial lexeme and failure position it reports.
pub proof fn lemma_char_scan_bounds(s: Seq<char>, i: int)
    requires
        0 <= i < s.len(),
    ensures
        match char_scan(s, i) {
            ScanOut::Done { next } => i < next <= s.len(),
            ScanOut::Fail { msg, lex_end, at } => i <= lex_end <= s.len() && i <= at <= s.len(),
        },
{
    let j = i + 1;
    let c = char_at(s, j);
    if c == '\\' {
        lemma_esc_scan_bounds(s, j + 1);
    }
}

/// Whitespace skipping stays inside the text and stops at the first
/// non-whitespace position.
pub proof fn lemma_ws_end_props(s: Seq<char>, i: int)
    requires
        0 <= i <= s.len(),
    ensures
        i <= ws_end(s, i) <= s.len(),
        !is_ws(char_at(s, ws_end(s, i))),
        forall|k: int| i <= k < ws_end(s, i) ==> is_ws(#[trigger] s[k]),
    decreases s.len() - i,
{
    if i < s.len() && is_ws(s[i]) {
        lemma_ws_end_props(s, i + 1);
    }
}

/// Identifier scanning stays inside the text and stops at the first
/// non-continuation position.
pub proof fn lemma_id_end_props(s: Seq<char>, i: int)
    requires
        0 <= i <= s.len(),
    ensures
        i <= id_end(s, i) <= s.len(),
        !is_id_cont(char_at(s, id_end(s, i))),
        forall|k: int| i <= k < id_end(s, i) ==> is_id_cont(#[trigger] s[k]),
    decreases s.len() - i,
{
    if i < s.len() && is_id_cont(s[i]) {
        lemma_id_end_props(s, i + 1);
    }
}

/// When the identifier scan can run to the end of the text, it does.
pub proof fn lemma_id_end_all(s: Seq<char>, i: int)
    requires
        0 <= i <= s.len(),
        forall|k: int| i <= k < s.len() ==> is_id_cont(#[trigger] s[k]),
    ensures
        id_end(s, i) == s.len(),
    decreases s.len() - i,
{
    if i < s.len() {
        lemma_id_end_all(s, i + 1);
    }
}

/// Once a decimal point was consumed, the scan consumes digits only.
pub proof fn lemma_num_scan_seen(s: Seq<char>, i: int)
    requires
        0 <= i <= s.len(),
    ensures
        num_scan(s, i, true).1,
        forall|k: int| i <= k < num_scan(s, i, true).0 ==> is_digit(#[trigger] s[k]),
    decreases s.len() - i,
{
    if is_digit(char_at(s, i)) {
        lemma_num_scan_seen(s, i + 1);
    }
}

/// A scan that never met a decimal point consumed digits only.
pub proof fn lemma_num_scan_no_dot(s: Seq<char>, i: int)
    requires
        0 <= i <= s.len(),
        !num_scan(s, i, false).1,
    ensures
        forall|k: int| i <= k < num_scan(s, i, false).0 ==> is_digit(#[trigger] s[k]),
    decreases s.len() - i,
{
    let c = char_at(s, i);
    if is_digit(c) {
        lemma_num_scan_no_dot(s, i + 1);
    } else if c == '.' {
        lemma_num_scan_seen(s, i + 1);
    }
}

/// When the last consumed character is the decimal point, it was the only
/// one: everything before it is a digit.
pub proof fn lemma_num_scan_trailing_dot(s: Seq<char>, i: int)
    requires
        0 <= i <= s.len(),
        char_at(s, num_scan(s, i, false).0 - 1) == '.',
        num_scan(s, i, false).0 > i,
    ensures
        forall|k: int| i <= k < num_scan(s, i, false).0 - 1 ==> is_digit(#[trigger] s[k]),
    decreases s.len() - i,
{
    let c = char_at(s, i);
    let e = num_scan(s, i, false).0;
    if is_digit(c) {
        if e > i + 1 {
            lemma_num_scan_trailing_dot(s, i + 1);
        }
    } else if c == '.' {
        lemma_num_scan_seen(s, i + 1);
        let e2 = num_scan(s, i + 1, true).0;
        if e2 > i + 1 {
            assert(is_digit(s[e2 - 1]));
            assert(char_at(s, e - 1) == s[e2 - 1]);
        }
    }
}

/// A scan over digits alone runs to the end and meets no decimal point.
pub proof fn lemma_num_scan_all_digits(s: Seq<char>, i: int)
    requires
        0 <= i <= s.len(),
        forall|k: int| i <= k < s.len() ==> is_digit(#[trigger] s[k]),
    ensures
        num_scan(s, i, false) == (s.len() as int, false),
    decreases s.len() - i,
{
    if i < s.len() {
        lemma_num_scan_all_digits(s, i + 1);
    }
}

/// The numeric scan stays inside the text; every consumed character is a
/// digit or the single accepted decimal point.
pub proof fn lemma_num_scan_props(s: Seq<char>, i: int, seen_dot: bool)
    requires
        0 <= i <= s.len(),
    ensures
        i <= num_scan(s, i, seen_dot).0 <= s.len(),
        forall|k: int|
            i <= k < num_scan(s, i, seen_dot).0 ==> is_digit(#[trigger] s[k]) || s[k] == '.',
        seen_dot ==> num_scan(s, i, seen_dot).1,
    decreases s.len() - i,
{
    let c = char_at(s, i);
    if is_digit(c) || (c == '.' && !seen_dot) {
        lemma_num_scan_props(s, i + 1, seen_dot || c == '.');
    }
}

} // verus!
