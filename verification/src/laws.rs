//! Laws of the lexer and the renderer, each proved of the functional model
//! that the executable code is verified against.

use vstd::prelude::*;
use crate::chars::{char_at, is_ws, is_digit, is_id_start, is_id_cont};
use crate::lexer::TokenType;
use crate::lexmodel::{ws_end, num_scan, lex_from, is_keyword, LexOut, lemma_id_end_all,
    lemma_id_end_props, lemma_num_scan_props, lemma_num_scan_no_dot, lemma_num_scan_trailing_dot,
    lemma_num_scan_all_digits, lemma_ws_end_props, lemma_str_scan_bounds, lemma_char_scan_bounds};
use crate::strutil::{rep_char, lemma_rep_char_len};
use crate::error::{line_text, marker_row, row_piece, rows_upto, pad_num};

verus! {

/// Scanning a whole text that matches the identifier shape (a letter,
/// underscore or dot, then letters, digits and underscores) yields exactly
/// one token spanning the full match; membership in the keyword set alone
/// decides whether it is a keyword or an identifier.
pub proof fn lemma_identifier_single_token(s: Seq<char>)
    requires
        s.len() >= 1,
        is_id_start(s[0]),
        forall|i: int| 1 <= i < s.len() ==> is_id_cont(#[trigger] s[i]),
    ensures
        lex_from(s, 0) == (LexOut::Tok {
            tag: if is_keyword(s) {
                TokenType::Keyword
            } else {
                TokenType::Id
            },
            lexeme: s,
            start: 0,
            next: s.len() as int,
        }),
{
    assert(!is_ws(s[0]));
    assert(ws_end(s, 0) == 0);
    assert(char_at(s, 0) == s[0]);
    lemma_id_end_all(s, 1);
    assert(s.subrange(0, s.len() as int) =~= s);
}

/// Every lexeme the scanner tags as an integer is a non-empty run of
/// digits.
pub proof fn lemma_int_lexeme_digits(s: Seq<char>, i: int, l: Seq<char>, st: int, nx: int)
    requires
        lex_from(s, i) == (LexOut::Tok { tag: TokenType::Int, lexeme: l, start: st, next: nx }),
    ensures
        l.len() >= 1,
        forall|k: int| 0 <= k < l.len() ==> is_digit(#[trigger] l[k]),
{
    let j = ws_end(s, i);
    let c = char_at(s, j);
    lemma_ws_end_props(s, if i < 0 {
        0
    } else if i > s.len() {
        s.len() as int
    } else {
        i
    });
    assert(is_digit(c));
    assert(0 <= j < s.len());
    lemma_num_scan_props(s, j + 1, false);
    let sc = num_scan(s, j + 1, false);
    let e = sc.0;
    if char_at(s, e - 1) == '.' {
        lemma_num_scan_trailing_dot(s, j + 1);
        assert(l =~= s.subrange(j, e - 1));
        assert forall|k: int| 0 <= k < l.len() implies is_digit(#[trigger] l[k]) by {
            if k == 0 {
                assert(l[0] == s[j]);
            } else {
                assert(l[k] == s[j + k]);
            }
        }
    } else {
        assert(!sc.1);
        lemma_num_scan_no_dot(s, j + 1);
        assert(l =~= s.subrange(j, e));
        assert forall|k: int| 0 <= k < l.len() implies is_digit(#[trigger] l[k]) by {
            if k == 0 {
                assert(l[0] == s[j]);
            } else {
                assert(l[k] == s[j + k]);
            }
        }
    }
}

/// Re-tokenizing an emitted integer lexeme in isolation yields an identical
/// token: the same tag and the same text, spanning the whole lexeme.
pub proof fn lemma_int_retokenize(s: Seq<char>, i: int, l: Seq<char>, st: int, nx: int)
    requires
        lex_from(s, i) == (LexOut::Tok { tag: TokenType::Int, lexeme: l, start: st, next: nx }),
    ensures
        lex_from(l, 0) == (LexOut::Tok {
            tag: TokenType::Int,
            lexeme: l,
            start: 0,
            next: l.len() as int,
        }),
{
    lemma_int_lexeme_digits(s, i, l, st, nx);
    assert(!is_ws(l[0]));
    assert(ws_end(l, 0) == 0);
    assert(char_at(l, 0) == l[0]);
    assert(is_digit(l[0]));
    lemma_num_scan_all_digits(l, 1);
    let e = num_scan(l, 1, false).0;
    assert(e == l.len());
    assert(is_digit(l[e - 1]));
    assert(char_at(l, e - 1) != '.');
    assert(l.subrange(0, l.len() as int) =~= l);
}

/// Once the end of input is reached, scanning again from where it left the
/// cursor returns the same EndOfInput token at the same offset: the token
/// stream has a fixed point.
pub proof fn lemma_eof_fixed_point(s: Seq<char>, i: int, l: Seq<char>, st: int, nx: int)
    requires
        lex_from(s, i) == (LexOut::Tok { tag: TokenType::Eof, lexeme: l, start: st, next: nx }),
    ensures
        nx == st,
        lex_from(s, nx) == lex_from(s, i),
{
    let j = ws_end(s, i);
    assert(char_at(s, j) == '\0');
    assert(!is_ws(char_at(s, j)));
    assert(ws_end(s, j) == j);
}

/// Every emitted token respects the data model's span invariant: its offsets
/// satisfy `i <= start <= end <= len`, the end is start plus the lexeme's
/// length, and the EndOfInput token is empty, sitting where the scan
/// stopped.
pub proof fn lemma_token_bounds(s: Seq<char>, i: int, tag: TokenType, l: Seq<char>, st: int, nx: int)
    requires
        0 <= i <= s.len(),
        lex_from(s, i) == (LexOut::Tok { tag, lexeme: l, start: st, next: nx }),
    ensures
        i <= st <= nx <= s.len(),
        tag == TokenType::Eof ==> st == nx,
        tag != TokenType::Eof ==> nx == st + l.len() && l == s.subrange(st, nx),
{
    lemma_ws_end_props(s, i);
    let j = ws_end(s, i);
    let c = char_at(s, j);
    if c == '\0' {
    } else if is_id_start(c) {
        lemma_id_end_props(s, j + 1);
    } else if c == '"' {
        lemma_str_scan_bounds(s, j + 1);
    } else if c == '\'' {
        lemma_char_scan_bounds(s, j);
    } else if is_digit(c) {
        lemma_num_scan_props(s, j + 1, false);
    }
}

/// Every syntax error the scan reports points inside the text: the span from
/// the token's start over its partial lexeme, and the failure offset, all
/// lie within the buffer, so the error is fit for the diagnostic renderer.
pub proof fn lemma_fail_renderable(
    s: Seq<char>,
    i: int,
    msg: Seq<char>,
    l: Seq<char>,
    tok: int,
    at: int,
)
    requires
        0 <= i <= s.len(),
        lex_from(s, i) == (LexOut::Fail { msg, lexeme: l, token_start: tok, at }),
    ensures
        0 <= tok <= s.len(),
        tok + l.len() <= s.len(),
        0 <= at <= s.len(),
        l == s.subrange(tok, tok + l.len()),
{
    lemma_ws_end_props(s, i);
    let j = ws_end(s, i);
    let c = char_at(s, j);
    if c == '"' {
        lemma_str_scan_bounds(s, j + 1);
    } else if c == '\'' {
        lemma_char_scan_bounds(s, j);
    }
}

/// A span crossing lines renders every touched line with its own marker
/// row, independently sized: covering from the start column to the line's
/// end on the first line (never less than the single caret), the whole line
/// inside, and up to the end column on the last line.
pub proof fn lemma_multiline_span_rows(
    s: Seq<char>,
    offsets: Seq<u32>,
    srow: int,
    scol: int,
    erow: int,
    ecol: int,
    w: int,
    r: int,
)
    requires
        srow < erow,
        srow <= r <= erow,
        0 <= scol,
        0 <= ecol,
    ensures
        rows_upto(s, offsets, srow, scol, erow, ecol, w, r + 1) == rows_upto(s, offsets, srow,
            scol, erow, ecol, w, r) + row_piece(s, offsets, srow, scol, erow, ecol, w, r),
        row_piece(s, offsets, srow, scol, erow, ecol, w, r) == "\n"@ + pad_num(r + 1, w) + " | "@
            + line_text(s, offsets, r) + "\n"@ + rep_char(' ', w) + " | "@ + marker_row(s, offsets,
            srow, scol, erow, ecol, r),
        r == srow ==> marker_row(s, offsets, srow, scol, erow, ecol, r).len() == scol + 1 + (
        if line_text(s, offsets, srow).len() >= scol + 1 {
            line_text(s, offsets, srow).len() - scol - 1
        } else {
            0
        }),
        srow < r < erow ==> marker_row(s, offsets, srow, scol, erow, ecol, r).len() == line_text(
            s,
            offsets,
            r,
        ).len(),
        r == erow ==> marker_row(s, offsets, srow, scol, erow, ecol, r).len() == ecol,
{
    lemma_rep_char_len(' ', scol);
    lemma_rep_char_len(' ', w);
    lemma_rep_char_len('~', ecol);
    lemma_rep_char_len('~', line_text(s, offsets, r).len() as int);
    lemma_rep_char_len('~', line_text(s, offsets, srow).len() - scol - 1);
}

} // verus!
