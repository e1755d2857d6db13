//! The lexer: a buffer cursor over the decoded source text with one-step
//! lookahead/rollback, and the single-pass state machine that emits typed
//! tokens or the first syntax error.  Every scan is proved to match the
//! functional model in [`crate::lexmodel`].

use vstd::prelude::*;
use vstd::pervasive::unreached;
use vstd::string::StrSliceExecFns;
use vstd::utf8::{encode_utf8, valid_utf8, decode_utf8};
use crate::chars::{char_at, is_digit, is_id_start, ws_char, digit_char, id_start_char,
    id_cont_char, paren_char, hex_digit_char, simple_escape_char};
use crate::error::Error;
use crate::lexmodel::{ws_end, id_end, num_scan, esc_scan, str_scan, char_scan, lex_from,
    is_keyword, EscOut, ScanOut, LexOut, lemma_ws_end_props, lemma_id_end_props,
    lemma_num_scan_props};
use crate::strutil::copy_u32_vec;
use crate::umbra::{Umbra, umbra_chars, lemma_encode_utf8_len, lemma_decode_utf8_len};

verus! {

/// The largest source size, in bytes, the lexer accepts: offsets must fit in
/// 32 bits even after each character widens to at most four bytes when a
/// lexeme is re-encoded for storage.
pub const MAX_SOURCE_BYTES: usize = 0x3fff_ffff;

#[derive(Debug, Clone, Copy, PartialEq, Eq, Structural)]
pub enum TokenType {
    Char,
    Eof,
    Float,
    Id,
    Int,
    Keyword,
    Paren,
    Str,
}

/// One lexical unit: its kind, its verbatim text, and the offset range
/// `[start_index, end_index)` it spans in the decoded source.
pub struct Token {
    pub tag: TokenType,
    pub buf: Umbra,
    pub start_index: u32,
    pub end_index: u32,
}

/// The buffer cursor: the decoded source text, the current character (the
/// NUL sentinel at end of input), the current offset, and the one pending
/// character slot that supports a single-step rollback.
pub(crate) struct Buffer {
    pub(crate) text: String,
    pub(crate) curr_char: char,
    pub(crate) curr_index: usize,
    pub(crate) pending: Option<char>,
}

impl Buffer {
    pub(crate) open spec fn wf(&self) -> bool {
        &&& self.text@.len() <= MAX_SOURCE_BYTES
        &&& self.curr_index <= self.text@.len()
        &&& self.curr_char == char_at(self.text@, self.curr_index as int)
        &&& (self.pending matches Some(c) ==> c == char_at(self.text@, self.curr_index as int + 1))
    }

    pub(crate) fn new(text: String) -> (b: Buffer)
        requires
            text@.len() <= MAX_SOURCE_BYTES,
        ensures
            b.wf(),
            b.text == text,
            b.curr_index == 0,
            b.pending is None,
    {
        let c = if text.as_str().unicode_len() > 0 {
            text.as_str().get_char(0)
        } else {
            '\0'
        };
        Buffer { text, curr_char: c, curr_index: 0, pending: None }
    }

    /// Moves forward exactly one character.
    pub(crate) fn next_char(&mut self)
        requires
            old(self).wf(),
            old(self).curr_index < old(self).text@.len(),
        ensures
            final(self).wf(),
            final(self).text == old(self).text,
            final(self).curr_index == old(self).curr_index + 1,
            final(self).curr_char == char_at(final(self).text@, final(self).curr_index as int),
            final(self).pending is None,
    {
        self.curr_index = self.curr_index + 1;
        match self.pending {
            Some(c) => {
                self.curr_char = c;
                self.pending = None;
            },
            None => {
                self.curr_char = if self.curr_index < self.text.as_str().unicode_len() {
                    self.text.as_str().get_char(self.curr_index)
                } else {
                    '\0'
                };
            },
        }
    }

    /// Undoes exactly one prior advance, restoring `prev` as the current
    /// character; at most one rollback can be pending at any time.
    pub(crate) fn prev_char(&mut self, prev: char)
        requires
            old(self).wf(),
            old(self).pending is None,
            old(self).curr_index >= 1,
            prev == char_at(old(self).text@, old(self).curr_index as int - 1),
        ensures
            final(self).wf(),
            final(self).text == old(self).text,
            final(self).curr_index == old(self).curr_index - 1,
            final(self).curr_char == prev,
            final(self).pending == Some(old(self).curr_char),
    {
        self.curr_index = self.curr_index - 1;
        self.pending = Some(self.curr_char);
        self.curr_char = prev;
    }
}

pub struct Lexer {
    pub(crate) buf: Buffer,
    pub filename: String,
    pub(crate) line_offsets: Vec<u32>,
}

/// Holds when `e` is the syntax error with the given message, lexeme, token
/// start, failure offset, and file context.
pub open spec fn syntax_err_fields(
    e: Error,
    msg: Seq<char>,
    lexeme: Seq<char>,
    tok: int,
    at: int,
    fname: Seq<char>,
    offsets: Seq<u32>,
) -> bool {
    match e {
        Error::SyntaxError { err, buf, token_index, start_index, filename, line_offsets } => err@
            == msg && umbra_chars(buf) == lexeme && token_index as int == tok && start_index as int
            == at && filename@ == fname && line_offsets@ == offsets,
        _ => false,
    }
}

/// Holds when `r` and the cursor position `newpos` are exactly what the
/// model `out` prescribes for one scan.
pub open spec fn lex_post(
    out: LexOut,
    r: Result<Token, Error>,
    newpos: int,
    fname: Seq<char>,
    offsets: Seq<u32>,
) -> bool {
    match out {
        LexOut::Tok { tag, lexeme, start, next } => match r {
            Ok(t) => t.tag == tag && umbra_chars(t.buf) == lexeme && t.start_index as int == start
                && t.end_index as int == next && newpos == next,
            Err(_) => false,
        },
        LexOut::Fail { msg, lexeme, token_start, at } => match r {
            Ok(_) => false,
            Err(e) => syntax_err_fields(e, msg, lexeme, token_start, at, fname, offsets) && newpos
                == at,
        },
    }
}

impl Lexer {
    /// The decoded source text the lexer scans.
    pub closed spec fn text(&self) -> Seq<char> {
        self.buf.text@
    }

    /// The cursor's current offset.
    pub closed spec fn pos(&self) -> int {
        self.buf.curr_index as int
    }

    /// The filename handed in at construction, carried into syntax errors.
    pub closed spec fn fname(&self) -> Seq<char> {
        self.filename@
    }

    /// The line index handed in at construction, carried into syntax errors.
    pub closed spec fn offsets(&self) -> Seq<u32> {
        self.line_offsets@
    }

    pub closed spec fn wf(&self) -> bool {
        self.buf.wf()
    }

    /// Decodes the source bytes and positions the cursor at offset 0.
    /// Invalid UTF-8 is reported once, here, as a Code error.
    pub fn new(buf: &Vec<u8>, filename: String, line_offsets: Vec<u32>) -> (r: Result<
        Lexer,
        Error,
    >)
        requires
            buf@.len() <= MAX_SOURCE_BYTES,
        ensures
            valid_utf8(buf@) ==> (r matches Ok(lx) && lx.wf() && lx.text() == decode_utf8(buf@)
                && lx.pos() == 0 && lx.fname() == filename@ && lx.offsets() == line_offsets@),
            !valid_utf8(buf@) ==> (r matches Err(e) && e is Code),
    {
        match crate::decode::bytes_to_str(buf.as_slice()) {
            None => Err(Error::code("invalid bytecode", None, "src/lexer.rs", 0, 0)),
            Some(s) => {
                let text = s.to_owned();
                proof {
                    vstd::utf8::encode_utf8_decode_utf8(s@);
                    lemma_decode_utf8_len(buf@);
                }
                Ok(Lexer { buf: Buffer::new(text), filename, line_offsets })
            },
        }
    }

    /// Re-encodes a lexeme for shared storage; the buffer's size bound keeps
    /// the conversion within the storage's length cap.
    pub fn convert_umbra(string: String) -> (u: Umbra)
        requires
            encode_utf8(string@).len() <= u32::MAX,
        ensures
            umbra_chars(u) == string@,
    {
        match Umbra::from_string(string) {
            Some(u) => u,
            None => unreached(),
        }
    }

    /// Copies the verbatim text of the offset range `[a, b)`.
    fn lexeme(&self, a: usize, b: usize) -> (r: String)
        requires
            self.wf(),
            a <= b,
            b <= self.text().len(),
        ensures
            r@ == self.text().subrange(a as int, b as int),
            encode_utf8(r@).len() <= u32::MAX,
    {
        let r = self.buf.text.as_str().substring_char(a, b).to_owned();
        proof {
            lemma_encode_utf8_len(r@);
        }
        r
    }

    /// Scans an identifier starting at the cursor and tags it a keyword when
    /// the completed lexeme belongs to the fixed keyword set.
    fn get_id_token(&mut self) -> (r: Result<Token, Error>)
        requires
            old(self).wf(),
            is_id_start(char_at(old(self).text(), old(self).pos())),
        ensures
            final(self).wf(),
            final(self).text() == old(self).text(),
            final(self).fname() == old(self).fname(),
            final(self).offsets() == old(self).offsets(),
            ({
                let s = old(self).text();
                let start = old(self).pos();
                let e = id_end(s, start + 1);
                let lx = s.subrange(start, e);
                r matches Ok(t) && t.tag == (if is_keyword(lx) {
                    TokenType::Keyword
                } else {
                    TokenType::Id
                }) && umbra_chars(t.buf) == lx && t.start_index as int == start
                    && t.end_index as int == e && final(self).pos() == e
            }),
    {
        let ghost s = self.buf.text@;
        let ghost fname0 = self.filename@;
        let ghost offs0 = self.line_offsets@;
        let start = self.buf.curr_index;
        proof {
            lemma_id_end_props(s, start as int + 1);
        }
        self.buf.next_char();
        while id_cont_char(self.buf.curr_char)
            invariant
                self.buf.wf(),
                self.buf.text@ == s,
                self.filename@ == fname0,
                self.line_offsets@ == offs0,
                start < self.buf.curr_index <= s.len(),
                id_end(s, start as int + 1) == id_end(s, self.buf.curr_index as int),
            decreases s.len() - self.buf.curr_index,
        {
            self.buf.next_char();
        }
        let e = self.buf.curr_index;
        proof {
            assert(id_end(s, e as int) == e as int);
        }
        let lx = self.lexeme(start, e);
        let imp: String = "import".to_owned();
        let kfn: String = "fn".to_owned();
        let kconst: String = "const".to_owned();
        let kmut: String = "mutable".to_owned();
        let kw = lx == imp || lx == kfn || lx == kconst || lx == kmut;
        let tag = if kw {
            TokenType::Keyword
        } else {
            TokenType::Id
        };
        let u = Lexer::convert_umbra(lx);
        Ok(Token { tag, buf: u, start_index: start as u32, end_index: e as u32 })
    }

    /// Scans a number: a run of digits with at most one decimal point; a
    /// trailing point is retracted and excluded, so a numeric lexeme never
    /// ends on a bare dot.
    fn get_num_token(&mut self) -> (r: Result<Token, Error>)
        requires
            old(self).wf(),
            is_digit(char_at(old(self).text(), old(self).pos())),
        ensures
            final(self).wf(),
            final(self).text() == old(self).text(),
            final(self).fname() == old(self).fname(),
            final(self).offsets() == old(self).offsets(),
            ({
                let s = old(self).text();
                let start = old(self).pos();
                let sc = num_scan(s, start + 1, false);
                let e = sc.0;
                let seen = sc.1;
                if char_at(s, e - 1) == '.' {
                    r matches Ok(t) && t.tag == TokenType::Int && umbra_chars(t.buf) == s.subrange(
                        start,
                        e - 1,
                    ) && t.start_index as int == start && t.end_index as int == e - 1
                        && final(self).pos() == e - 1
                } else {
                    r matches Ok(t) && t.tag == (if seen {
                        TokenType::Float
                    } else {
                        TokenType::Int
                    }) && umbra_chars(t.buf) == s.subrange(start, e) && t.start_index as int
                        == start && t.end_index as int == e && final(self).pos() == e
                }
            }),
    {
        let ghost s = self.buf.text@;
        let ghost fname0 = self.filename@;
        let ghost offs0 = self.line_offsets@;
        let start = self.buf.curr_index;
        proof {
            lemma_num_scan_props(s, start as int + 1, false);
        }
        self.buf.next_char();
        let mut seen = false;
        while digit_char(self.buf.curr_char) || (self.buf.curr_char == '.' && !seen)
            invariant
                self.buf.wf(),
                self.buf.text@ == s,
                self.filename@ == fname0,
                self.line_offsets@ == offs0,
                start < self.buf.curr_index <= s.len(),
                self.buf.pending is None,
                num_scan(s, start as int + 1, false) == num_scan(
                    s,
                    self.buf.curr_index as int,
                    seen,
                ),
            decreases s.len() - self.buf.curr_index,
        {
            if self.buf.curr_char == '.' {
                seen = true;
            }
            self.buf.next_char();
        }
        let e = self.buf.curr_index;
        proof {
            assert(num_scan(s, e as int, seen) == (e as int, seen));
        }
        let last = self.buf.text.as_str().get_char(e - 1);
        if last == '.' {
            proof {
                assert(s[start as int] != '.');
                assert(e as int != start + 1);
            }
            self.buf.prev_char('.');
            let lx = self.lexeme(start, e - 1);
            let u = Lexer::convert_umbra(lx);
            Ok(Token {
                tag: TokenType::Int,
                buf: u,
                start_index: start as u32,
                end_index: (e - 1) as u32,
            })
        } else {
            let lx = self.lexeme(start, e);
            let u = Lexer::convert_umbra(lx);
            let tag = if seen {
                TokenType::Float
            } else {
                TokenType::Int
            };
            Ok(Token { tag, buf: u, start_index: start as u32, end_index: e as u32 })
        }
    }

    /// Builds the syntax error every failing scan returns: the message, the
    /// partial lexeme, the token's start, the failure offset, and the file
    /// context the renderer needs.
    pub fn syntax_error(&self, info: &str, string: String, token_index: u32, start_index: u32) -> (r:
        Result<(), Error>)
        requires
            encode_utf8(string@).len() <= u32::MAX,
        ensures
            r matches Err(e) && syntax_err_fields(e, info@, string@, token_index as int,
                start_index as int, self.fname(), self.offsets()),
    {
        Err(self.syntax_error_val(info, string, token_index as usize, start_index as usize))
    }

    /// The error value behind [`Lexer::syntax_error`].
    fn syntax_error_val(&self, info: &str, string: String, token_index: usize, start_index: usize) -> (e:
        Error)
        requires
            encode_utf8(string@).len() <= u32::MAX,
            token_index <= u32::MAX,
            start_index <= u32::MAX,
        ensures
            syntax_err_fields(e, info@, string@, token_index as int, start_index as int,
                self.fname(), self.offsets()),
    {
        let u = Lexer::convert_umbra(string);
        Error::SyntaxError {
            err: info.to_owned(),
            buf: u,
            token_index: token_index as u32,
            start_index: start_index as u32,
            filename: self.filename.clone(),
            line_offsets: copy_u32_vec(&self.line_offsets),
        }
    }

    /// Checks one escape sequence with the cursor on the character directly
    /// after the backslash: one of the simple escapes, or `\xHH` with exactly
    /// two hex digits.  `token_start` anchors the partial lexeme an error
    /// reports.
    pub fn get_char_escape(&mut self, token_start: usize) -> (r: Result<(), Error>)
        requires
            old(self).wf(),
            token_start <= old(self).pos(),
        ensures
            final(self).wf(),
            final(self).text() == old(self).text(),
            final(self).fname() == old(self).fname(),
            final(self).offsets() == old(self).offsets(),
            ({
                let s = old(self).text();
                match esc_scan(s, old(self).pos()) {
                    EscOut::Next { next } => r is Ok && final(self).pos() == next,
                    EscOut::Bad { msg, lex_end, at } => (r matches Err(e) && syntax_err_fields(e,
                        msg, s.subrange(token_start as int, lex_end), token_start as int, at,
                        final(self).fname(), final(self).offsets()) && final(self).pos() == at),
                }
            }),
    {
        let k = self.buf.curr_index;
        let c = self.buf.curr_char;
        if simple_escape_char(c) {
            self.buf.next_char();
            Ok(())
        } else if c == 'x' {
            self.buf.next_char();
            let n = self.buf.text.as_str().unicode_len();
            let h1 = self.buf.curr_char;
            if !hex_digit_char(h1) {
                let e = if self.buf.curr_index < n {
                    self.buf.curr_index + 1
                } else {
                    self.buf.curr_index
                };
                let lx = self.lexeme(token_start, e);
                return Err(self.syntax_error_val("expected two hex values after `\\x`", lx,
                    token_start, self.buf.curr_index));
            }
            self.buf.next_char();
            let h2 = self.buf.curr_char;
            if !hex_digit_char(h2) {
                let e = if self.buf.curr_index < n {
                    self.buf.curr_index + 1
                } else {
                    self.buf.curr_index
                };
                let lx = self.lexeme(token_start, e);
                return Err(self.syntax_error_val("expected two hex values after `\\x`", lx,
                    token_start, self.buf.curr_index));
            }
            self.buf.next_char();
            Ok(())
        } else {
            let lx = self.lexeme(token_start, k);
            Err(self.syntax_error_val("invalid character escape", lx, token_start, k))
        }
    }

    /// Scans a string literal from its opening quote through a matching
    /// unescaped closing quote; the lexeme keeps both quotes and every escape
    /// sequence verbatim.  A raw newline or the end of input before the
    /// closing quote is a syntax error spanning from the opening quote.
    #[verifier::loop_isolation(false)]
    fn get_str_token(&mut self) -> (r: Result<Token, Error>)
        requires
            old(self).wf(),
            char_at(old(self).text(), old(self).pos()) == '"',
        ensures
            final(self).wf(),
            final(self).text() == old(self).text(),
            final(self).fname() == old(self).fname(),
            final(self).offsets() == old(self).offsets(),
            ({
                let s = old(self).text();
                let start = old(self).pos();
                match str_scan(s, start + 1) {
                    ScanOut::Done { next } => (r matches Ok(t) && t.tag == TokenType::Str
                        && umbra_chars(t.buf) == s.subrange(start, next) && t.start_index as int
                        == start && t.end_index as int == next && final(self).pos() == next),
                    ScanOut::Fail { msg, lex_end, at } => (r matches Err(e) && syntax_err_fields(e,
                        msg, s.subrange(start, lex_end), start, at, final(self).fname(),
                        final(self).offsets()) && final(self).pos() == at),
                }
            }),
    {
        let ghost s = self.buf.text@;
        let ghost fname0 = self.filename@;
        let ghost offs0 = self.line_offsets@;
        let start = self.buf.curr_index;
        self.buf.next_char();
        loop
            invariant
                self.buf.wf(),
                self.buf.text@ == s,
                self.filename@ == fname0,
                self.line_offsets@ == offs0,
                start < self.buf.curr_index <= s.len(),
                str_scan(s, start as int + 1) == str_scan(s, self.buf.curr_index as int),
            decreases s.len() - self.buf.curr_index,
        {
            let c = self.buf.curr_char;
            if c == '"' {
                self.buf.next_char();
                let e = self.buf.curr_index;
                let lx = self.lexeme(start, e);
                let u = Lexer::convert_umbra(lx);
                return Ok(Token {
                    tag: TokenType::Str,
                    buf: u,
                    start_index: start as u32,
                    end_index: e as u32,
                });
            }
            if c == '\n' || c == '\0' {
                let j = self.buf.curr_index;
                let lx = self.lexeme(start, j);
                return Err(self.syntax_error_val("expected trailing `\"`", lx, start, j));
            }
            if c == '\\' {
                self.buf.next_char();
                match self.get_char_escape(start) {
                    Err(e) => {
                        return Err(e);
                    },
                    Ok(_) => {
                    },
                }
            } else {
                self.buf.next_char();
            }
        }
    }

    /// Scans a character literal: exactly one literal character or one
    /// escape sequence between single quotes.  An empty literal, raw
    /// whitespace in place of the character, and a missing closing quote
    /// each produce their own syntax error.
    fn get_char_token(&mut self) -> (r: Result<Token, Error>)
        requires
            old(self).wf(),
            char_at(old(self).text(), old(self).pos()) == '\'',
        ensures
            final(self).wf(),
            final(self).text() == old(self).text(),
            final(self).fname() == old(self).fname(),
            final(self).offsets() == old(self).offsets(),
            ({
                let s = old(self).text();
                let start = old(self).pos();
                match char_scan(s, start) {
                    ScanOut::Done { next } => (r matches Ok(t) && t.tag == TokenType::Char
                        && umbra_chars(t.buf) == s.subrange(start, next) && t.start_index as int
                        == start && t.end_index as int == next && final(self).pos() == next),
                    ScanOut::Fail { msg, lex_end, at } => (r matches Err(e) && syntax_err_fields(e,
                        msg, s.subrange(start, lex_end), start, at, final(self).fname(),
                        final(self).offsets()) && final(self).pos() == at),
                }
            }),
    {
        let start = self.buf.curr_index;
        self.buf.next_char();
        let c = self.buf.curr_char;
        if c == '\'' {
            let j = self.buf.curr_index;
            let lx = self.lexeme(start, j + 1);
            return Err(self.syntax_error_val("empty character literal", lx, start, j));
        }
        if ws_char(c) {
            let j = self.buf.curr_index;
            let lx = self.lexeme(start, j + 1);
            return Err(self.syntax_error_val("whitespace in character literal", lx, start, j));
        }
        if c == '\0' {
            let j = self.buf.curr_index;
            let lx = self.lexeme(start, j);
            return Err(self.syntax_error_val("expected trailing quote", lx, start, j));
        }
        if c == '\\' {
            self.buf.next_char();
            match self.get_char_escape(start) {
                Err(e) => {
                    return Err(e);
                },
                Ok(_) => {
                },
            }
        } else {
            self.buf.next_char();
        }
        let m = self.buf.curr_index;
        let d = self.buf.curr_char;
        if d != '\'' {
            let n = self.buf.text.as_str().unicode_len();
            let e = if m < n {
                m + 1
            } else {
                m
            };
            let lx = self.lexeme(start, e);
            return Err(self.syntax_error_val("expected trailing quote", lx, start, m));
        }
        self.buf.next_char();
        let e = self.buf.curr_index;
        let lx = self.lexeme(start, e);
        let u = Lexer::convert_umbra(lx);
        Ok(Token { tag: TokenType::Char, buf: u, start_index: start as u32, end_index: e as u32 })
    }

    /// Emits the next token, or the first syntax error.  Whitespace before
    /// the token is skipped; at the end of input every call returns the same
    /// EndOfInput token at the same offset without moving the cursor.  The
    /// result and the cursor are exactly what the functional model
    /// [`lex_from`] prescribes.
    pub fn next_token(&mut self) -> (r: Result<Token, Error>)
        requires
            old(self).wf(),
        ensures
            final(self).wf(),
            final(self).text() == old(self).text(),
            final(self).fname() == old(self).fname(),
            final(self).offsets() == old(self).offsets(),
            lex_post(lex_from(old(self).text(), old(self).pos()), r, final(self).pos(),
                final(self).fname(), final(self).offsets()),
    {
        let ghost s = self.buf.text@;
        let ghost i0 = self.buf.curr_index as int;
        let ghost fname0 = self.filename@;
        let ghost offs0 = self.line_offsets@;
        proof {
            lemma_ws_end_props(s, i0);
        }
        while ws_char(self.buf.curr_char)
            invariant
                self.buf.wf(),
                self.buf.text@ == s,
                self.filename@ == fname0,
                self.line_offsets@ == offs0,
                i0 <= self.buf.curr_index <= s.len(),
                ws_end(s, i0) == ws_end(s, self.buf.curr_index as int),
            decreases s.len() - self.buf.curr_index,
        {
            self.buf.next_char();
        }
        let j = self.buf.curr_index;
        let c = self.buf.curr_char;
        if c == '\0' {
            let zero: String = "\0".to_owned();
            proof {
                reveal_strlit("\0");
                assert(zero@ =~= seq!['\0']);
                lemma_encode_utf8_len(zero@);
            }
            let u = Lexer::convert_umbra(zero);
            return Ok(Token { tag: TokenType::Eof, buf: u, start_index: j as u32, end_index: j as u32 });
        }
        if id_start_char(c) {
            return self.get_id_token();
        }
        if c == '"' {
            return self.get_str_token();
        }
        if c == '\'' {
            return self.get_char_token();
        }
        if digit_char(c) {
            return self.get_num_token();
        }
        if paren_char(c) {
            let lx = self.lexeme(j, j + 1);
            let u = Lexer::convert_umbra(lx);
            self.buf.next_char();
            return Ok(Token {
                tag: TokenType::Paren,
                buf: u,
                start_index: j as u32,
                end_index: (j + 1) as u32,
            });
        }
        let lx = self.lexeme(j, j + 1);
        Err(self.syntax_error_val("invalid character", lx, j, j))
    }
}

} // verus!
