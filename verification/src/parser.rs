//! The grammar layer's entry point.  The grammar itself is largely
//! unimplemented: one item is classified, and anything but a keyword or the
//! end of input is rejected with a syntax error spanning the token.

use vstd::prelude::*;
use vstd::string::StringExecFns;
use crate::error::Error;
use crate::lexer::{Lexer, TokenType, syntax_err_fields};
use crate::lexmodel::{lex_from, LexOut};
use crate::umbra::umbra_chars;

verus! {

/// A parsed top-level item.  The grammar produces none yet.
pub struct ItemNode {}

/// Reads one token and classifies it: a keyword opens an item (none is built
/// yet), the end of input yields no items, and anything else is rejected.
pub fn parse(mut lexer: Lexer, filename: String, line_offsets: Vec<u32>) -> (r: Result<
    Vec<ItemNode>,
    Error,
>)
    requires
        lexer.wf(),
    ensures
        ({
            match lex_from(lexer.text(), lexer.pos()) {
                LexOut::Tok { tag, lexeme, start, next } => {
                    if tag == TokenType::Keyword || tag == TokenType::Eof {
                        r matches Ok(v) && v@.len() == 0
                    } else {
                        r matches Err(e) && syntax_err_fields(e, "expected item, not identifier"@,
                            lexeme, start, start, filename@, line_offsets@)
                    }
                },
                LexOut::Fail { msg, lexeme, token_start, at } => r matches Err(e)
                    && syntax_err_fields(e, msg, lexeme, token_start, at, lexer.fname(),
                    lexer.offsets()),
            }
        }),
{
    let token = match lexer.next_token() {
        Ok(t) => t,
        Err(e) => {
            return Err(e);
        },
    };
    match token.tag {
        TokenType::Keyword => (),
        TokenType::Eof => {
            return Ok(Vec::new());
        },
        _ => {
            return Err(Error::SyntaxError {
                err: "expected item, not identifier".to_owned(),
                buf: token.buf,
                token_index: token.start_index,
                start_index: token.start_index,
                filename,
                line_offsets,
            });
        },
    }
    Ok(Vec::new())
}

} // verus!
