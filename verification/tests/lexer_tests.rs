use lexcore::lexer::{Lexer, Token, TokenType};
use lexcore::error::Error;
use lexcore::file::get_line_offsets;

fn make_lexer(src: &str) -> Lexer {
    let bytes: Vec<u8> = src.as_bytes().to_vec();
    let offsets = get_line_offsets(src.to_string());
    match Lexer::new(&bytes, "test.zz".to_string(), offsets) {
        Ok(lx) => lx,
        Err(_) => panic!("lexer construction failed"),
    }
}

fn next_ok(lexer: &mut Lexer) -> Token {
    match lexer.next_token() {
        Ok(t) => t,
        Err(_) => panic!("expected a token"),
    }
}

fn next_err(lexer: &mut Lexer) -> (String, String, u32, u32) {
    match lexer.next_token() {
        Ok(_) => panic!("expected an error"),
        Err(Error::SyntaxError { err, buf, token_index, start_index, .. }) => {
            (err, buf.as_str().to_string(), token_index, start_index)
        },
        Err(_) => panic!("expected a syntax error"),
    }
}

#[test]
fn identifier_spans_full_match() {
    let mut lx = make_lexer("abc_123");
    let t = next_ok(&mut lx);
    assert_eq!(t.tag, TokenType::Id);
    assert_eq!(t.buf.as_str(), "abc_123");
    assert_eq!(t.start_index, 0);
    assert_eq!(t.end_index, 7);
}

#[test]
fn identifier_can_start_with_dot_or_underscore() {
    let mut lx = make_lexer(".field _x");
    let t = next_ok(&mut lx);
    assert_eq!(t.tag, TokenType::Id);
    assert_eq!(t.buf.as_str(), ".field");
    let t = next_ok(&mut lx);
    assert_eq!(t.tag, TokenType::Id);
    assert_eq!(t.buf.as_str(), "_x");
}

#[test]
fn keyword_set_membership_decides_tag() {
    for kw in ["import", "fn", "const", "mutable"] {
        let mut lx = make_lexer(kw);
        let t = next_ok(&mut lx);
        assert_eq!(t.tag, TokenType::Keyword);
        assert_eq!(t.buf.as_str(), kw);
    }
    let mut lx = make_lexer("importer");
    let t = next_ok(&mut lx);
    assert_eq!(t.tag, TokenType::Id);
}

#[test]
fn integer_retokenizes_identically() {
    let mut lx = make_lexer("  42 ");
    let t = next_ok(&mut lx);
    assert_eq!(t.tag, TokenType::Int);
    assert_eq!(t.buf.as_str(), "42");
    let lexeme = t.buf.as_str().to_string();
    let mut lx2 = make_lexer(&lexeme);
    let t2 = next_ok(&mut lx2);
    assert_eq!(t2.tag, TokenType::Int);
    assert_eq!(t2.buf.as_str(), lexeme);
    assert_eq!(t2.start_index, 0);
    assert_eq!(t2.end_index, lexeme.len() as u32);
}

#[test]
fn float_token() {
    let mut lx = make_lexer("1.5");
    let t = next_ok(&mut lx);
    assert_eq!(t.tag, TokenType::Float);
    assert_eq!(t.buf.as_str(), "1.5");
    assert_eq!(t.start_index, 0);
    assert_eq!(t.end_index, 3);
}

#[test]
fn trailing_dot_is_retracted() {
    let mut lx = make_lexer("5.");
    let t = next_ok(&mut lx);
    assert_eq!(t.tag, TokenType::Int);
    assert_eq!(t.buf.as_str(), "5");
    assert_eq!(t.end_index, 1);
    // The retracted dot is re-offered: it opens an identifier.
    let t = next_ok(&mut lx);
    assert_eq!(t.tag, TokenType::Id);
    assert_eq!(t.buf.as_str(), ".");
    assert_eq!(t.start_index, 1);
}

#[test]
fn second_dot_ends_float() {
    let mut lx = make_lexer("1.2.3");
    let t = next_ok(&mut lx);
    assert_eq!(t.tag, TokenType::Float);
    assert_eq!(t.buf.as_str(), "1.2");
    let t = next_ok(&mut lx);
    assert_eq!(t.tag, TokenType::Id);
    assert_eq!(t.buf.as_str(), ".3");
}

#[test]
fn string_token_includes_quotes() {
    let mut lx = make_lexer("\"abc\"");
    let t = next_ok(&mut lx);
    assert_eq!(t.tag, TokenType::Str);
    assert_eq!(t.buf.as_str(), "\"abc\"");
    assert_eq!(t.start_index, 0);
    assert_eq!(t.end_index, 5);
}

#[test]
fn unterminated_string_spans_from_opening_quote() {
    let mut lx = make_lexer("\"abc");
    let (msg, buf, token_index, start_index) = next_err(&mut lx);
    assert_eq!(msg, "expected trailing `\"`");
    assert_eq!(buf, "\"abc");
    assert_eq!(token_index, 0);
    assert_eq!(start_index, 4);
}

#[test]
fn string_stops_at_raw_newline() {
    let mut lx = make_lexer("\"ab\ncd\"");
    let (msg, buf, token_index, start_index) = next_err(&mut lx);
    assert_eq!(msg, "expected trailing `\"`");
    assert_eq!(buf, "\"ab");
    assert_eq!(token_index, 0);
    assert_eq!(start_index, 3);
}

#[test]
fn string_escapes_kept_verbatim() {
    let mut lx = make_lexer("\"a\\n\\x41\\\\\"");
    let t = next_ok(&mut lx);
    assert_eq!(t.tag, TokenType::Str);
    assert_eq!(t.buf.as_str(), "\"a\\n\\x41\\\\\"");
}

#[test]
fn invalid_escape_is_an_error() {
    let mut lx = make_lexer("\"a\\q\"");
    let (msg, buf, token_index, start_index) = next_err(&mut lx);
    assert_eq!(msg, "invalid character escape");
    assert_eq!(buf, "\"a\\");
    assert_eq!(token_index, 0);
    assert_eq!(start_index, 3);
}

#[test]
fn hex_escape_needs_two_digits() {
    let mut lx = make_lexer("\"\\x4g\"");
    let (msg, buf, _, start_index) = next_err(&mut lx);
    assert_eq!(msg, "expected two hex values after `\\x`");
    assert_eq!(buf, "\"\\x4g");
    assert_eq!(start_index, 4);

    let mut lx = make_lexer("\"\\xg\"");
    let (msg, buf, _, start_index) = next_err(&mut lx);
    assert_eq!(msg, "expected two hex values after `\\x`");
    assert_eq!(buf, "\"\\xg");
    assert_eq!(start_index, 3);
}

#[test]
fn char_token() {
    let mut lx = make_lexer("'x'");
    let t = next_ok(&mut lx);
    assert_eq!(t.tag, TokenType::Char);
    assert_eq!(t.buf.as_str(), "'x'");
    assert_eq!(t.start_index, 0);
    assert_eq!(t.end_index, 3);
}

#[test]
fn char_escape_token() {
    let mut lx = make_lexer("'\\n'");
    let t = next_ok(&mut lx);
    assert_eq!(t.tag, TokenType::Char);
    assert_eq!(t.buf.as_str(), "'\\n'");
}

#[test]
fn empty_char_literal_is_an_error() {
    let mut lx = make_lexer("''");
    let (msg, buf, token_index, start_index) = next_err(&mut lx);
    assert_eq!(msg, "empty character literal");
    assert_eq!(buf, "''");
    assert_eq!(token_index, 0);
    assert_eq!(start_index, 1);
}

#[test]
fn unterminated_char_literal_is_an_error() {
    let mut lx = make_lexer("'ab'");
    let (msg, buf, token_index, start_index) = next_err(&mut lx);
    assert_eq!(msg, "expected trailing quote");
    assert_eq!(buf, "'ab");
    assert_eq!(token_index, 0);
    assert_eq!(start_index, 2);
}

#[test]
fn raw_whitespace_in_char_literal_is_an_error() {
    for src in ["' '", "'\t'", "'\n'"] {
        let mut lx = make_lexer(src);
        let (msg, buf, token_index, start_index) = next_err(&mut lx);
        assert_eq!(msg, "whitespace in character literal");
        assert_eq!(buf, &src[0..2]);
        assert_eq!(token_index, 0);
        assert_eq!(start_index, 1);
    }
}

#[test]
fn char_literal_stops_at_end_of_input() {
    let mut lx = make_lexer("'");
    let (msg, buf, _, start_index) = next_err(&mut lx);
    assert_eq!(msg, "expected trailing quote");
    assert_eq!(buf, "'");
    assert_eq!(start_index, 1);
}

#[test]
fn parens_are_single_character_tokens() {
    let mut lx = make_lexer("()[]{}");
    for (i, p) in ["(", ")", "[", "]", "{", "}"].iter().enumerate() {
        let t = next_ok(&mut lx);
        assert_eq!(t.tag, TokenType::Paren);
        assert_eq!(t.buf.as_str(), *p);
        assert_eq!(t.start_index, i as u32);
        assert_eq!(t.end_index, i as u32 + 1);
    }
}

#[test]
fn invalid_character_is_an_error() {
    let mut lx = make_lexer("  @");
    let (msg, buf, token_index, start_index) = next_err(&mut lx);
    assert_eq!(msg, "invalid character");
    assert_eq!(buf, "@");
    assert_eq!(token_index, 2);
    assert_eq!(start_index, 2);
}

#[test]
fn eof_is_a_fixed_point() {
    let mut lx = make_lexer("  x ");
    let t = next_ok(&mut lx);
    assert_eq!(t.tag, TokenType::Id);
    let e1 = next_ok(&mut lx);
    assert_eq!(e1.tag, TokenType::Eof);
    assert_eq!(e1.start_index, 4);
    assert_eq!(e1.end_index, 4);
    for _ in 0..3 {
        let e = next_ok(&mut lx);
        assert_eq!(e.tag, TokenType::Eof);
        assert_eq!(e.start_index, e1.start_index);
        assert_eq!(e.end_index, e1.end_index);
    }
}

#[test]
fn whitespace_is_skipped_between_tokens() {
    let mut lx = make_lexer(" \t\r\nfn  x");
    let t = next_ok(&mut lx);
    assert_eq!(t.tag, TokenType::Keyword);
    assert_eq!(t.buf.as_str(), "fn");
    assert_eq!(t.start_index, 4);
    let t = next_ok(&mut lx);
    assert_eq!(t.buf.as_str(), "x");
    assert_eq!(t.start_index, 8);
}

#[test]
fn offsets_count_characters_not_bytes() {
    // The source is decoded before scanning: a two-byte character advances
    // the cursor by one.
    let mut lx = make_lexer("h\u{e9}");
    let t = next_ok(&mut lx);
    assert_eq!(t.tag, TokenType::Id);
    assert_eq!(t.buf.as_str(), "h");
    let (msg, buf, token_index, _) = next_err(&mut lx);
    assert_eq!(msg, "invalid character");
    assert_eq!(buf, "\u{e9}");
    assert_eq!(token_index, 1);
}

#[test]
fn invalid_utf8_is_a_code_error() {
    let bytes: Vec<u8> = vec![0xff, 0xfe];
    let r = Lexer::new(&bytes, "bad.zz".to_string(), vec![0]);
    match r {
        Err(Error::Code(_)) => (),
        _ => panic!("expected a code error"),
    }
}

#[test]
fn embedded_nul_acts_as_end_of_input() {
    let mut lx = make_lexer("a\u{0}b");
    let t = next_ok(&mut lx);
    assert_eq!(t.buf.as_str(), "a");
    let e = next_ok(&mut lx);
    assert_eq!(e.tag, TokenType::Eof);
    assert_eq!(e.start_index, 1);
}

#[test]
fn error_carries_filename_and_offsets() {
    let mut lx = make_lexer("@");
    match lx.next_token() {
        Err(Error::SyntaxError { filename, line_offsets, .. }) => {
            assert_eq!(filename, "test.zz");
            assert_eq!(line_offsets, vec![0]);
        },
        _ => panic!("expected a syntax error"),
    }
}
