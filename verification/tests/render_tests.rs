use lexcore::error::Error;
use lexcore::file::get_line_offsets;
use lexcore::lexer::Lexer;
use lexcore::umbra::Umbra;

fn syntax_error(msg: &str, lexeme: &str, token_index: u32, start_index: u32, filename: &str,
    source: &str) -> Error {
    Error::SyntaxError {
        err: msg.to_string(),
        buf: Umbra::from_string(lexeme.to_string()).unwrap(),
        token_index,
        start_index,
        filename: filename.to_string(),
        line_offsets: get_line_offsets(source.to_string()),
    }
}

#[test]
fn single_line_span_renders_caret_at_column() {
    // An error spanning the token `x`: line 1, column 5, one marker.
    let source = "let x\n  = 1";
    let e = syntax_error("test", "x", 4, 4, "main.zz", source);
    let out = e.parse_syntax_error_plain(source);
    assert_eq!(out, "Syntax Error: test\n  --> main.zz:1:5\n  |\n1 | let x\n  |     ^");
}

#[test]
fn zero_width_span_still_gets_one_marker() {
    let source = "ab";
    let e = syntax_error("boom", "", 1, 1, "z", source);
    let out = e.parse_syntax_error_plain(source);
    assert_eq!(out, "Syntax Error: boom\n  --> z:1:2\n  |\n1 | ab\n  |  ^");
}

#[test]
fn wide_span_renders_tildes_after_the_caret() {
    let source = "let x = 1";
    let e = syntax_error("bad item", "let", 0, 0, "m", source);
    let out = e.parse_syntax_error_plain(source);
    assert_eq!(out, "Syntax Error: bad item\n  --> m:1:1\n  |\n1 | let x = 1\n  | ^~~");
}

#[test]
fn span_crossing_two_lines_renders_both_marker_rows() {
    // Span from offset 1 (line 1) to offset 4 (line 2): each rendered line
    // gets its own independently sized marker row.
    let source = "ab\ncd";
    let e = syntax_error("test", "b\nc", 1, 1, "f", source);
    let out = e.parse_syntax_error_plain(source);
    assert_eq!(out, "Syntax Error: test\n  --> f:1:2\n  |\n1 | ab\n  |  ^\n2 | cd\n  | ~");
}

#[test]
fn span_with_interior_line_underlines_it_fully() {
    let source = "ab\nlong\ncd";
    // From offset 1 to offset 1 + 8 = 9: rows 1 through 3.
    let e = syntax_error("test", "b\nlong\nc", 1, 1, "f", source);
    let out = e.parse_syntax_error_plain(source);
    assert_eq!(out,
        "Syntax Error: test\n  --> f:1:2\n  |\n1 | ab\n  |  ^\n2 | long\n  | ~~~~\n3 | cd\n  | ~");
}

#[test]
fn gutter_width_follows_the_largest_line_number() {
    // Ten lines: the last rendered line number is 10, so the gutter is two
    // columns wide and numbers align.
    let source = "a\nb\nc\nd\ne\nf\ng\nh\ni\njk";
    // Span from offset 16 (the `i` on line 9) to offset 19 (on line 10).
    let e = syntax_error("test", "i\nj", 16, 16, "f", source);
    let out = e.parse_syntax_error_plain(source);
    assert_eq!(out,
        "Syntax Error: test\n  --> f:9:1\n   |\n 9 | i\n   | ^\n10 | jk\n   | ~");
}

#[test]
fn lexer_error_renders_against_source() {
    let source = "let x \"abc";
    let bytes: Vec<u8> = source.as_bytes().to_vec();
    let offsets = get_line_offsets(source.to_string());
    let mut lx = match Lexer::new(&bytes, "main.zz".to_string(), offsets) {
        Ok(lx) => lx,
        Err(_) => panic!("lexer construction failed"),
    };
    let mut out = None;
    for _ in 0..8 {
        match lx.next_token() {
            Ok(_) => (),
            Err(e) => {
                out = Some(e.show_plain(source));
                break;
            },
        }
    }
    assert_eq!(out.unwrap(),
        "Syntax Error: expected trailing `\"`\n  --> main.zz:1:11\n  |\n1 | let x \"abc\n  |           ^");
}

#[test]
fn code_error_plain_layout() {
    let out = Error::code_plain("boom", None, "f.rs", 3, 9);
    assert_eq!(out, "Code Error: boom\n  --> f.rs:3:9");
    let out = Error::code_plain("boom", Some("inner detail".to_string()), "f.rs", 3, 9);
    assert_eq!(out, "Code Error: boom\n  --> f.rs:3:9\n\n| inner detail");
}

#[test]
fn cmdline_error_plain_layout() {
    let e = Error::CmdlineError("bad flag".to_string());
    assert_eq!(e.parse_cmdline_error_plain(), "Command Line Error: bad flag");
    assert_eq!(e.show_plain(""), "Command Line Error: bad flag");
}

#[test]
fn code_error_value_is_rendered_at_construction() {
    let e = Error::code("boom", None, "f.rs", 1, 2);
    match &e {
        Error::Code(s) => {
            let shown = e.show_plain("");
            assert_eq!(&shown, s);
        },
        _ => panic!("expected a code error"),
    }
}

#[test]
fn colored_render_matches_plain_when_color_is_disabled() {
    colored::control::set_override(false);
    let source = "let x\n  = 1";
    let e = syntax_error("test", "x", 4, 4, "main.zz", source);
    assert_eq!(e.show(source), e.show_plain(source));

    let c = Error::CmdlineError("bad flag".to_string());
    assert_eq!(c.parse_cmdline_error(), c.parse_cmdline_error_plain());

    let k = Error::code("boom", Some("inner".to_string()), "f.rs", 1, 2);
    assert_eq!(k.show(""), Error::code_plain("boom", Some("inner".to_string()), "f.rs", 1, 2));
}
