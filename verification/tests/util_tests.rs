use lexcore::cmdline::{parse_arg, CmdlineArg};
use lexcore::data::{parse_data, parse_block, parse_number, DataType};
use lexcore::error::Error;
use lexcore::file::{get_line_offsets, file_position, binary_search};
use lexcore::lexer::Lexer;
use lexcore::parser::parse;
use lexcore::position::Position;
use lexcore::token;

fn unwrap_pos(r: Result<(u32, u32), Error>) -> (u32, u32) {
    match r {
        Ok(p) => p,
        Err(_) => panic!("expected a position"),
    }
}

fn unwrap_line(r: Result<Vec<u8>, Error>) -> Vec<u8> {
    match r {
        Ok(v) => v,
        Err(_) => panic!("expected a line"),
    }
}

#[test]
fn line_offsets_start_at_zero_and_follow_newlines() {
    assert_eq!(get_line_offsets("a\nb\n".to_string()), vec![0, 2, 4]);
    assert_eq!(get_line_offsets("".to_string()), vec![0]);
    assert_eq!(get_line_offsets("abc".to_string()), vec![0]);
    assert_eq!(get_line_offsets("\n\n".to_string()), vec![0, 1, 2]);
}

#[test]
fn file_position_handles_line_boundaries() {
    let offsets = get_line_offsets("a\nb\n".to_string());
    assert_eq!(file_position(0, offsets.clone()), (0, 0));
    assert_eq!(file_position(1, offsets.clone()), (0, 1));
    // An offset exactly at a line boundary belongs to the new line.
    assert_eq!(file_position(2, offsets.clone()), (1, 0));
    // An offset on the final line past the last newline.
    assert_eq!(file_position(4, offsets.clone()), (2, 0));
    assert_eq!(file_position(9, offsets), (2, 5));
}

#[test]
fn binary_search_finds_greatest_entry_at_most_value() {
    let t = vec![0u32, 6, 14];
    assert_eq!(binary_search(0, t.clone()), 0);
    assert_eq!(binary_search(5, t.clone()), 0);
    assert_eq!(binary_search(6, t.clone()), 1);
    assert_eq!(binary_search(13, t.clone()), 1);
    assert_eq!(binary_search(14, t.clone()), 2);
    assert_eq!(binary_search(100, t), 2);
    assert_eq!(binary_search(7, vec![]), 0);
    assert_eq!(binary_search(3, vec![10u32, 20]), u32::MAX);
}

#[test]
fn position_caches_line_and_column() {
    let starts: Vec<usize> = vec![0, 6];
    let mut p = Position::new(4);
    assert_eq!(p.line(&starts, false), 0);
    assert_eq!(p.column(&starts, false), 4);
    assert_eq!(p.show(&starts, false), "1:5");
    let mut q = Position::new(7);
    assert_eq!(q.line(&starts, false), 1);
    assert_eq!(q.column(&starts, false), 1);
    assert_eq!(q.show(&starts, false), "2:2");
}

#[test]
fn position_end_flag_reports_the_previous_line() {
    let starts: Vec<usize> = vec![0, 6];
    // The exclusive end of a span sitting exactly on a line start belongs to
    // the line before it.
    let mut p = Position::new(6);
    assert_eq!(p.line(&starts, true), 0);
    let mut q = Position::new(6);
    assert_eq!(q.line(&starts, false), 1);
}

#[test]
fn token_file_position_scans_lines_and_columns() {
    let buf = b"let x\n  = 1";
    assert_eq!(unwrap_pos(token::file_position(buf, 4)), (0, 4));
    assert_eq!(unwrap_pos(token::file_position(buf, 8)), (1, 2));
    assert_eq!(unwrap_pos(token::file_position(buf, 6)), (1, 0));
    match token::file_position(buf, 11) {
        Err(Error::Code(_)) => (),
        _ => panic!("expected a code error"),
    }
}

#[test]
fn get_line_extracts_each_source_line() {
    let buf = b"let x\n  = 1";
    assert_eq!(unwrap_line(token::get_line(buf, 0)), b"let x".to_vec());
    assert_eq!(unwrap_line(token::get_line(buf, 1)), b"  = 1".to_vec());
    match token::get_line(buf, 2) {
        Err(Error::Code(_)) => (),
        _ => panic!("expected a code error"),
    }
    assert_eq!(unwrap_line(token::get_line(b"a\n", 1)), b"".to_vec());
}

#[test]
fn cmdline_args_are_classified_by_their_first_character() {
    assert_eq!(parse_arg("input.zz".to_string()), CmdlineArg::File("input.zz".to_string()));
    assert_eq!(parse_arg("-v".to_string()), CmdlineArg::Option("v".to_string()));
    assert_eq!(parse_arg("--name".to_string()), CmdlineArg::Option("-name".to_string()));
    assert_eq!(parse_arg("-".to_string()), CmdlineArg::Option("".to_string()));
}

#[test]
fn data_literals_are_classified_by_prefix() {
    let pos = Position::new(0);
    let d = parse_data(b"123,x", &pos).unwrap();
    assert_eq!(d.data_type, DataType::Num);
    assert_eq!(d.start.0, 0);
    assert_eq!(d.end.0, 3);

    let d = parse_data(b"-42 ", &pos).unwrap();
    assert_eq!(d.data_type, DataType::Num);
    assert_eq!(d.end.0, 3);

    let d = parse_data(b"\"hi\"", &pos).unwrap();
    assert_eq!(d.data_type, DataType::Str);
    assert_eq!(d.end.0, 3);

    let d = parse_data(b"(1 2)", &pos).unwrap();
    assert_eq!(d.data_type, DataType::Tuple);
    assert_eq!(d.end.0, 4);

    let d = parse_data(b"#[1 2]", &pos).unwrap();
    assert_eq!(d.data_type, DataType::SetData);
    assert_eq!(d.end.0, 5);

    let d = parse_data(b"#{1 2}", &pos).unwrap();
    assert_eq!(d.data_type, DataType::MapData);
    assert_eq!(d.end.0, 5);

    assert!(parse_data(b"xy", &pos).is_none());
}

#[test]
fn data_blocks_run_to_their_closing_byte_or_the_end() {
    let pos = Position::new(0);
    let d = parse_block(b"[1 2", &pos, &DataType::List);
    assert_eq!(d.end.0, 4);
    let d = parse_number(b"7", &pos);
    assert_eq!(d.end.0, 1);
}

#[test]
fn parser_accepts_keyword_or_end_of_input() {
    let src = b"import x".to_vec();
    let offsets = get_line_offsets("import x".to_string());
    let lx = match Lexer::new(&src, "m".to_string(), offsets.clone()) {
        Ok(lx) => lx,
        Err(_) => panic!("lexer construction failed"),
    };
    match parse(lx, "m".to_string(), offsets) {
        Ok(items) => assert!(items.is_empty()),
        Err(_) => panic!("expected an empty item list"),
    }

    let src = b"   ".to_vec();
    let offsets = get_line_offsets("   ".to_string());
    let lx = match Lexer::new(&src, "m".to_string(), offsets.clone()) {
        Ok(lx) => lx,
        Err(_) => panic!("lexer construction failed"),
    };
    match parse(lx, "m".to_string(), offsets) {
        Ok(items) => assert!(items.is_empty()),
        Err(_) => panic!("expected an empty item list"),
    }
}

#[test]
fn parser_rejects_a_leading_identifier() {
    let src = b"foo bar".to_vec();
    let offsets = get_line_offsets("foo bar".to_string());
    let lx = match Lexer::new(&src, "m".to_string(), offsets.clone()) {
        Ok(lx) => lx,
        Err(_) => panic!("lexer construction failed"),
    };
    match parse(lx, "m".to_string(), offsets) {
        Err(Error::SyntaxError { err, buf, token_index, start_index, .. }) => {
            assert_eq!(err, "expected item, not identifier");
            assert_eq!(buf.as_str(), "foo");
            assert_eq!(token_index, 0);
            assert_eq!(start_index, 0);
        },
        _ => panic!("expected a syntax error"),
    }
}
