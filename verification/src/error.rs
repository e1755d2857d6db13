//! The error taxonomy: one tagged union over internal (Code) errors,
//! command-line errors, and syntax errors, together with the renderers that
//! turn an error into a human-readable excerpt.
//!
//! The exact textual layout is stated of the plain renderers; the colored
//! variants decorate the same pieces through the `paint` module, whose
//! results depend on the environment and so carry no textual contract.

use vstd::prelude::*;
use vstd::string::{StringExecFns, StrSliceExecFns};
use crate::umbra::{Umbra, umbra_chars};
use crate::paint::{paint_red, paint_blue, paint_bold, paint_red_bold, esc_free, wraps};
use crate::strutil::{dec_digits, rep_char, dec_u32, spaces, tildes};
use crate::file::{line_of, line_starts, sorted_u32, lemma_lines_pre_props, lemma_line_of_bounds,
    file_position_ref};

verus! {

/// One diagnosable failure.  `Code` carries an already rendered report with
/// the provenance of the failing internal check; `CmdlineError` carries a
/// bare message; `SyntaxError` carries everything the renderer needs to
/// point into the user's source.
pub enum Error {
    Code(String),
    CmdlineError(String),
    SyntaxError {
        err: String,
        buf: Umbra,
        token_index: u32,
        start_index: u32,
        filename: String,
        line_offsets: Vec<u32>,
    },
}

/// The header of a code-error report, over already decorated pieces.
pub open spec fn code_error_text(
    tag: Seq<char>,
    info_part: Seq<char>,
    arrow: Seq<char>,
    filename: Seq<char>,
    line: int,
    column: int,
    err_part: Seq<char>,
) -> Seq<char> {
    tag + info_part + "\n  "@ + arrow + " "@ + filename + ":"@ + crate::strutil::dec_digits(line)
        + ":"@ + crate::strutil::dec_digits(column) + err_part
}

/// The plain (uncolored) text of a code-error report.
pub open spec fn code_error_plain_text(
    info: Seq<char>,
    filename: Seq<char>,
    line: int,
    column: int,
    err: Option<Seq<char>>,
) -> Seq<char> {
    code_error_text(
        "Code Error"@,
        ": "@ + info,
        "-->"@,
        filename,
        line,
        column,
        match err {
            Option::None => Seq::empty(),
            Option::Some(e) => "\n\n"@ + "|"@ + " "@ + e,
        },
    )
}

/// Joins the pieces of a code-error report.
pub fn assemble_code_error(
    tag: &str,
    info_part: &str,
    arrow: &str,
    filename: &str,
    line: u32,
    column: u32,
    err_part: &str,
) -> (r: String)
    ensures
        r@ == code_error_text(tag@, info_part@, arrow@, filename@, line as int, column as int,
            err_part@),
{
    let mut s = tag.to_owned();
    s.append(info_part);
    s.append("\n  ");
    s.append(arrow);
    s.append(" ");
    s.append(filename);
    s.append(":");
    s.append(crate::strutil::dec_u32(line).as_str());
    s.append(":");
    s.append(crate::strutil::dec_u32(column).as_str());
    s.append(err_part);
    proof {
        assert(s@ =~= code_error_text(tag@, info_part@, arrow@, filename@, line as int,
            column as int, err_part@));
    }
    s
}

/// The plain text of the decoration around an inner error, if one is given.
fn plain_err_part(err: Option<&String>, bar: &str) -> (r: String)
    ensures
        r@ == (match err {
            Option::None => Seq::<char>::empty(),
            Option::Some(e) => "\n\n"@ + bar@ + " "@ + e@,
        }),
{
    match err {
        Option::None => {
            let r = String::new();
            proof {
                assert(r@ =~= Seq::<char>::empty());
            }
            r
        },
        Option::Some(e) => {
            let mut s = "\n\n".to_owned();
            s.append(bar);
            s.append(" ");
            s.append(e.as_str());
            proof {
                assert(s@ =~= "\n\n"@ + bar@ + " "@ + e@);
            }
            s
        },
    }
}

/// Escape-freedom carries over concatenation.
pub proof fn lemma_esc_free_concat(a: Seq<char>, b: Seq<char>)
    requires
        esc_free(a),
        esc_free(b),
    ensures
        esc_free(a + b),
{
    assert forall|i: int| 0 <= i < (a + b).len() implies #[trigger] (a + b)[i] != '\x1b' by {
        if i < a.len() {
            assert((a + b)[i] == a[i]);
        } else {
            assert((a + b)[i] == b[i - a.len()]);
        }
    }
}

/// A run of an ordinary character holds no escape character.
pub proof fn lemma_rep_char_esc_free(c: char, n: int)
    requires
        c != '\x1b',
    ensures
        esc_free(crate::strutil::rep_char(c, n)),
    decreases n,
{
    if n > 0 {
        lemma_rep_char_esc_free(c, n - 1);
        assert forall|i: int|
            0 <= i < crate::strutil::rep_char(c, n).len() implies #[trigger] crate::strutil::rep_char(
            c,
            n,
        )[i] != '\x1b' by {
            if i < crate::strutil::rep_char(c, n - 1).len() {
                assert(crate::strutil::rep_char(c, n)[i] == crate::strutil::rep_char(c, n - 1)[i]);
            } else {
                assert(crate::strutil::rep_char(c, n)[i] == c);
            }
        }
    }
}

/// The code-error layout assembled from the four decorated pieces, each
/// wearing its plain text; filename, line and column stand verbatim (they
/// are never painted).
pub open spec fn code_assembled(
    dtag: Seq<char>,
    dip: Seq<char>,
    dar: Seq<char>,
    dbar: Seq<char>,
    info: Seq<char>,
    err: Option<Seq<char>>,
    filename: Seq<char>,
    line: int,
    column: int,
    s: Seq<char>,
) -> bool {
    &&& s == code_error_text(dtag, dip, dar, filename, line, column,
        match err {
            Option::None => Seq::<char>::empty(),
            Option::Some(e) => "\n\n"@ + dbar + " "@ + e,
        },
    )
    &&& wraps(dtag, "Code Error"@)
    &&& (esc_free(info) ==> wraps(dip, ": "@ + info))
    &&& wraps(dar, "-->"@)
    &&& wraps(dbar, "|"@)
}

/// The carried text of a decorated code-error report: the exact layout over
/// some decorated pieces.
pub open spec fn code_colored_text(
    info: Seq<char>,
    err: Option<Seq<char>>,
    filename: Seq<char>,
    line: int,
    column: int,
    s: Seq<char>,
) -> bool {
    exists|dtag: Seq<char>, dip: Seq<char>, dar: Seq<char>, dbar: Seq<char>|
        #[trigger] code_assembled(dtag, dip, dar, dbar, info, err, filename, line, column, s)
}

/// The command-line error layout assembled from the two decorated pieces:
/// the painted tag, then the painted message part.
pub open spec fn cmdline_assembled(
    dtag: Seq<char>,
    dmsg: Seq<char>,
    m: Seq<char>,
    out: Seq<char>,
) -> bool {
    &&& out == dtag + dmsg
    &&& wraps(dtag, "Command Line Error"@)
    &&& (esc_free(m) ==> wraps(dmsg, ": "@ + m))
}

/// The text of a decorated command-line error report.
pub open spec fn cmdline_colored_text(m: Seq<char>, out: Seq<char>) -> bool {
    exists|dtag: Seq<char>, dmsg: Seq<char>| #[trigger] cmdline_assembled(dtag, dmsg, m, out)
}

impl Error {
    /// Builds an internal-failure report carrying the provenance of the
    /// failing check (file, line, column as the caller captured them) and an
    /// optional underlying error's text, decorated for the terminal.
    pub fn code(info: &str, err: Option<String>, filename: &str, line: u32, column: u32) -> (r:
        Error)
        ensures
            r matches Error::Code(s) && code_colored_text(info@,
                match err {
                    Option::None => Option::<Seq<char>>::None,
                    Option::Some(e) => Option::Some(e@),
                }, filename@, line as int, column as int, s@),
    {
        let tag = paint_red_bold("Code Error");
        let mut info_plain = ": ".to_owned();
        info_plain.append(info);
        let info_part = paint_bold(info_plain.as_str());
        let arrow = paint_blue("-->");
        let bar = paint_blue("|");
        proof {
            reveal_strlit("Code Error");
            reveal_strlit("-->");
            reveal_strlit("|");
            reveal_strlit(": ");
            assert(esc_free("Code Error"@));
            assert(esc_free("-->"@));
            assert(esc_free("|"@));
            if esc_free(info@) {
                assert(esc_free(": "@));
                lemma_esc_free_concat(": "@, info@);
            }
        }
        let err_part = plain_err_part(err.as_ref(), bar.as_str());
        let s = assemble_code_error(tag.as_str(), info_part.as_str(), arrow.as_str(), filename,
            line, column, err_part.as_str());
        proof {
            assert(code_assembled(tag@, info_part@, arrow@, bar@, info@,
                match err {
                    Option::None => Option::<Seq<char>>::None,
                    Option::Some(e) => Option::Some(e@),
                }, filename@, line as int, column as int, s@));
        }
        Error::Code(s)
    }

    /// The plain text of an internal-failure report, with no decoration.
    pub fn code_plain(info: &str, err: Option<String>, filename: &str, line: u32, column: u32) -> (r:
        String)
        ensures
            r@ == code_error_plain_text(info@, filename@, line as int, column as int,
                match err {
                    Option::None => Option::<Seq<char>>::None,
                    Option::Some(e) => Option::Some(e@),
                }),
    {
        let mut info_plain = ": ".to_owned();
        info_plain.append(info);
        let err_part = plain_err_part(err.as_ref(), "|");
        assemble_code_error("Code Error", info_plain.as_str(), "-->", filename, line, column,
            err_part.as_str())
    }
}

/// Holds when `offsets` is the line index of the text `s`.
pub open spec fn offsets_ok(offsets: Seq<u32>, s: Seq<char>) -> bool {
    offsets.map_values(|x: u32| x as int) == line_starts(s)
}

/// The text of line `r`: from its start offset to the character before the
/// next line's start (the newline), or to the end of the text on the last
/// line.
pub open spec fn line_text(s: Seq<char>, offsets: Seq<u32>, r: int) -> Seq<char> {
    let a = offsets[r] as int;
    let b = if r + 1 < offsets.len() {
        offsets[r + 1] - 1
    } else {
        s.len() as int
    };
    s.subrange(a, b)
}

/// A line number rendered in decimal and left-padded with spaces to the
/// gutter width, so numbers align.
pub open spec fn pad_num(n: int, w: int) -> Seq<char> {
    rep_char(' ', w - dec_digits(n).len()) + dec_digits(n)
}

/// The marker row under line `r` of a span from (srow, scol) to (erow,
/// ecol): a caret at the start column, then tildes to the span's end on this
/// line — its whole width on a single line, the line's end on the first of
/// several, the full line inside, and the end column on the last.
pub open spec fn marker_row(
    s: Seq<char>,
    offsets: Seq<u32>,
    srow: int,
    scol: int,
    erow: int,
    ecol: int,
    r: int,
) -> Seq<char> {
    if srow == erow {
        rep_char(' ', scol) + seq!['^'] + rep_char('~', ecol - scol - 1)
    } else if r == srow {
        rep_char(' ', scol) + seq!['^'] + rep_char('~', line_text(s, offsets, srow).len() - scol
            - 1)
    } else if r < erow {
        rep_char('~', line_text(s, offsets, r).len() as int)
    } else {
        rep_char('~', ecol)
    }
}

/// One rendered source row: the numbered line followed by its own marker
/// row, each behind the aligned gutter.
pub open spec fn row_piece(
    s: Seq<char>,
    offsets: Seq<u32>,
    srow: int,
    scol: int,
    erow: int,
    ecol: int,
    w: int,
    r: int,
) -> Seq<char> {
    "\n"@ + pad_num(r + 1, w) + " | "@ + line_text(s, offsets, r) + "\n"@ + rep_char(' ', w)
        + " | "@ + marker_row(s, offsets, srow, scol, erow, ecol, r)
}

/// The rendered rows from `srow` (inclusive) up to `r` (exclusive).
pub open spec fn rows_upto(
    s: Seq<char>,
    offsets: Seq<u32>,
    srow: int,
    scol: int,
    erow: int,
    ecol: int,
    w: int,
    r: int,
) -> Seq<char>
    decreases r - srow,
{
    if r <= srow {
        Seq::empty()
    } else {
        rows_upto(s, offsets, srow, scol, erow, ecol, w, r - 1) + row_piece(s, offsets, srow, scol,
            erow, ecol, w, r - 1)
    }
}

/// The header of a syntax-error report: tag, message, and the 1-based
/// location line, followed by the empty gutter row.
pub open spec fn syn_header(msg: Seq<char>, filename: Seq<char>, srow: int, scol: int, w: int) -> Seq<
    char,
> {
    "Syntax Error"@ + ": "@ + msg + "\n  --> "@ + filename + ":"@ + dec_digits(srow + 1) + ":"@
        + dec_digits(scol + 1) + "\n"@ + rep_char(' ', w) + " |"@
}

/// The full plain text of a syntax-error report for a span reaching from the
/// failure offset `at` to `tok + lexeme_len`: the header, then every touched
/// source line with its own marker row.  A zero-width span on one line still
/// gets one marker.
pub open spec fn syntax_error_plain_text(
    msg: Seq<char>,
    lexeme_len: int,
    tok: int,
    at: int,
    filename: Seq<char>,
    offsets: Seq<u32>,
    s: Seq<char>,
) -> Seq<char> {
    let end = tok + lexeme_len;
    let srow = line_of(offsets, at);
    let scol = at - offsets[srow];
    let erow = line_of(offsets, end);
    let ecol0 = end - offsets[erow];
    let ecol = if srow == erow && ecol0 <= scol {
        scol + 1
    } else {
        ecol0
    };
    let w = dec_digits(erow + 1).len() as int;
    syn_header(msg, filename, srow, scol, w) + rows_upto(s, offsets, srow, scol, erow, ecol, w,
        erow + 1)
}

/// A syntax error fit for rendering against the text `s`: its line table is
/// the line index of `s` and its span lies inside `s`.
pub open spec fn syntax_wf(e: Error, s: Seq<char>) -> bool {
    match e {
        Error::SyntaxError { err, buf, token_index, start_index, filename, line_offsets } => {
            &&& offsets_ok(line_offsets@, s)
            &&& s.len() <= crate::lexer::MAX_SOURCE_BYTES
            &&& token_index as int + umbra_chars(buf).len() <= s.len()
            &&& start_index as int <= s.len()
        },
        _ => false,
    }
}

/// One decorated row appended to the rows before it: the padded line
/// number, the painted gutter bar, the source line verbatim, then the
/// aligned gutter and a painted marker row wearing exactly the plain marker
/// text of line `r - 1`.
pub open spec fn colored_row_assembled(
    s: Seq<char>,
    offsets: Seq<u32>,
    srow: int,
    scol: int,
    erow: int,
    ecol: int,
    w: int,
    dbar: Seq<char>,
    r: int,
    init: Seq<char>,
    dmark: Seq<char>,
    outrows: Seq<char>,
) -> bool {
    &&& outrows == init + ("\n"@ + pad_num(r, w) + " "@ + dbar + " "@ + line_text(s, offsets, r
        - 1) + "\n"@ + rep_char(' ', w) + " "@ + dbar + " "@ + dmark)
    &&& wraps(dmark, marker_row(s, offsets, srow, scol, erow, ecol, r - 1))
}

/// The decorated rows of a syntax-error report from `srow` up to `r`
/// (exclusive).
pub open spec fn colored_rows_upto(
    s: Seq<char>,
    offsets: Seq<u32>,
    srow: int,
    scol: int,
    erow: int,
    ecol: int,
    w: int,
    dbar: Seq<char>,
    r: int,
    outrows: Seq<char>,
) -> bool
    decreases r - srow,
{
    if r <= srow {
        outrows == Seq::<char>::empty()
    } else {
        exists|init: Seq<char>, dmark: Seq<char>|
            #[trigger] colored_row_assembled(s, offsets, srow, scol, erow, ecol, w, dbar, r, init,
                dmark, outrows) && colored_rows_upto(s, offsets, srow, scol, erow, ecol, w, dbar,
                r - 1, init)
    }
}

/// The syntax-error layout assembled from the decorated pieces: the painted
/// tag, message part, arrow and gutter bar each wear their plain text, while
/// the filename, the 1-based location, the gutter spacing, the line numbers,
/// the source lines and the marker texts stand verbatim, as in the plain
/// layout.
pub open spec fn syntax_colored_assembled(
    dtag: Seq<char>,
    dmsg: Seq<char>,
    darrow: Seq<char>,
    dbar: Seq<char>,
    rows: Seq<char>,
    msg: Seq<char>,
    lexeme_len: int,
    tok: int,
    at: int,
    filename: Seq<char>,
    offsets: Seq<u32>,
    s: Seq<char>,
    out: Seq<char>,
) -> bool {
    let end = tok + lexeme_len;
    let srow = line_of(offsets, at);
    let scol = at - offsets[srow];
    let erow = line_of(offsets, end);
    let ecol0 = end - offsets[erow];
    let ecol = if srow == erow && ecol0 <= scol {
        scol + 1
    } else {
        ecol0
    };
    let w = dec_digits(erow + 1).len() as int;
    &&& out == dtag + dmsg + "\n  "@ + darrow + " "@ + filename + ":"@ + dec_digits(srow + 1)
        + ":"@ + dec_digits(scol + 1) + "\n"@ + rep_char(' ', w) + " "@ + dbar + rows
    &&& wraps(dtag, "Syntax Error"@)
    &&& (esc_free(msg) ==> wraps(dmsg, ": "@ + msg))
    &&& wraps(darrow, "-->"@)
    &&& wraps(dbar, "|"@)
    &&& colored_rows_upto(s, offsets, srow, scol, erow, ecol, w, dbar, erow + 1, rows)
}

/// The text of a decorated syntax-error report: the plain renderer's layout
/// over some decorated pieces.
pub open spec fn syntax_colored_text(
    msg: Seq<char>,
    lexeme_len: int,
    tok: int,
    at: int,
    filename: Seq<char>,
    offsets: Seq<u32>,
    s: Seq<char>,
    out: Seq<char>,
) -> bool {
    exists|dtag: Seq<char>, dmsg: Seq<char>, darrow: Seq<char>, dbar: Seq<char>, rows: Seq<char>|
        #[trigger] syntax_colored_assembled(dtag, dmsg, darrow, dbar, rows, msg, lexeme_len, tok,
            at, filename, offsets, s, out)
}

/// Marker rows hold only spaces, carets and tildes: no escape character.
pub proof fn lemma_marker_row_esc_free(
    s: Seq<char>,
    offsets: Seq<u32>,
    srow: int,
    scol: int,
    erow: int,
    ecol: int,
    r: int,
)
    ensures
        esc_free(marker_row(s, offsets, srow, scol, erow, ecol, r)),
{
    lemma_rep_char_esc_free(' ', scol);
    lemma_rep_char_esc_free('~', ecol - scol - 1);
    lemma_rep_char_esc_free('~', line_text(s, offsets, srow).len() - scol - 1);
    lemma_rep_char_esc_free('~', line_text(s, offsets, r).len() as int);
    lemma_rep_char_esc_free('~', ecol);
    assert(esc_free(seq!['^'])) by {
        assert(seq!['^'][0] == '^');
    }
    if srow == erow {
        lemma_esc_free_concat(rep_char(' ', scol), seq!['^']);
        lemma_esc_free_concat(rep_char(' ', scol) + seq!['^'], rep_char('~', ecol - scol - 1));
    } else if r == srow {
        lemma_esc_free_concat(rep_char(' ', scol), seq!['^']);
        lemma_esc_free_concat(rep_char(' ', scol) + seq!['^'], rep_char('~', line_text(s, offsets,
            srow).len() - scol - 1));
    }
}

/// The line index of a text is sorted, starts at 0, and stays inside it.
pub proof fn lemma_offsets_props(offsets: Seq<u32>, s: Seq<char>)
    requires
        offsets_ok(offsets, s),
    ensures
        sorted_u32(offsets),
        1 <= offsets.len() <= s.len() + 1,
        offsets[0] == 0,
        forall|k: int| 0 <= k < offsets.len() ==> #[trigger] offsets[k] <= s.len(),
        forall|i: int, j: int|
            0 <= i < j < offsets.len() ==> #[trigger] offsets[i] < #[trigger] offsets[j],
{
    lemma_lines_pre_props(s, s.len() as int);
    let m = offsets.map_values(|x: u32| x as int);
    assert(m.len() == offsets.len());
    assert(offsets[0] as int == m[0]);
    assert forall|i: int, j: int| 0 <= i < j < offsets.len() implies #[trigger] offsets[i]
        < #[trigger] offsets[j] by {
        assert(m[i] < m[j]);
    }
    assert forall|k: int| 0 <= k < offsets.len() implies #[trigger] offsets[k] <= s.len() by {
        assert(m[k] <= s.len());
    }
    assert forall|i: int, j: int| 0 <= i <= j < offsets.len() implies #[trigger] offsets[i]
        <= #[trigger] offsets[j] by {
        if i < j {
            assert(m[i] < m[j]);
        }
    }
}

/// The text of line `r`, straight from the buffer and the line index.
fn line_text_str<'a>(source: &'a str, offsets: &Vec<u32>, r: usize) -> (t: &'a str)
    requires
        offsets_ok(offsets@, source@),
        r < offsets@.len(),
    ensures
        t@ == line_text(source@, offsets@, r as int),
{
    proof {
        lemma_offsets_props(offsets@, source@);
    }
    let a = offsets[r] as usize;
    let b = if r < offsets.len() - 1 {
        (offsets[r + 1] - 1) as usize
    } else {
        source.unicode_len()
    };
    source.substring_char(a, b)
}

/// Renders a line number padded to the gutter width.
fn pad_number(n: u32, w: usize) -> (out: String)
    ensures
        out@ == pad_num(n as int, w as int),
{
    let d = dec_u32(n);
    let dl = d.as_str().unicode_len();
    let mut out = spaces(if w > dl {
        w - dl
    } else {
        0
    });
    out.append(d.as_str());
    proof {
        assert(out@ =~= pad_num(n as int, w as int));
    }
    out
}

/// Builds the marker row under line `r`.
fn marker_row_str(
    Ghost(s): Ghost<Seq<char>>,
    Ghost(offsets): Ghost<Seq<u32>>,
    srow: u32,
    scol: u32,
    erow: u32,
    ecol: u32,
    r: u32,
    line_len: usize,
) -> (out: String)
    requires
        line_len as int == line_text(s, offsets, r as int).len(),
    ensures
        out@ == marker_row(s, offsets, srow as int, scol as int, erow as int, ecol as int,
            r as int),
{
    if srow == erow {
        let mut out = spaces(scol as usize);
        out.append("^");
        let tail = if ecol > scol {
            (ecol - scol - 1) as usize
        } else {
            0
        };
        out.append(tildes(tail).as_str());
        proof {
            reveal_strlit("^");
            assert(out@ =~= marker_row(s, offsets, srow as int, scol as int, erow as int,
                ecol as int, r as int));
        }
        out
    } else if r == srow {
        let mut out = spaces(scol as usize);
        out.append("^");
        let tail = if line_len > scol as usize {
            line_len - scol as usize - 1
        } else {
            0
        };
        out.append(tildes(tail).as_str());
        proof {
            reveal_strlit("^");
            assert(out@ =~= marker_row(s, offsets, srow as int, scol as int, erow as int,
                ecol as int, r as int));
        }
        out
    } else if r < erow {
        tildes(line_len)
    } else {
        tildes(ecol as usize)
    }
}

/// Builds one decorated row of a syntax-error report and names the painted
/// marker row it holds.
fn colored_row_piece(
    source: &str,
    line_offsets: &Vec<u32>,
    dbar: &str,
    srow: u32,
    scol: u32,
    erow: u32,
    ecol: u32,
    w: usize,
    r: u32,
) -> (piece: (String, Ghost<Seq<char>>))
    requires
        offsets_ok(line_offsets@, source@),
        (r as int) < line_offsets@.len(),
        line_offsets@.len() < u32::MAX,
    ensures
        piece.0@ == "\n"@ + pad_num(r as int + 1, w as int) + " "@ + dbar@ + " "@ + line_text(
            source@, line_offsets@, r as int) + "\n"@ + rep_char(' ', w as int) + " "@ + dbar@
            + " "@ + piece.1@,
        wraps(piece.1@, marker_row(source@, line_offsets@, srow as int, scol as int, erow as int,
            ecol as int, r as int)),
{
    let ghost sp = source@;
    let ghost offs = line_offsets@;
    let mut out = "\n".to_owned();
    out.append(pad_number(r + 1, w).as_str());
    out.append(" ");
    out.append(dbar);
    out.append(" ");
    let lt = line_text_str(source, line_offsets, r as usize);
    let ll = lt.unicode_len();
    out.append(lt);
    out.append("\n");
    out.append(spaces(w).as_str());
    out.append(" ");
    out.append(dbar);
    out.append(" ");
    let mk = marker_row_str(Ghost(sp), Ghost(offs), srow, scol, erow, ecol, r, ll);
    proof {
        lemma_marker_row_esc_free(sp, offs, srow as int, scol as int, erow as int, ecol as int,
            r as int);
    }
    let dmk = paint_red(mk.as_str());
    out.append(dmk.as_str());
    proof {
        assert(out@ =~= "\n"@ + pad_num(r as int + 1, w as int) + " "@ + dbar@ + " "@ + line_text(
            sp, offs, r as int) + "\n"@ + rep_char(' ', w as int) + " "@ + dbar@ + " "@ + dmk@);
    }
    (out, Ghost(dmk@))
}

impl Error {
    /// Renders a code error: its report was already built at the failure
    /// site.
    pub fn parse_code_error(&self) -> (out: String)
        requires
            self is Code,
        ensures
            self matches Error::Code(s) && out@ == s@,
    {
        match self {
            Error::Code(s) => s.clone(),
            _ => vstd::pervasive::unreached(),
        }
    }

    /// The plain text of a command-line error report.
    pub fn parse_cmdline_error_plain(&self) -> (out: String)
        requires
            self is CmdlineError,
        ensures
            self matches Error::CmdlineError(m) && out@ == "Command Line Error"@ + ": "@ + m@,
    {
        match self {
            Error::CmdlineError(m) => {
                let mut out = "Command Line Error".to_owned();
                out.append(": ");
                out.append(m.as_str());
                proof {
                    assert(out@ =~= "Command Line Error"@ + ": "@ + self->CmdlineError_0@);
                }
                out
            },
            _ => vstd::pervasive::unreached(),
        }
    }

    /// Renders a command-line error, decorated for the terminal: the painted
    /// tag, then the painted message part.
    pub fn parse_cmdline_error(&self) -> (out: String)
        requires
            self is CmdlineError,
        ensures
            self matches Error::CmdlineError(m) && cmdline_colored_text(m@, out@),
    {
        match self {
            Error::CmdlineError(m) => {
                let dtag = paint_red_bold("Command Line Error");
                let mut msg = ": ".to_owned();
                msg.append(m.as_str());
                let dmsg = paint_bold(msg.as_str());
                proof {
                    reveal_strlit("Command Line Error");
                    reveal_strlit(": ");
                    assert(esc_free("Command Line Error"@));
                    if esc_free(m@) {
                        assert(esc_free(": "@));
                        lemma_esc_free_concat(": "@, m@);
                    }
                }
                let ghost dt = dtag@;
                let mut out = dtag;
                out.append(dmsg.as_str());
                proof {
                    assert(cmdline_assembled(dt, dmsg@, m@, out@));
                }
                out
            },
            _ => vstd::pervasive::unreached(),
        }
    }

    /// Renders a syntax error against the source buffer, with no decoration:
    /// exactly the layout [`syntax_error_plain_text`] states.
    #[verifier::loop_isolation(false)]
    #[verifier::rlimit(100)]
    #[verifier::spinoff_prover]
    pub fn parse_syntax_error_plain(&self, source: &str) -> (out: String)
        requires
            syntax_wf(*self, source@),
        ensures
            self matches Error::SyntaxError { err, buf, token_index, start_index, filename,
                line_offsets } && out@ == syntax_error_plain_text(err@, umbra_chars(*buf).len() as int,
                token_index as int, start_index as int, filename@, line_offsets@, source@),
    {
        match self {
            Error::SyntaxError { err, buf, token_index, start_index, filename, line_offsets } => {
                proof {
                    lemma_offsets_props(line_offsets@, source@);
                }
                let lexlen = buf.as_str().unicode_len();
                let end = *token_index as usize + lexlen;
                let (srow, scol) = file_position_ref(*start_index, line_offsets);
                let (erow, ecol0) = file_position_ref(end as u32, line_offsets);
                proof {
                    lemma_line_of_bounds(line_offsets@, *start_index as int);
                    lemma_line_of_bounds(line_offsets@, end as int);
                }
                let ecol = if srow == erow && ecol0 <= scol {
                    scol + 1
                } else {
                    ecol0
                };
                let wd = dec_u32(erow + 1);
                let w = wd.as_str().unicode_len();
                let ghost sp = source@;
                let ghost offs = line_offsets@;
                let mut out = "Syntax Error".to_owned();
                out.append(": ");
                out.append(err.as_str());
                out.append("\n  --> ");
                out.append(filename.as_str());
                out.append(":");
                out.append(dec_u32(srow + 1).as_str());
                out.append(":");
                out.append(dec_u32(scol + 1).as_str());
                out.append("\n");
                out.append(spaces(w).as_str());
                out.append(" |");
                proof {
                    assert(out@ =~= syn_header(err@, filename@, srow as int, scol as int,
                        w as int));
                }
                let mut r = srow;
                while r <= erow
                    invariant
                        out@ == syn_header(err@, filename@, srow as int, scol as int, w as int)
                            + rows_upto(sp, offs, srow as int, scol as int, erow as int,
                            ecol as int, w as int, r as int),
                        srow <= r,
                        r <= erow + 1 || r == srow,
                    decreases erow + 1 - r,
                {
                    out.append("\n");
                    out.append(pad_number(r + 1, w).as_str());
                    out.append(" | ");
                    let lt = line_text_str(source, line_offsets, r as usize);
                    let ll = lt.unicode_len();
                    out.append(lt);
                    out.append("\n");
                    out.append(spaces(w).as_str());
                    out.append(" | ");
                    out.append(marker_row_str(Ghost(sp), Ghost(offs), srow, scol, erow, ecol, r,
                        ll).as_str());
                    r = r + 1;
                    proof {
                        assert(out@ =~= syn_header(err@, filename@, srow as int, scol as int,
                            w as int) + rows_upto(sp, offs, srow as int, scol as int, erow as int,
                            ecol as int, w as int, r as int));
                    }
                }
                proof {
                    if r as int != erow as int + 1 {
                        assert(r == srow && srow as int > erow as int);
                        assert(rows_upto(sp, offs, srow as int, scol as int, erow as int,
                            ecol as int, w as int, srow as int) == Seq::<char>::empty());
                        assert(rows_upto(sp, offs, srow as int, scol as int, erow as int,
                            ecol as int, w as int, erow as int + 1) == Seq::<char>::empty());
                    }
                    assert(out@ =~= syntax_error_plain_text(err@, umbra_chars(*buf).len() as int,
                        *token_index as int, *start_index as int, filename@, line_offsets@,
                        source@));
                }
                out
            },
            _ => vstd::pervasive::unreached(),
        }
    }

    /// Renders a syntax error against the source buffer, decorated for the
    /// terminal: the same layout the plain renderer proves, with the tag,
    /// message, arrow, gutter bars and marker rows painted and everything
    /// else verbatim.
    #[verifier::loop_isolation(false)]
    #[verifier::rlimit(100)]
    #[verifier::spinoff_prover]
    pub fn parse_syntax_error(&self, source: &str) -> (out: String)
        requires
            syntax_wf(*self, source@),
        ensures
            self matches Error::SyntaxError { err, buf, token_index, start_index, filename,
                line_offsets } && syntax_colored_text(err@, umbra_chars(*buf).len() as int,
                token_index as int, start_index as int, filename@, line_offsets@, source@, out@),
    {
        match self {
            Error::SyntaxError { err, buf, token_index, start_index, filename, line_offsets } => {
                proof {
                    lemma_offsets_props(line_offsets@, source@);
                }
                let lexlen = buf.as_str().unicode_len();
                let end = *token_index as usize + lexlen;
                let (srow, scol) = file_position_ref(*start_index, line_offsets);
                let (erow, ecol0) = file_position_ref(end as u32, line_offsets);
                proof {
                    lemma_line_of_bounds(line_offsets@, *start_index as int);
                    lemma_line_of_bounds(line_offsets@, end as int);
                }
                let ecol = if srow == erow && ecol0 <= scol {
                    scol + 1
                } else {
                    ecol0
                };
                let wd = dec_u32(erow + 1);
                let w = wd.as_str().unicode_len();
                let ghost sp = source@;
                let ghost offs = line_offsets@;
                let dtag = paint_red_bold("Syntax Error");
                let mut msgp = ": ".to_owned();
                msgp.append(err.as_str());
                let dmsg = paint_bold(msgp.as_str());
                let darrow = paint_blue("-->");
                let dbar = paint_blue("|");
                proof {
                    reveal_strlit("Syntax Error");
                    reveal_strlit("-->");
                    reveal_strlit("|");
                    reveal_strlit(": ");
                    assert(esc_free("Syntax Error"@));
                    assert(esc_free("-->"@));
                    assert(esc_free("|"@));
                    if esc_free(err@) {
                        assert(esc_free(": "@));
                        lemma_esc_free_concat(": "@, err@);
                    }
                }
                let mut out = String::new();
                out.append(dtag.as_str());
                out.append(dmsg.as_str());
                out.append("\n  ");
                out.append(darrow.as_str());
                out.append(" ");
                out.append(filename.as_str());
                out.append(":");
                out.append(dec_u32(srow + 1).as_str());
                out.append(":");
                out.append(dec_u32(scol + 1).as_str());
                out.append("\n");
                out.append(spaces(w).as_str());
                out.append(" ");
                out.append(dbar.as_str());
                let ghost hdr = out@;
                proof {
                    assert(hdr =~= dtag@ + dmsg@ + "\n  "@ + darrow@ + " "@ + filename@ + ":"@
                        + dec_digits(srow as int + 1) + ":"@ + dec_digits(scol as int + 1) + "\n"@
                        + rep_char(' ', w as int) + " "@ + dbar@);
                }
                let ghost mut rows: Seq<char> = Seq::empty();
                let mut r = srow;
                while r <= erow
                    invariant
                        out@ == hdr + rows,
                        colored_rows_upto(sp, offs, srow as int, scol as int, erow as int,
                            ecol as int, w as int, dbar@, r as int, rows),
                        srow <= r,
                        r <= erow + 1 || r == srow,
                    decreases erow + 1 - r,
                {
                    let (pc, dmk) = colored_row_piece(source, line_offsets, dbar.as_str(), srow,
                        scol, erow, ecol, w, r);
                    out.append(pc.as_str());
                    r = r + 1;
                    proof {
                        let prev = rows;
                        rows = prev + pc@;
                        assert(out@ =~= hdr + rows);
                        assert(colored_row_assembled(sp, offs, srow as int, scol as int,
                            erow as int, ecol as int, w as int, dbar@, r as int, prev, dmk@, rows));
                    }
                }
                proof {
                    if r as int != erow as int + 1 {
                        assert(r == srow && srow as int > erow as int);
                    }
                    assert(syntax_colored_assembled(dtag@, dmsg@, darrow@, dbar@, rows, err@,
                        umbra_chars(*buf).len() as int, *token_index as int, *start_index as int,
                        filename@, line_offsets@, source@, out@));
                }
                out
            },
            _ => vstd::pervasive::unreached(),
        }
    }

    /// Renders any error with no decoration; a syntax error is rendered
    /// against the source buffer.
    pub fn show_plain(&self, source: &str) -> (out: String)
        requires
            self is SyntaxError ==> syntax_wf(*self, source@),
        ensures
            self matches Error::Code(s) ==> out@ == s@,
            self matches Error::CmdlineError(m) ==> out@ == "Command Line Error"@ + ": "@ + m@,
            self matches Error::SyntaxError { err, buf, token_index, start_index, filename,
                line_offsets } ==> out@ == syntax_error_plain_text(err@,
                umbra_chars(*buf).len() as int, token_index as int, start_index as int, filename@,
                line_offsets@, source@),
    {
        match self {
            Error::Code(_) => self.parse_code_error(),
            Error::CmdlineError(_) => self.parse_cmdline_error_plain(),
            Error::SyntaxError { .. } => self.parse_syntax_error_plain(source),
        }
    }

    /// Renders any error, decorated for the terminal where the environment
    /// allows color: a code error's pre-rendered report, the painted
    /// command-line pieces, or the painted syntax-error layout.
    pub fn show(&self, source: &str) -> (out: String)
        requires
            self is SyntaxError ==> syntax_wf(*self, source@),
        ensures
            self matches Error::Code(s) ==> out@ == s@,
            self matches Error::CmdlineError(m) ==> cmdline_colored_text(m@, out@),
            self matches Error::SyntaxError { err, buf, token_index, start_index, filename,
                line_offsets } ==> syntax_colored_text(err@, umbra_chars(*buf).len() as int,
                token_index as int, start_index as int, filename@, line_offsets@, source@, out@),
    {
        match self {
            Error::Code(_) => self.parse_code_error(),
            Error::CmdlineError(_) => self.parse_cmdline_error(),
            Error::SyntaxError { .. } => self.parse_syntax_error(source),
        }
    }
}

} // verus!
