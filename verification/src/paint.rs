//! Optional terminal coloring for rendered diagnostics, through the
//! `colored` crate.  Whether color is applied depends on the terminal and
//! the environment, so the painted text itself cannot be pinned down; what
//! every outcome satisfies is stated here: painting a text free of escape
//! characters yields that text, either unchanged or surrounded by escape
//! sequences.  The exact textual structure of a diagnostic is stated of the
//! plain renderers in `error`.

use colored::Colorize;
use vstd::prelude::*;

verus! {

/// The text holds no escape character.  Colored's renderer re-styles any
/// reset sequence it finds inside its input, so only for such text is the
/// input guaranteed to appear contiguously in the painted result.
pub open spec fn esc_free(s: Seq<char>) -> bool {
    forall|i: int| 0 <= i < s.len() ==> #[trigger] s[i] != '\x1b'
}

/// `d` is `p` wearing some decoration: `p` appears contiguously in `d`.
pub open spec fn wraps(d: Seq<char>, p: Seq<char>) -> bool {
    exists|a: Seq<char>, b: Seq<char>| d == a + p + b
}

/// Relies on colored's `Colorize::red` and the `ColoredString` display: the
/// display writes the input unchanged when color is off, and otherwise a
/// style prefix, the input (re-styled only after an inner reset sequence,
/// which an escape-free input cannot hold), and a reset suffix.
#[verifier::external_body]
pub fn paint_red(s: &str) -> (r: String)
    ensures
        esc_free(s@) ==> wraps(r@, s@),
{
    s.red().to_string()
}

/// Relies on colored's `Colorize::blue`, as `paint_red` does.
#[verifier::external_body]
pub fn paint_blue(s: &str) -> (r: String)
    ensures
        esc_free(s@) ==> wraps(r@, s@),
{
    s.blue().to_string()
}

/// Relies on colored's `Colorize::bold`, as `paint_red` does.
#[verifier::external_body]
pub fn paint_bold(s: &str) -> (r: String)
    ensures
        esc_free(s@) ==> wraps(r@, s@),
{
    s.bold().to_string()
}

/// Relies on colored's `Colorize::red` and `Colorize::bold` combined on one
/// `ColoredString` (the bold call only adds a style and keeps the input),
/// and on the display as `paint_red` does.
#[verifier::external_body]
pub fn paint_red_bold(s: &str) -> (r: String)
    ensures
        esc_free(s@) ==> wraps(r@, s@),
{
    s.red().bold().to_string()
}

} // verus!
