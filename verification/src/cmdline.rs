//! Classification of one command-line argument: an input filename, or an
//! option flag stripped of its leading dash.

use vstd::prelude::*;
use vstd::string::StrSliceExecFns;

verus! {

#[derive(Debug, Clone, PartialEq, Eq)]
pub enum CmdlineArg {
    Option(String),
    File(String),
}

/// Classifies one argument: anything not starting with a dash is an input
/// filename; otherwise the text after the dash names an option.
pub fn parse_arg(arg: String) -> (r: CmdlineArg)
    requires
        arg@.len() >= 1,
    ensures
        arg@[0] != '-' ==> (r matches CmdlineArg::File(f) && f@ == arg@),
        arg@[0] == '-' ==> (r matches CmdlineArg::Option(o) && o@ == arg@.subrange(
            1,
            arg@.len() as int,
        )),
{
    let c = arg.as_str().get_char(0);
    if c != '-' {
        CmdlineArg::File(arg)
    } else {
        let n = arg.as_str().unicode_len();
        let rest = arg.as_str().substring_char(1, n).to_owned();
        CmdlineArg::Option(rest)
    }
}

} // verus!
