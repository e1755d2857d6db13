//! Decoding the raw source bytes into text, checked once at load.

use vstd::prelude::*;
use vstd::utf8::valid_utf8;
use vstd::string::StringSliceAdditionalSpecFns;

verus! {

/// Relies on `std::str::from_utf8`: it succeeds exactly on valid UTF-8 and
/// borrows the same bytes it was given.
#[verifier::external_body]
pub fn bytes_to_str(v: &[u8]) -> (r: Option<&str>)
    ensures
        (r is Some) <==> valid_utf8(v@),
        r matches Some(s) ==> s.spec_bytes() == v@,
{
    std::str::from_utf8(v).ok()
}

} // verus!
