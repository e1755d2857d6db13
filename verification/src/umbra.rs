//! Token text storage backed by the `strumbra` crate's shared Umbra-style
//! string.  The representation is opaque to verification: `umbra_chars`
//! names the character content, and the two constructors/accessors below are
//! the only trusted operations on it.

use vstd::prelude::*;
use vstd::utf8::{encode_utf8, valid_utf8, decode_utf8, pop_first_scalar, length_of_first_scalar};

verus! {

/// An immutable shared string holding a token's or an error's lexeme.
///
/// The inner value is a `strumbra::SharedString`, which verification treats
/// as opaque; `umbra_chars` gives its character content.
#[verifier::external_body]
pub struct Umbra {
    inner: strumbra::SharedString,
}

/// The character content of an [`Umbra`] string.
pub uninterp spec fn umbra_chars(u: Umbra) -> Seq<char>;

impl Umbra {
    /// Relies on strumbra's `TryFrom<String> for SharedString`: the
    /// conversion keeps the string's bytes unchanged and fails exactly when
    /// the byte length exceeds `u32::MAX`.
    #[verifier::external_body]
    pub fn from_string(s: String) -> (r: Option<Umbra>)
        ensures
            (r is Some) <==> encode_utf8(s@).len() <= u32::MAX,
            r matches Some(u) ==> umbra_chars(u) == s@,
    {
        match strumbra::SharedString::try_from(s) {
            Ok(inner) => Some(Umbra { inner }),
            Err(_) => None,
        }
    }

    /// Relies on strumbra's `as_str`: it returns exactly the bytes the
    /// string was constructed from.
    #[verifier::external_body]
    pub fn as_str(&self) -> (r: &str)
        ensures
            r@ == umbra_chars(*self),
    {
        self.inner.as_str()
    }
}

/// A UTF-8 encoding spends at most four bytes on each character.
pub proof fn lemma_encode_utf8_len(s: Seq<char>)
    ensures
        encode_utf8(s).len() <= 4 * s.len(),
    decreases s.len(),
{
    if s.len() > 0 {
        lemma_encode_utf8_len(s.drop_first());
    }
}

/// Decoding valid UTF-8 yields at most one character per byte.
pub proof fn lemma_decode_utf8_len(b: Seq<u8>)
    requires
        valid_utf8(b),
    ensures
        decode_utf8(b).len() <= b.len(),
    decreases b.len(),
{
    if b.len() > 0 {
        assert(length_of_first_scalar(b) >= 1);
        assert(length_of_first_scalar(b) <= b.len());
        lemma_decode_utf8_len(pop_first_scalar(b));
    }
}

} // verus!
