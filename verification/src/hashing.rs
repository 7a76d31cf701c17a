//! Content-hash support: the digest used to check a revision payload's
//! integrity before the payload is trusted.

use vstd::prelude::*;

verus! {

/// The lower-hex rendering of the md5 digest of `bytes`. The digest is a pure
/// function of the input bytes, so it can be named without being restated.
pub uninterp spec fn md5_hex_of(bytes: Seq<u8>) -> Seq<char>;

/// Relies on `md5::compute` (crate `md5`): the digest is a function of the
/// input bytes alone, and its `LowerHex` rendering writes each of the 16
/// digest bytes as two lower-hex characters.
#[verifier::external_body]
pub(crate) fn md5_hex(bytes: &Vec<u8>) -> (r: String)
    ensures
        r@ == md5_hex_of(bytes@),
        r@.len() == 32,
{
    format!("{:x}", md5::compute(bytes.as_slice()))
}

} // verus!
