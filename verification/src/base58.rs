//! Base58 text rendering of fixed-length binary identifiers (public keys,
//! signatures, block hashes) for log output.

use vstd::prelude::*;

verus! {

/// The base58 text (Bitcoin alphabet) of a byte sequence. The encoding is a
/// pure function of the bytes; its value is pinned only by the encoder below.
pub uninterp spec fn base58_of(bytes: Seq<u8>) -> Seq<char>;

/// Relies on `bs58::encode(..).into_string()`: the base58 rendering, with the
/// default (Bitcoin) alphabet and no checksum, of exactly the input bytes.
#[verifier::external_body]
pub(crate) fn bs58_encode(bytes: &Vec<u8>) -> (r: String)
    ensures
        r@ == base58_of(bytes@),
{
    bs58::encode(bytes).into_string()
}

} // verus!
