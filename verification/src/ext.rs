//! The two places where this library leans on code it does not verify: the
//! Keccak-256 digest and `String::push`.

use vstd::prelude::*;

verus! {

/// The Keccak-256 digest of a byte sequence. The digest has no short
/// mathematical statement, so it is only named here; every contract that
/// mentions a checksum speaks through this name.
pub uninterp spec fn keccak256_of(input: Seq<u8>) -> Seq<u8>;

/// Relies on `ethers_core::utils::keccak256`: the Keccak-256 digest is a pure
/// function of the input bytes alone and is 32 bytes long.
#[verifier::external_body]
pub(crate) fn keccak256(input: &Vec<u8>) -> (r: Vec<u8>)
    ensures
        r@ == keccak256_of(input@),
        r@.len() == 32,
{
    ethers_core::utils::keccak256(input.as_slice()).to_vec()
}

/// Relies on `String::push`: appends the given character to the end of the
/// string.
#[verifier::external_body]
pub(crate) fn push_char(s: &mut String, c: char)
    ensures
        final(s)@ == old(s)@.push(c),
{
    s.push(c);
}

} // verus!
