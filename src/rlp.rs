//! Recursive-length-prefix encoding of the scalar fields of ledger entities.
use vstd::prelude::*;
use crate::primitives::Uint256;

verus! {

/// The big-endian bytes of `n` with no leading zero byte (empty for zero).
pub open spec fn be_trimmed(n: nat) -> Seq<u8>
    decreases n,
{
    if n == 0 {
        Seq::<u8>::empty()
    } else {
        be_trimmed(n / 256).push((n % 256) as u8)
    }
}

/// The RLP item for an unsigned integer: `0x80` for zero, the byte itself below
/// `0x80`, else a short-string header and the trimmed big-endian bytes.
pub open spec fn rlp_uint(n: nat) -> Seq<u8> {
    if n == 0 {
        seq![0x80u8]
    } else if n < 0x80 {
        seq![n as u8]
    } else {
        seq![(0x80 + be_trimmed(n).len()) as u8] + be_trimmed(n)
    }
}

/// The RLP item for a byte string: a lone byte below `0x80` stands for itself;
/// a payload under 56 bytes gets a one-byte header; a longer one gets a header
/// byte, its length in trimmed big-endian, then the payload.
pub open spec fn rlp_bytes(b: Seq<u8>) -> Seq<u8> {
    if b.len() == 1 && b[0] < 0x80 {
        b
    } else if b.len() < 56 {
        seq![(0x80 + b.len()) as u8] + b
    } else {
        seq![(0xb7 + be_trimmed(b.len()).len()) as u8] + be_trimmed(b.len()) + b
    }
}

/// Relies on alloy_rlp's `Encodable` for `u64`: appends the item `rlp_uint(x)`.
#[verifier::external_body]
pub fn append_u64(x: u64, out: &mut Vec<u8>)
    ensures
        final(out)@ == old(out)@ + rlp_uint(x as nat),
{
    alloy_rlp::Encodable::encode(&x, out)
}

/// Relies on alloy_rlp's `Encodable` for ruint's `U256`: appends `rlp_uint(x@)`.
#[verifier::external_body]
pub fn append_u256(x: &Uint256, out: &mut Vec<u8>)
    ensures
        final(out)@ == old(out)@ + rlp_uint(x@),
{
    alloy_rlp::Encodable::encode(&alloy_primitives::U256::from_limbs(x.limbs), out)
}

/// Relies on alloy_rlp's `Encodable` for `[u8]`: appends the item `rlp_bytes(b@)`.
#[verifier::external_body]
pub fn append_bytes(b: &[u8], out: &mut Vec<u8>)
    ensures
        final(out)@ == old(out)@ + rlp_bytes(b@),
{
    alloy_rlp::Encodable::encode(b, out)
}

} // verus!
