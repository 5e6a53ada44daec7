//! Fixed-width identifiers, digests and 256-bit unsigned integers as plain values.
use vstd::prelude::*;

verus! {

/// Two to the 64th power: the weight of one limb.
pub open spec fn limb_base() -> nat {
    0x1_0000_0000_0000_0000nat
}

/// Two to the 256th power: one more than the largest `Uint256`.
pub open spec fn u256_bound() -> nat {
    limb_base() * limb_base() * limb_base() * limb_base()
}

/// A 20-byte account identifier.
#[derive(Clone, Copy, Debug)]
pub struct Address {
    pub bytes: [u8; 20],
}

/// A 32-byte digest.
#[derive(Clone, Copy, Debug)]
pub struct Hash32 {
    pub bytes: [u8; 32],
}

/// An unsigned 256-bit integer held as four 64-bit limbs, least significant first.
#[derive(Clone, Copy, Debug)]
pub struct Uint256 {
    pub limbs: [u64; 4],
}

impl View for Address {
    type V = Seq<u8>;

    open spec fn view(&self) -> Seq<u8> {
        self.bytes@
    }
}

impl View for Hash32 {
    type V = Seq<u8>;

    open spec fn view(&self) -> Seq<u8> {
        self.bytes@
    }
}

impl View for Uint256 {
    type V = nat;

    open spec fn view(&self) -> nat {
        let l = self.limbs@;
        (l[0] + limb_base() * (l[1] + limb_base() * (l[2] + limb_base() * l[3]))) as nat
    }
}

impl Address {
    /// Compares two identifiers byte by byte.
    pub fn same_as(&self, other: &Address) -> (r: bool)
        ensures
            r == (self@ == other@),
    {
        let mut i: usize = 0;
        while i < 20
            invariant
                i <= 20,
                forall|j: int| 0 <= j < i ==> self@[j] == other@[j],
            decreases 20 - i,
        {
            if self.bytes[i] != other.bytes[i] {
                return false;
            }
            i = i + 1;
        }
        assert(self@ =~= other@);
        true
    }
}

/// Relies on ruint's `Uint::from(u64)` and `into_limbs`: the value is kept.
#[verifier::external_body]
pub fn u256_from_u64(x: u64) -> (r: Uint256)
    ensures
        r@ == x as nat,
{
    Uint256 { limbs: alloy_primitives::U256::from(x).into_limbs() }
}

/// Relies on ruint's `Uint::checked_add`: `None` exactly when the sum does not fit.
#[verifier::external_body]
pub fn u256_checked_add(a: &Uint256, b: &Uint256) -> (r: Option<Uint256>)
    ensures
        match r {
            Some(s) => a@ + b@ < u256_bound() && s@ == a@ + b@,
            None => a@ + b@ >= u256_bound(),
        },
{
    let x = alloy_primitives::U256::from_limbs(a.limbs);
    match x.checked_add(alloy_primitives::U256::from_limbs(b.limbs)) {
        Some(s) => Some(Uint256 { limbs: s.into_limbs() }),
        None => None,
    }
}

/// Relies on ruint's `Uint::checked_sub`: `None` exactly when `b` exceeds `a`.
#[verifier::external_body]
pub fn u256_checked_sub(a: &Uint256, b: &Uint256) -> (r: Option<Uint256>)
    ensures
        match r {
            Some(d) => b@ <= a@ && d@ == a@ - b@,
            None => a@ < b@,
        },
{
    let x = alloy_primitives::U256::from_limbs(a.limbs);
    match x.checked_sub(alloy_primitives::U256::from_limbs(b.limbs)) {
        Some(d) => Some(Uint256 { limbs: d.into_limbs() }),
        None => None,
    }
}

/// Relies on ruint's `Uint::checked_mul`: `None` exactly when the product does not fit.
#[verifier::external_body]
pub fn u256_checked_mul(a: &Uint256, b: &Uint256) -> (r: Option<Uint256>)
    ensures
        match r {
            Some(p) => a@ * b@ < u256_bound() && p@ == a@ * b@,
            None => a@ * b@ >= u256_bound(),
        },
{
    let x = alloy_primitives::U256::from_limbs(a.limbs);
    match x.checked_mul(alloy_primitives::U256::from_limbs(b.limbs)) {
        Some(p) => Some(Uint256 { limbs: p.into_limbs() }),
        None => None,
    }
}

/// What keccak-256 yields for a byte string.
pub uninterp spec fn keccak_of(data: Seq<u8>) -> Seq<u8>;

/// Relies on alloy_primitives' `keccak256`: the digest depends on the bytes alone.
#[verifier::external_body]
pub fn keccak(data: &Vec<u8>) -> (r: Hash32)
    ensures
        r@ == keccak_of(data@),
{
    Hash32 { bytes: alloy_primitives::keccak256(data.as_slice()).0 }
}

} // verus!
