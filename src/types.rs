//! Fixed-width values: a 256-bit unsigned integer, a 256-bit hash and a
//! 160-bit address. Each is held as plain integer fields, so that equality
//! is equality of the fields.
use vstd::prelude::*;

verus! {

/// A 256-bit unsigned integer: `hi * 2^128 + lo`.
#[derive(Clone, Copy, Debug, PartialEq, Eq, Structural, Hash)]
pub struct U256 {
    pub hi: u128,
    pub lo: u128,
}

impl U256 {
    /// The integer this value stands for.
    pub open spec fn value(self) -> nat {
        self.hi as nat * 0x1_0000_0000_0000_0000_0000_0000_0000_0000 + self.lo as nat
    }

    /// The additive identity.
    pub fn zero() -> (r: U256)
        ensures
            r == (U256 { hi: 0, lo: 0 }),
            r.value() == 0,
    {
        U256 { hi: 0, lo: 0 }
    }
}

impl From<u64> for U256 {
    fn from(v: u64) -> (r: U256)
        ensures
            r == (U256 { hi: 0, lo: v as u128 }),
            r.value() == v,
    {
        U256 { hi: 0, lo: v as u128 }
    }
}

impl vstd::std_specs::convert::FromSpecImpl<u64> for U256 {
    open spec fn obeys_from_spec() -> bool {
        true
    }

    open spec fn from_spec(v: u64) -> U256 {
        U256 { hi: 0, lo: v as u128 }
    }
}

/// A 256-bit hash, read as a big-endian number: `hi` holds its first
/// sixteen bytes and `lo` its last sixteen.
#[derive(Clone, Copy, Debug, PartialEq, Eq, Structural, Hash)]
pub struct H256 {
    pub hi: u128,
    pub lo: u128,
}

impl H256 {
    /// The hash whose bytes are all zero.
    pub fn zero() -> (r: H256)
        ensures
            r == (H256 { hi: 0, lo: 0 }),
    {
        H256 { hi: 0, lo: 0 }
    }

    /// The hash whose last eight bytes are `v` in big-endian order and whose
    /// other bytes are zero.
    pub fn from_low_u64_be(v: u64) -> (r: H256)
        ensures
            r == (H256 { hi: 0, lo: v as u128 }),
    {
        H256 { hi: 0, lo: v as u128 }
    }
}

/// A 160-bit address, read as a big-endian number: `hi` holds its first
/// four bytes and `lo` its last sixteen.
#[derive(Clone, Copy, Debug, PartialEq, Eq, Structural, Hash)]
pub struct H160 {
    pub hi: u32,
    pub lo: u128,
}

impl H160 {
    /// The address whose bytes are all zero.
    pub fn zero() -> (r: H160)
        ensures
            r == (H160 { hi: 0, lo: 0 }),
    {
        H160 { hi: 0, lo: 0 }
    }

    /// The address whose last eight bytes are `v` in big-endian order and
    /// whose other bytes are zero.
    pub fn from_low_u64_be(v: u64) -> (r: H160)
        ensures
            r == (H160 { hi: 0, lo: v as u128 }),
    {
        H160 { hi: 0, lo: v as u128 }
    }
}

} // verus!
