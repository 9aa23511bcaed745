//! Fixed-width values: 256-bit words, 256-bit hashes and 160-bit addresses.

use vstd::prelude::*;

verus! {

/// A 256-bit unsigned integer, held as four 64-bit limbs, `l0` the least
/// significant.
#[derive(Clone, Copy, Debug, PartialEq, Eq, Structural)]
pub struct Word {
    pub l0: u64,
    pub l1: u64,
    pub l2: u64,
    pub l3: u64,
}

/// A 256-bit hash, held as four 64-bit limbs: `h0` is the first eight bytes
/// read as a big-endian number, `h3` the last eight.
#[derive(Clone, Copy, Debug, PartialEq, Eq, Structural)]
pub struct H256 {
    pub h0: u64,
    pub h1: u64,
    pub h2: u64,
    pub h3: u64,
}

/// A 160-bit account address: `a0` is the first four bytes read as a
/// big-endian number, `a1` the next eight and `a2` the last eight.
#[derive(Clone, Copy, Debug, PartialEq, Eq, Structural)]
pub struct Address {
    pub a0: u32,
    pub a1: u64,
    pub a2: u64,
}

impl Word {
    /// The integer that the four limbs stand for.
    pub open spec fn value(self) -> nat {
        (self.l0 as nat) + (self.l1 as nat) * 0x1_0000_0000_0000_0000
            + (self.l2 as nat) * 0x1_0000_0000_0000_0000_0000_0000_0000_0000
            + (self.l3 as nat)
            * 0x1_0000_0000_0000_0000_0000_0000_0000_0000_0000_0000_0000_0000
    }

    /// Whether the value is below 2^64.
    pub open spec fn fits_u64(self) -> bool {
        self.l1 == 0 && self.l2 == 0 && self.l3 == 0
    }

    pub fn zero() -> (w: Word)
        ensures
            w == (Word { l0: 0, l1: 0, l2: 0, l3: 0 }),
            w.value() == 0,
    {
        Word { l0: 0, l1: 0, l2: 0, l3: 0 }
    }

    pub fn from_u64(x: u64) -> (w: Word)
        ensures
            w == (Word { l0: x, l1: 0, l2: 0, l3: 0 }),
            w.value() == x,
            w.fits_u64(),
    {
        Word { l0: x, l1: 0, l2: 0, l3: 0 }
    }

    pub fn is_zero(&self) -> (z: bool)
        ensures
            z == (self.value() == 0),
            z == (*self == (Word { l0: 0, l1: 0, l2: 0, l3: 0 })),
    {
        self.l0 == 0 && self.l1 == 0 && self.l2 == 0 && self.l3 == 0
    }

    /// The lowest 64 bits, whatever the higher limbs hold.
    pub fn low_u64(&self) -> (x: u64)
        ensures
            x == self.l0,
            x == self.value() % 0x1_0000_0000_0000_0000,
    {
        proof {
            self.lemma_value_split();
        }
        self.l0
    }

    /// The value as a `u64`, where it is below 2^64.
    pub fn to_u64(&self) -> (x: Option<u64>)
        ensures
            x.is_some() == self.fits_u64(),
            self.fits_u64() == (self.value() < 0x1_0000_0000_0000_0000),
            x.is_some() ==> x.unwrap() == self.value(),
    {
        if self.l1 == 0 && self.l2 == 0 && self.l3 == 0 {
            Some(self.l0)
        } else {
            None
        }
    }

    /// The value is its lowest limb plus a multiple of 2^64.
    pub proof fn lemma_value_split(self)
        ensures
            self.value() % 0x1_0000_0000_0000_0000 == self.l0,
            self.value() / 0x1_0000_0000_0000_0000 == (self.l1 as nat) + (self.l2 as nat)
                * 0x1_0000_0000_0000_0000 + (self.l3 as nat)
                * 0x1_0000_0000_0000_0000_0000_0000_0000_0000,
    {
        let hi: nat = (self.l1 as nat) + (self.l2 as nat) * 0x1_0000_0000_0000_0000
            + (self.l3 as nat) * 0x1_0000_0000_0000_0000_0000_0000_0000_0000;
        let b: nat = 0x1_0000_0000_0000_0000;
        let lo: nat = self.l0 as nat;
        assert(self.value() == lo + hi * b) by (nonlinear_arith)
            requires
                hi == (self.l1 as nat) + (self.l2 as nat) * 0x1_0000_0000_0000_0000
                    + (self.l3 as nat) * 0x1_0000_0000_0000_0000_0000_0000_0000_0000,
                b == 0x1_0000_0000_0000_0000,
                lo == self.l0 as nat,
                self.value() == (self.l0 as nat) + (self.l1 as nat) * 0x1_0000_0000_0000_0000
                    + (self.l2 as nat) * 0x1_0000_0000_0000_0000_0000_0000_0000_0000
                    + (self.l3 as nat)
                    * 0x1_0000_0000_0000_0000_0000_0000_0000_0000_0000_0000_0000_0000,
        ;
        assert((lo + hi * b) % b == lo && (lo + hi * b) / b == hi) by (nonlinear_arith)
            requires
                lo < b,
                b > 0,
        ;
    }
}

} // verus!
