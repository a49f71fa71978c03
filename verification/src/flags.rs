//! Typed bit-flag sets over the single-bit flag enums of the libretro ABI.

use core::marker::PhantomData;
use vstd::prelude::*;

verus! {

/// A flag enum whose every variant stands for a fixed ABI bit pattern.
pub trait FlagBit: Sized + Copy {
    /// The ABI bits of this flag.
    spec fn spec_bit(self) -> u64;

    /// The union of the ABI bits of every flag of this kind.
    spec fn spec_all_bits() -> u64;

    fn bit(self) -> (b: u64)
        ensures
            b == self.spec_bit(),
    ;

    fn all_bits() -> (m: u64)
        ensures
            m == Self::spec_all_bits(),
    ;
}

/// A set of flags of one kind, kept as the ABI bit pattern.
#[derive(Debug)]
pub struct BitFlags<F> {
    bits: u64,
    _flag: PhantomData<F>,
}

impl<F> Clone for BitFlags<F> {
    fn clone(&self) -> (copy: Self)
        ensures
            copy == *self,
    {
        BitFlags { bits: self.bits, _flag: PhantomData }
    }
}

impl<F> Copy for BitFlags<F> {
}

impl<F: FlagBit> BitFlags<F> {
    /// The ABI bit pattern of this set.
    pub closed spec fn spec_bits(self) -> u64 {
        self.bits
    }

    /// Whether every bit of `flag` is set.
    pub open spec fn spec_contains(self, flag: F) -> bool {
        self.spec_bits() & flag.spec_bit() == flag.spec_bit()
    }

    /// The empty set.
    pub fn empty() -> (set: Self)
        ensures
            set.spec_bits() == 0,
    {
        BitFlags { bits: 0, _flag: PhantomData }
    }

    /// The set holding exactly `flag`.
    pub fn from_flag(flag: F) -> (set: Self)
        ensures
            set.spec_bits() == flag.spec_bit(),
    {
        BitFlags { bits: flag.bit(), _flag: PhantomData }
    }

    /// The set of the known flags among `bits`; unknown bits are dropped.
    pub fn from_bits_truncate(bits: u64) -> (set: Self)
        ensures
            set.spec_bits() == bits & F::spec_all_bits(),
    {
        BitFlags { bits: bits & F::all_bits(), _flag: PhantomData }
    }

    /// This set with `flag` added.
    pub fn with(self, flag: F) -> (set: Self)
        ensures
            set.spec_bits() == self.spec_bits() | flag.spec_bit(),
    {
        BitFlags { bits: self.bits | flag.bit(), _flag: PhantomData }
    }

    /// The union of two sets.
    pub fn union(self, other: Self) -> (set: Self)
        ensures
            set.spec_bits() == self.spec_bits() | other.spec_bits(),
    {
        BitFlags { bits: self.bits | other.bits, _flag: PhantomData }
    }

    /// Whether `flag` is in this set.
    pub fn contains(self, flag: F) -> (present: bool)
        ensures
            present == self.spec_contains(flag),
    {
        let b = flag.bit();
        self.bits & b == b
    }

    /// Whether no flag is set.
    pub fn is_empty(self) -> (empty: bool)
        ensures
            empty == (self.spec_bits() == 0),
    {
        self.bits == 0
    }

    /// The ABI bit pattern of this set.
    pub fn bits(self) -> (bits: u64)
        ensures
            bits == self.spec_bits(),
    {
        self.bits
    }
}

} // verus!
