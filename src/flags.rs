use vstd::prelude::*;

verus! {

/// A set of the I2C master's interrupt flags, one bit per condition.
#[derive(Clone, Copy, Debug, PartialEq, Eq, Structural)]
pub struct Flags {
    pub bits: u8,
}

/// Master-on-bus: a byte was transmitted.
pub const MB_BIT: u8 = 1;

/// Slave-on-bus: a byte was received.
pub const SB_BIT: u8 = 2;

/// A bus error was detected.
pub const ERROR_BIT: u8 = 128;

/// Every recognized flag.
pub const ALL_BITS: u8 = 131;

impl Flags {
    pub open spec fn spec_intersects(self, other: Flags) -> bool {
        self.bits & other.bits != 0
    }

    pub open spec fn spec_union(self, other: Flags) -> Flags {
        Flags { bits: self.bits | other.bits }
    }

    pub open spec fn spec_intersection(self, other: Flags) -> Flags {
        Flags { bits: self.bits & other.bits }
    }

    pub open spec fn spec_difference(self, other: Flags) -> Flags {
        Flags { bits: self.bits & !other.bits }
    }

    pub open spec fn spec_contains(self, other: Flags) -> bool {
        self.bits & other.bits == other.bits
    }

    pub open spec fn spec_is_empty(self) -> bool {
        self.bits == 0
    }

    pub fn empty() -> (r: Flags)
        ensures
            r.bits == 0,
    {
        Flags { bits: 0 }
    }

    pub fn mb() -> (r: Flags)
        ensures
            r.bits == MB_BIT,
    {
        Flags { bits: MB_BIT }
    }

    pub fn sb() -> (r: Flags)
        ensures
            r.bits == SB_BIT,
    {
        Flags { bits: SB_BIT }
    }

    pub fn error() -> (r: Flags)
        ensures
            r.bits == ERROR_BIT,
    {
        Flags { bits: ERROR_BIT }
    }

    pub fn all() -> (r: Flags)
        ensures
            r.bits == ALL_BITS,
    {
        Flags { bits: ALL_BITS }
    }

    /// Keeps only the recognized bits of a raw register value.
    pub fn from_bits_truncate(raw: u8) -> (r: Flags)
        ensures
            r.bits == raw & ALL_BITS,
    {
        Flags { bits: raw & ALL_BITS }
    }

    pub fn bits(self) -> (r: u8)
        ensures
            r == self.bits,
    {
        self.bits
    }

    pub fn is_empty(self) -> (r: bool)
        ensures
            r == self.spec_is_empty(),
    {
        self.bits == 0
    }

    pub fn intersects(self, other: Flags) -> (r: bool)
        ensures
            r == self.spec_intersects(other),
    {
        self.bits & other.bits != 0
    }

    pub fn contains(self, other: Flags) -> (r: bool)
        ensures
            r == self.spec_contains(other),
    {
        self.bits & other.bits == other.bits
    }

    pub fn union(self, other: Flags) -> (r: Flags)
        ensures
            r == self.spec_union(other),
    {
        Flags { bits: self.bits | other.bits }
    }

    pub fn intersection(self, other: Flags) -> (r: Flags)
        ensures
            r == self.spec_intersection(other),
    {
        Flags { bits: self.bits & other.bits }
    }

    pub fn difference(self, other: Flags) -> (r: Flags)
        ensures
            r == self.spec_difference(other),
    {
        Flags { bits: self.bits & !other.bits }
    }
}

} // verus!
