//! A single binary decision, the unit that the range coder transports.

use vstd::prelude::*;

verus! {

/// One coded binary decision.
#[derive(Copy, Clone, PartialEq, Eq, Structural, Debug)]
pub enum Bit {
    Zero,
    One,
}

impl Bit {
    /// The numeric value of the bit: `Zero` is 0, `One` is 1.
    pub open spec fn spec_flag(self) -> u32 {
        match self {
            Bit::Zero => 0,
            Bit::One => 1,
        }
    }

    /// The bit as a number, 0 or 1.
    pub fn flag(self) -> (r: u32)
        ensures
            r == self.spec_flag(),
    {
        match self {
            Bit::Zero => 0,
            Bit::One => 1,
        }
    }

    /// The bit that a numeric flag stands for: 0 is `Zero`, all else `One`.
    pub open spec fn spec_from_flag(flag: u32) -> Bit {
        if flag == 0 {
            Bit::Zero
        } else {
            Bit::One
        }
    }

    /// Reads a numeric flag back as a bit.
    pub fn from_flag(flag: u32) -> (r: Bit)
        ensures
            r == Bit::spec_from_flag(flag),
    {
        if flag == 0 {
            Bit::Zero
        } else {
            Bit::One
        }
    }
}

} // verus!
