//! The adaptive bit-prediction states: each state stands for a probability
//! that the next bit is one, and moves toward the bit it observes.

use vstd::prelude::*;
use crate::bit::Bit;

verus! {

/// One entry of the prediction schedule: the probability that the next
/// bit is one (as a fraction of 2^32) and the successor state for either
/// observed bit.
#[derive(Copy, Clone, PartialEq, Eq, Structural, Debug)]
pub struct StateInfo {
    pub prediction: u32,
    pub next_if_zero: u16,
    pub next_if_one: u16,
}

impl StateInfo {
    /// Builds an entry from its three fields.
    pub fn new(prediction: u32, next_if_zero: u16, next_if_one: u16) -> (r: Self)
        ensures
            r == (StateInfo { prediction, next_if_zero, next_if_one }),
    {
        StateInfo { prediction, next_if_zero, next_if_one }
    }

    /// The successor state index for an observed bit.
    pub open spec fn spec_next(self, bit: Bit) -> u16 {
        match bit {
            Bit::Zero => self.next_if_zero,
            Bit::One => self.next_if_one,
        }
    }

    /// The successor state index for an observed bit.
    pub fn next(&self, bit: Bit) -> (r: u16)
        ensures
            r == self.spec_next(bit),
    {
        match bit {
            Bit::Zero => self.next_if_zero,
            Bit::One => self.next_if_one,
        }
    }

    /// The probability that the next bit is one, as a fraction of 2^32.
    pub fn prediction(&self) -> (r: u32)
        ensures
            r == self.prediction,
    {
        self.prediction
    }
}

/// The probability value a state index stands for, in units of 2^-16.
/// Index zero, the state every cell starts in, stands for one half.
pub open spec fn spec_state_raw(index: u16) -> int {
    ((index as int) + 0x8000) % 0x10000
}

/// The prediction schedule. A state standing for probability `raw/2^16`
/// predicts `raw` scaled to 2^32 with a half-step offset (so no state
/// predicts zero), moves up by a thirty-second of the remaining headroom
/// on a one, and down by a thirty-second of itself on a zero.
pub open spec fn spec_state_info(index: u16) -> StateInfo {
    let raw = spec_state_raw(index);
    let up = raw + (0x10000 - raw) / 32;
    let down = raw - raw / 32;
    StateInfo {
        prediction: (raw * 0x10000 + 0x8000) as u32,
        next_if_zero: (((down + 0x8000) % 0x10000) as u16),
        next_if_one: (((up + 0x8000) % 0x10000) as u16),
    }
}

/// One adaptive cell: an index into the prediction schedule.
#[derive(Copy, Clone, PartialEq, Eq, Structural, Debug)]
pub struct BitState(pub u16);

impl Default for BitState {
    /// The neutral state every cell starts in: it predicts one half.
    fn default() -> (r: Self)
        ensures
            r == (BitState(0)),
    {
        BitState(0)
    }
}

impl BitState {
    /// The schedule entry of the cell's current state.
    pub fn get_info(&self) -> (r: StateInfo)
        ensures
            r == spec_state_info(self.0),
    {
        let raw: u32 = ((self.0 as u32) + 0x8000) % 0x10000;
        let up: u32 = raw + (0x10000 - raw) / 32;
        let down: u32 = raw - raw / 32;
        StateInfo::new(
            raw * 0x10000 + 0x8000,
            ((down + 0x8000) % 0x10000) as u16,
            ((up + 0x8000) % 0x10000) as u16,
        )
    }

    /// Moves the cell to the successor state for the observed bit.
    pub fn update(&mut self, current_state: StateInfo, bit: Bit)
        ensures
            *final(self) == (BitState(current_state.spec_next(bit))),
    {
        self.0 = current_state.next(bit);
    }
}

} // verus!
