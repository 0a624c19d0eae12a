//! The secondary context: a flat table of adaptive bit-prediction cells,
//! one per composite context index.

use vstd::prelude::*;
use crate::bit::Bit;
use crate::buffer::Buffer;
use crate::secondary_state::BitState;
use crate::secondary_state::StateInfo;
use crate::secondary_state::spec_state_info;

verus! {

/// The table of adaptive prediction cells.
pub struct SecondaryContext<const SIZE: usize> {
    pub states: Buffer<BitState, SIZE>,
}

impl<const SIZE: usize> SecondaryContext<SIZE> {
    /// The table has exactly `SIZE` cells.
    pub open spec fn wf(self) -> bool {
        self.states@.len() == SIZE
    }

    /// A fresh table with every cell in the neutral state.
    pub fn new() -> (r: Self)
        ensures
            r.wf(),
            r.states@ == Seq::new(SIZE as nat, |i: int| BitState(0)),
    {
        SecondaryContext { states: Buffer::new(BitState::default()) }
    }

    /// The schedule entry of the cell at `context_index`.
    pub fn get_info(&self, context_index: usize) -> (r: StateInfo)
        requires
            self.wf(),
            context_index < SIZE,
        ensures
            r == spec_state_info(self.states@[context_index as int].0),
    {
        self.states.get(context_index).get_info()
    }

    /// Moves the cell at `context_index` to the successor state of
    /// `current_state` for the observed bit.
    pub fn update(&mut self, current_state: StateInfo, context_index: usize, bit: Bit)
        requires
            old(self).wf(),
            context_index < SIZE,
        ensures
            final(self).wf(),
            final(self).states@ == old(self).states@.update(
                context_index as int,
                BitState(current_state.spec_next(bit)),
            ),
    {
        let mut cell: BitState = self.states.get(context_index);
        cell.update(current_state, bit);
        self.states.set(context_index, cell);
    }
}

} // verus!
