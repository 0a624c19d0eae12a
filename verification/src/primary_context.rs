//! The primary context: a hashed table of ranked byte histories over the
//! recent input, advanced one byte at a time.

use vstd::prelude::*;
use crate::buffer::Buffer;
use crate::history::ByteHistory;
use crate::history::spec_classify;
use crate::history::spec_empty_history;
use crate::history::spec_history_state;
use crate::history::spec_updated;
use crate::matched::ByteMatched;

verus! {

/// The symbol-ranking context: the last input byte, the rolling hash of
/// the recent input, and one ranked-history cell per hash value.
pub struct PrimaryContext<const SIZE: usize> {
    pub previous_byte: u8,
    pub hash_value: usize,
    pub context: Buffer<ByteHistory, SIZE>,
}

/// A snapshot of the cell the primary context currently points at.
#[derive(Copy, Clone, PartialEq, Eq, Structural, Debug)]
pub struct PrimaryContextInfo {
    pub previous_byte: u8,
    pub first_byte: u8,
    pub second_byte: u8,
    pub third_byte: u8,
    pub hash_value: usize,
    pub match_count: usize,
}

/// The hash after consuming one byte: multiply by 160 and add the byte
/// plus one, modulo the table size.
pub open spec fn spec_next_hash(hash: usize, next_byte: u8, size: usize) -> usize
    recommends
        size > 0,
{
    (((hash as int) * 160 + (next_byte as int) + 1) % (size as int)) as usize
}

/// The snapshot that `get_info` takes of a context.
pub open spec fn spec_info(previous_byte: u8, hash_value: usize, cell: ByteHistory) -> PrimaryContextInfo {
    PrimaryContextInfo {
        previous_byte,
        first_byte: cell.first,
        second_byte: cell.second,
        third_byte: cell.third,
        hash_value,
        match_count: spec_history_state(cell.state).first_count as usize,
    }
}

impl<const SIZE: usize> PrimaryContext<SIZE> {
    /// The table has exactly `SIZE` cells and the hash stays inside it.
    pub open spec fn wf(self) -> bool {
        &&& 0 < SIZE <= 0x1000000
        &&& self.context@.len() == SIZE
        &&& self.hash_value < SIZE
    }

    /// The cell the context currently points at.
    pub open spec fn spec_cell(self) -> ByteHistory {
        self.context@[self.hash_value as int]
    }

    /// A fresh context: previous byte and hash zero, all cells empty.
    pub fn new() -> (r: Self)
        requires
            0 < SIZE <= 0x1000000,
        ensures
            r.wf(),
            r.previous_byte == 0,
            r.hash_value == 0,
            r.context@ == Seq::new(SIZE as nat, |i: int| spec_empty_history()),
    {
        PrimaryContext {
            previous_byte: 0,
            hash_value: 0,
            context: Buffer::new(ByteHistory::default()),
        }
    }

    /// A snapshot of the current cell and hash.
    pub fn get_info(&self) -> (r: PrimaryContextInfo)
        requires
            self.wf(),
        ensures
            r == spec_info(self.previous_byte, self.hash_value, self.spec_cell()),
    {
        let current_history: ByteHistory = self.context.get(self.hash_value);
        PrimaryContextInfo {
            previous_byte: self.previous_byte,
            first_byte: current_history.first_byte(),
            second_byte: current_history.second_byte(),
            third_byte: current_history.third_byte(),
            hash_value: self.hash_value,
            match_count: current_history.match_count(),
        }
    }

    /// Advances the rolling hash by one byte.
    fn next_hash(hash_value: usize, next_byte: u8) -> (r: usize)
        requires
            0 < SIZE <= 0x1000000,
            hash_value < SIZE,
        ensures
            r == spec_next_hash(hash_value, next_byte, SIZE),
            r < SIZE,
    {
        let wide: u64 = (hash_value as u64) * 160 + (next_byte as u64) + 1;
        let reduced: u64 = wide % (SIZE as u64);
        proof {
            assert(hash_value * 160 + next_byte + 1 == wide);
            assert(reduced == (((hash_value as int) * 160 + (next_byte as int) + 1) % (SIZE as int)));
        }
        reduced as usize
    }

    /// Classifies `next_byte` against the current cell, records it, and
    /// advances the previous byte and the hash: the encoder-side step.
    pub fn matching(&mut self, next_byte: u8) -> (r: ByteMatched)
        requires
            old(self).wf(),
        ensures
            final(self).wf(),
            r == spec_classify(old(self).spec_cell(), next_byte),
            final(self).context@ == old(self).context@.update(
                old(self).hash_value as int,
                spec_updated(old(self).spec_cell(), next_byte, r),
            ),
            final(self).previous_byte == next_byte,
            final(self).hash_value == spec_next_hash(old(self).hash_value, next_byte, SIZE),
    {
        let mut cell: ByteHistory = self.context.get(self.hash_value);
        let matched: ByteMatched = cell.matching(next_byte);
        self.context.set(self.hash_value, cell);
        self.previous_byte = next_byte;
        self.hash_value = Self::next_hash(self.hash_value, next_byte);
        matched
    }

    /// Records `next_byte` under an outcome decoded from the stream, and
    /// advances the previous byte and the hash: the decoder-side step.
    pub fn matched(&mut self, next_byte: u8, matched: ByteMatched)
        requires
            old(self).wf(),
        ensures
            final(self).wf(),
            final(self).context@ == old(self).context@.update(
                old(self).hash_value as int,
                spec_updated(old(self).spec_cell(), next_byte, matched),
            ),
            final(self).previous_byte == next_byte,
            final(self).hash_value == spec_next_hash(old(self).hash_value, next_byte, SIZE),
    {
        let mut cell: ByteHistory = self.context.get(self.hash_value);
        cell.matched(next_byte, matched);
        self.context.set(self.hash_value, cell);
        self.previous_byte = next_byte;
        self.hash_value = Self::next_hash(self.hash_value, next_byte);
    }
}

impl PrimaryContextInfo {
    /// The byte that preceded the current position.
    pub fn previous_byte(&self) -> (r: u8)
        ensures
            r == self.previous_byte,
    {
        self.previous_byte
    }

    /// The hash the snapshot was taken at.
    pub fn hash_value(&self) -> (r: usize)
        ensures
            r == self.hash_value,
    {
        self.hash_value
    }

    /// The most recently ranked byte of the cell.
    pub fn first_byte(&self) -> (r: u8)
        ensures
            r == self.first_byte,
    {
        self.first_byte
    }

    /// The second ranked byte of the cell.
    pub fn second_byte(&self) -> (r: u8)
        ensures
            r == self.second_byte,
    {
        self.second_byte
    }

    /// The third ranked byte of the cell.
    pub fn third_byte(&self) -> (r: u8)
        ensures
            r == self.third_byte,
    {
        self.third_byte
    }

    /// The cell's run of consecutive first-rank matches.
    pub fn match_count(&self) -> (r: usize)
        ensures
            r == self.match_count,
    {
        self.match_count
    }
}

} // verus!
