//! Bridging the primary and secondary models: derives, from a primary
//! snapshot, the secondary context indices used for one input byte.

use vstd::prelude::*;
use crate::primary_context::PrimaryContext;
use crate::primary_context::PrimaryContextInfo;
use crate::secondary_context::SecondaryContext;

verus! {

/// Cells in the primary context table.
pub const PRIMARY_CONTEXT_SIZE: usize = 0x1000000;

/// Cells in the secondary context table: one block of 256 per literal
/// context, then one block of 768 per match-flag context.
pub const SECONDARY_CONTEXT_SIZE: usize = 0x4000 * 256 + (1024 + 32) * 768;

/// The primary context at its working size.
pub type BridgedPrimaryContext = PrimaryContext<PRIMARY_CONTEXT_SIZE>;

/// The secondary context at its working size.
pub type BridgedSecondaryContext = SecondaryContext<SECONDARY_CONTEXT_SIZE>;

/// The match-flag block a snapshot selects: for a short match run, the
/// previous byte combined with the run; for a longer run, one of 32
/// buckets of the halved run, clamped at the top bucket.
pub open spec fn spec_bit_context(info: PrimaryContextInfo) -> usize {
    let mc = info.match_count as int;
    let c: int = if mc < 4 {
        (info.previous_byte as int) * 4 + mc
    } else if mc - 4 <= 63 {
        1024 + (mc - 4) / 2
    } else {
        (1024 + 31) as int
    };
    (0x4000 * 256 + c * 768) as usize
}

/// The literal block a snapshot selects: the low bits of the hash.
pub open spec fn spec_literal_context(info: PrimaryContextInfo) -> usize {
    ((info.hash_value as int % 0x4000) * 256) as usize
}

/// The context for the first match flag: the block plus the first byte.
pub open spec fn spec_first_context(info: PrimaryContextInfo) -> usize {
    (spec_bit_context(info) + info.first_byte as int) as usize
}

/// The context for the second match flag: the block's second sub-block
/// plus the sum of the second and third bytes, modulo 256.
pub open spec fn spec_second_context(info: PrimaryContextInfo) -> usize {
    (spec_bit_context(info) + 0x100 + (info.second_byte as int + info.third_byte as int)
        % 256) as usize
}

/// The context for the third match flag: the block's third sub-block
/// plus twice the second byte less the third, modulo 256.
pub open spec fn spec_third_context(info: PrimaryContextInfo) -> usize {
    (spec_bit_context(info) + 0x200 + (info.second_byte as int * 2 + 256 - info.third_byte as int)
        % 256) as usize
}

/// The secondary context indices for one input byte, derived from a
/// primary snapshot. Every index lies inside the secondary table; the
/// literal block starts at a multiple of 256 and its whole block of 256
/// cells fits below the match-flag blocks.
pub struct BridgedContextInfo {
    pub bit_context: usize,
    pub literal_context: usize,
    pub primary_context_info: PrimaryContextInfo,
}

impl BridgedContextInfo {
    /// Derives the blocks from a primary snapshot.
    pub fn new(primary_context_info: PrimaryContextInfo) -> (r: Self)
        ensures
            r.bit_context == spec_bit_context(primary_context_info),
            r.literal_context == spec_literal_context(primary_context_info),
            r.primary_context_info == primary_context_info,
    {
        let match_count: usize = primary_context_info.match_count();
        let c: usize = if match_count < 4 {
            (primary_context_info.previous_byte() as usize) * 4 + match_count
        } else if match_count - 4 <= 63 {
            1024 + (match_count - 4) / 2
        } else {
            1024 + 31
        };
        BridgedContextInfo {
            bit_context: 0x4000 * 256 + c * 768,
            literal_context: (primary_context_info.hash_value() % 0x4000) * 256,
            primary_context_info,
        }
    }

    /// The context for the first match flag.
    pub fn first_context(&self) -> (r: usize)
        requires
            self.bit_context == spec_bit_context(self.primary_context_info),
        ensures
            r == spec_first_context(self.primary_context_info),
            r < SECONDARY_CONTEXT_SIZE,
    {
        self.bit_context + (self.primary_context_info.first_byte() as usize)
    }

    /// The context for the second match flag.
    pub fn second_context(&self) -> (r: usize)
        requires
            self.bit_context == spec_bit_context(self.primary_context_info),
        ensures
            r == spec_second_context(self.primary_context_info),
            r < SECONDARY_CONTEXT_SIZE,
    {
        self.bit_context + 0x100 + ((self.primary_context_info.second_byte() as usize)
            + (self.primary_context_info.third_byte() as usize)) % 256
    }

    /// The context for the third match flag.
    pub fn third_context(&self) -> (r: usize)
        requires
            self.bit_context == spec_bit_context(self.primary_context_info),
        ensures
            r == spec_third_context(self.primary_context_info),
            r < SECONDARY_CONTEXT_SIZE,
    {
        self.bit_context + 0x200 + ((self.primary_context_info.second_byte() as usize) * 2 + 256
            - (self.primary_context_info.third_byte() as usize)) % 256
    }

    /// The base of the literal block.
    pub fn literal_context(&self) -> (r: usize)
        requires
            self.literal_context == spec_literal_context(self.primary_context_info),
        ensures
            r == spec_literal_context(self.primary_context_info),
            r % 256 == 0,
            r + 255 < 0x4000 * 256,
    {
        self.literal_context
    }

    /// The first ranked byte of the snapshot.
    pub fn first_byte(&self) -> (r: u8)
        ensures
            r == self.primary_context_info.first_byte,
    {
        self.primary_context_info.first_byte()
    }

    /// The second ranked byte of the snapshot.
    pub fn second_byte(&self) -> (r: u8)
        ensures
            r == self.primary_context_info.second_byte,
    {
        self.primary_context_info.second_byte()
    }

    /// The third ranked byte of the snapshot.
    pub fn third_byte(&self) -> (r: u8)
        ensures
            r == self.primary_context_info.third_byte,
    {
        self.primary_context_info.third_byte()
    }
}

/// Every index the bridge derives lies inside the secondary table, and
/// the literal block keeps clear of the match-flag blocks.
pub proof fn lemma_bridged_bounds(info: PrimaryContextInfo)
    ensures
        spec_first_context(info) < SECONDARY_CONTEXT_SIZE,
        spec_second_context(info) < SECONDARY_CONTEXT_SIZE,
        spec_third_context(info) < SECONDARY_CONTEXT_SIZE,
        spec_literal_context(info) % 256 == 0,
        spec_literal_context(info) + 255 < 0x4000 * 256,
{
}

} // verus!
