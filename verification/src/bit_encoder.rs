//! The binary range coder, encoding side: maps a stream of predicted bits
//! onto a byte stream by repeatedly splitting a 32-bit interval.

use vstd::prelude::*;
use crate::bit::Bit;

verus! {

/// The split point of the interval `[low, high]` for a prediction `p`:
/// `low` plus the fraction `p/2^32` of the width.
pub open spec fn spec_middle(low: u32, high: u32, prediction: u32) -> u32
    recommends
        low <= high,
{
    (low + ((high - low) * prediction) / 0x100000000) as u32
}

/// Normalization: while the top bytes of `low` and `high` agree, emit the
/// settled top byte of `low` and shift both ends left, filling `high`
/// with ones. Returns the new ends and the emitted bytes.
pub open spec fn spec_flush(low: u32, high: u32) -> (u32, u32, Seq<u8>)
    decreases 0x100000000 - (high ^ low) via spec_flush_decreases
{
    if (high ^ low) >= 0x1000000 {
        (low, high, Seq::<u8>::empty())
    } else {
        let r = spec_flush(low << 8, (high << 8) | 0xFF);
        (r.0, r.1, seq![(low >> 24) as u8] + r.2)
    }
}

#[via_fn]
proof fn spec_flush_decreases(low: u32, high: u32) {
    assert((high ^ low) < 0x1000000 ==> (((high << 8) | 0xFF) ^ (low << 8)) > (high ^ low))
        by (bit_vector);
}

/// One coding step: split at the middle, keep the lower part for a one
/// and the upper part for a zero, then normalize.
pub open spec fn spec_encode_bit(low: u32, high: u32, prediction: u32, bit: Bit) -> (
    u32,
    u32,
    Seq<u8>,
)
    recommends
        low < high,
{
    let middle = spec_middle(low, high, prediction);
    match bit {
        Bit::One => spec_flush(low, middle),
        Bit::Zero => spec_flush((middle + 1) as u32, high),
    }
}

/// The middle always lies inside `[low, high)`.
pub proof fn lemma_middle_bounds(low: u32, high: u32, prediction: u32)
    requires
        low < high,
    ensures
        low + ((high - low) * prediction) / 0x100000000 < high,
        low <= spec_middle(low, high, prediction) < high,
{
    let width = high - low;
    assert(width * prediction < width * 0x100000000) by (nonlinear_arith)
        requires
            width >= 1,
            prediction < 0x100000000,
    ;
    assert((width * prediction) / 0x100000000 < width) by (nonlinear_arith)
        requires
            width * prediction < width * 0x100000000,
            width >= 1,
    ;
}

/// Normalization keeps the interval non-empty and ends with the top
/// bytes of the two ends apart, so the next split always has room.
pub proof fn lemma_flush_ends(low: u32, high: u32)
    requires
        low <= high,
    ensures
        spec_flush(low, high).0 < spec_flush(low, high).1,
        (spec_flush(low, high).1 ^ spec_flush(low, high).0) >= 0x1000000,
    decreases 0x100000000 - (high ^ low),
{
    if (high ^ low) >= 0x1000000 {
        assert(low <= high && (high ^ low) >= 0x1000000 ==> low < high) by (bit_vector);
    } else {
        assert((high ^ low) < 0x1000000 && low <= high ==> (low << 8) <= ((high << 8) | 0xFF)
            && (((high << 8) | 0xFF) ^ (low << 8)) > (high ^ low)) by (bit_vector);
        lemma_flush_ends(low << 8, (high << 8) | 0xFF);
    }
}

/// The encoding side of the range coder. The emitted bytes accumulate in
/// `output`; `close` hands them back.
pub struct BitEncoder {
    pub low: u32,
    pub high: u32,
    pub output: Vec<u8>,
}

impl BitEncoder {
    /// The interval is never empty.
    pub open spec fn wf(self) -> bool {
        self.low < self.high
    }

    /// A fresh encoder over the full interval with nothing emitted.
    pub fn new() -> (r: Self)
        ensures
            r.wf(),
            r.low == 0,
            r.high == 0xFFFFFFFFu32,
            r.output@ == Seq::<u8>::empty(),
    {
        BitEncoder { low: 0, high: 0xFFFFFFFF, output: Vec::new() }
    }

    /// Runs normalization, appending each settled byte to the output.
    fn flush(&mut self)
        requires
            old(self).low <= old(self).high,
        ensures
            final(self).low == spec_flush(old(self).low, old(self).high).0,
            final(self).high == spec_flush(old(self).low, old(self).high).1,
            final(self).output@ == old(self).output@ + spec_flush(old(self).low, old(self).high).2,
    {
        let ghost low0 = self.low;
        let ghost high0 = self.high;
        let ghost out0 = self.output@;
        let ghost mut emitted: Seq<u8> = Seq::<u8>::empty();
        while (self.high ^ self.low) < 0x1000000
            invariant
                self.low <= self.high,
                self.output@ == out0 + emitted,
                spec_flush(low0, high0).0 == spec_flush(self.low, self.high).0,
                spec_flush(low0, high0).1 == spec_flush(self.low, self.high).1,
                spec_flush(low0, high0).2 == emitted + spec_flush(self.low, self.high).2,
            decreases 0x100000000 - (self.high ^ self.low),
        {
            let low = self.low;
            let high = self.high;
            assert((high ^ low) < 0x1000000 && low <= high ==> (low << 8) <= ((high << 8) | 0xFF)
                && (((high << 8) | 0xFF) ^ (low << 8)) > (high ^ low)) by (bit_vector);
            self.output.push((low >> 24) as u8);
            self.low = low << 8;
            self.high = (high << 8) | 0xFF;
            proof {
                let tail = spec_flush(self.low, self.high).2;
                assert(emitted + (seq![(low >> 24) as u8] + tail) =~= emitted.push(
                    (low >> 24) as u8,
                ) + tail);
                emitted = emitted.push((low >> 24) as u8);
                assert(self.output@ == out0 + emitted);
            }
        }
        proof {
            assert(emitted + Seq::<u8>::empty() =~= emitted);
        }
    }

    /// Codes one bit under the given prediction. Afterwards the interval
    /// is never empty and its ends differ in their top byte, so the next
    /// split always has room.
    pub fn bit(&mut self, prediction: u32, bit: Bit)
        requires
            old(self).wf(),
        ensures
            final(self).wf(),
            (final(self).high ^ final(self).low) >= 0x1000000,
            ({
                let r = spec_encode_bit(old(self).low, old(self).high, prediction, bit);
                &&& final(self).low == r.0
                &&& final(self).high == r.1
                &&& final(self).output@ == old(self).output@ + r.2
            }),
    {
        proof {
            lemma_middle_bounds(self.low, self.high, prediction);
        }
        let diff: u32 = self.high - self.low;
        proof {
            assert(diff * prediction <= 0xFFFFFFFFu32 * 0xFFFFFFFFu32) by (nonlinear_arith)
                requires
                    diff <= 0xFFFFFFFFu32,
                    prediction <= 0xFFFFFFFFu32,
            ;
        }
        let wide: u64 = (diff as u64) * (prediction as u64);
        proof {
            assert(wide >> 32 == wide / 0x100000000 && wide >> 32 <= 0xFFFFFFFF) by (bit_vector);
        }
        let delta: u32 = (wide >> 32) as u32;
        let middle: u32 = self.low + delta;
        match bit {
            Bit::Zero => {
                self.low = middle + 1;
            },
            Bit::One => {
                self.high = middle;
            },
        }
        proof {
            lemma_flush_ends(self.low, self.high);
        }
        if (self.high ^ self.low) < 0x1000000 {
            self.flush();
        } else {
            proof {
                assert(self.output@ =~= self.output@ + Seq::<u8>::empty());
            }
        }
    }

    /// Ends the stream: emits the settled top byte of `low` and hands the
    /// whole output back.
    pub fn close(self) -> (r: Vec<u8>)
        ensures
            r@ == self.output@.push((self.low >> 24) as u8),
    {
        let mut output: Vec<u8> = self.output;
        output.push((self.low >> 24) as u8);
        output
    }
}

} // verus!
