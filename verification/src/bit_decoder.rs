//! The binary range coder, decoding side: recovers the coded bits from a
//! byte stream by tracking the same interval as the encoder and comparing
//! a sliding 32-bit window of the stream against each split point.

use vstd::prelude::*;
use crate::bit::Bit;
use crate::bit_encoder::spec_middle;
use crate::bit_encoder::lemma_middle_bounds;

verus! {

/// One byte pulled from the stream. The window may legitimately run up
/// to three bytes past the end (the encoder leaves that much of the final
/// window unwritten); those read as 0xFF, which keeps the window inside
/// the encoder's final interval. A fourth byte past the end is never
/// needed by a stream the encoder produced, so asking for it reports the
/// stream as exhausted.
pub open spec fn spec_read_byte(input: Seq<u8>, index: usize) -> (u8, usize, bool)
    recommends
        input.len() + 4 <= usize::MAX,
{
    if index < input.len() {
        (input[index as int], (index + 1) as usize, true)
    } else if index < input.len() + 3 {
        (0xFFu8, (index + 1) as usize, true)
    } else {
        (0u8, index, false)
    }
}

/// Normalization, decoding side: shifts the interval as the encoder
/// does, pulling one stream byte into the window per shift. Stops where
/// the stream is exhausted, reporting failure with the state reached.
pub open spec fn spec_dec_flush(low: u32, high: u32, value: u32, input: Seq<u8>, index: usize) -> (
    u32,
    u32,
    u32,
    usize,
    bool,
)
    recommends
        input.len() + 4 <= usize::MAX,
    decreases 0x100000000 - (high ^ low) via spec_dec_flush_decreases
{
    if (high ^ low) >= 0x1000000 {
        (low, high, value, index, true)
    } else {
        let rb = spec_read_byte(input, index);
        if !rb.2 {
            (low, high, value, index, false)
        } else {
            spec_dec_flush(low << 8, (high << 8) | 0xFF, (value << 8) | (rb.0 as u32), input, rb.1)
        }
    }
}

#[via_fn]
proof fn spec_dec_flush_decreases(low: u32, high: u32, value: u32, input: Seq<u8>, index: usize) {
    assert((high ^ low) < 0x1000000 ==> (((high << 8) | 0xFF) ^ (low << 8)) > (high ^ low))
        by (bit_vector);
}

/// One decoding step: split at the middle as the encoder did; a window
/// at or below the middle means the encoder kept the lower part (a one),
/// otherwise the upper part (a zero); then normalize.
pub open spec fn spec_decode_bit(
    low: u32,
    high: u32,
    value: u32,
    input: Seq<u8>,
    index: usize,
    prediction: u32,
) -> (u32, u32, u32, usize, bool, Bit)
    recommends
        low < high,
        input.len() + 4 <= usize::MAX,
{
    let middle = spec_middle(low, high, prediction);
    if value <= middle {
        let f = spec_dec_flush(low, middle, value, input, index);
        (f.0, f.1, f.2, f.3, f.4, Bit::One)
    } else {
        let f = spec_dec_flush((middle + 1) as u32, high, value, input, index);
        (f.0, f.1, f.2, f.3, f.4, Bit::Zero)
    }
}

/// Decoding-side normalization keeps the ends ordered, never walks the
/// read position backwards, and on success leaves the top bytes of the
/// ends apart.
pub proof fn lemma_dec_flush_ends(low: u32, high: u32, value: u32, input: Seq<u8>, index: usize)
    requires
        low <= high,
        index <= input.len() + 3,
        input.len() + 4 <= usize::MAX,
    ensures
        ({
            let f = spec_dec_flush(low, high, value, input, index);
            &&& f.0 <= f.1
            &&& index <= f.3 <= input.len() + 3
            &&& f.4 ==> f.0 < f.1 && (f.1 ^ f.0) >= 0x1000000
        }),
    decreases 0x100000000 - (high ^ low),
{
    if (high ^ low) >= 0x1000000 {
        assert(low <= high && (high ^ low) >= 0x1000000 ==> low < high) by (bit_vector);
    } else {
        let rb = spec_read_byte(input, index);
        if rb.2 {
            assert((high ^ low) < 0x1000000 && low <= high ==> (low << 8) <= ((high << 8) | 0xFF)
                && (((high << 8) | 0xFF) ^ (low << 8)) > (high ^ low)) by (bit_vector);
            lemma_dec_flush_ends(low << 8, (high << 8) | 0xFF, (value << 8) | (rb.0 as u32), input, rb.1);
        }
    }
}

/// The decoding side of the range coder over a byte stream held whole.
pub struct BitDecoder {
    pub low: u32,
    pub high: u32,
    pub value: u32,
    pub input: Vec<u8>,
    pub index: usize,
    pub exhausted: bool,
}

impl BitDecoder {
    /// The interval is never empty while the stream lasts, and the read
    /// position never runs more than three bytes past the end.
    pub open spec fn wf(self) -> bool {
        &&& self.input@.len() + 4 <= usize::MAX
        &&& self.index <= self.input@.len() + 3
        &&& !self.exhausted ==> self.low < self.high
    }

    /// The window the first four stream bytes fill, big-endian.
    pub open spec fn spec_initial(input: Seq<u8>) -> (u32, usize, bool) {
        let r0 = spec_read_byte(input, 0);
        let r1 = spec_read_byte(input, r0.1);
        let r2 = spec_read_byte(input, r1.1);
        let r3 = spec_read_byte(input, r2.1);
        (
            ((((((r0.0 as u32) << 8) | (r1.0 as u32)) << 8) | (r2.0 as u32)) << 8) | (r3.0 as u32),
            r3.1,
            r0.2 && r1.2 && r2.2 && r3.2,
        )
    }

    /// Pulls the next stream byte, or reports exhaustion.
    fn read_next(&mut self) -> (r: Option<u8>)
        requires
            old(self).input@.len() + 4 <= usize::MAX,
            old(self).index <= old(self).input@.len() + 3,
        ensures
            final(self).index <= final(self).input@.len() + 3,
            final(self).low == old(self).low,
            final(self).high == old(self).high,
            final(self).value == old(self).value,
            final(self).input@ == old(self).input@,
            final(self).exhausted == old(self).exhausted,
            ({
                let rb = spec_read_byte(old(self).input@, old(self).index);
                &&& final(self).index == rb.1
                &&& r == (if rb.2 {
                    Some(rb.0)
                } else {
                    None::<u8>
                })
            }),
    {
        if self.index < self.input.len() {
            let b: u8 = self.input[self.index];
            self.index = self.index + 1;
            Some(b)
        } else if self.index < self.input.len() + 3 {
            self.index = self.index + 1;
            Some(0xFF)
        } else {
            None
        }
    }

    /// A fresh decoder over a stream: the full interval, and the window
    /// filled from the first four bytes.
    pub fn new(input: Vec<u8>) -> (r: Self)
        requires
            input@.len() + 4 <= usize::MAX,
        ensures
            r.wf(),
            r.low == 0,
            r.high == 0xFFFFFFFFu32,
            r.input@ == input@,
            ({
                let init = Self::spec_initial(input@);
                &&& r.value == init.0
                &&& r.index == init.1
                &&& r.exhausted == !init.2
            }),
    {
        let mut decoder = BitDecoder {
            low: 0,
            high: 0xFFFFFFFF,
            value: 0,
            input,
            index: 0,
            exhausted: false,
        };
        let mut value: u32 = 0;
        let mut ok: bool = true;
        let ghost input0 = decoder.input@;
        let mut k: usize = 0;
        while k < 4
            invariant
                decoder.wf(),
                decoder.input@ == input0,
                decoder.low == 0,
                decoder.high == 0xFFFFFFFFu32,
                !decoder.exhausted,
                k <= 4,
                ({
                    let r0 = spec_read_byte(decoder.input@, 0);
                    let r1 = spec_read_byte(decoder.input@, r0.1);
                    let r2 = spec_read_byte(decoder.input@, r1.1);
                    let r3 = spec_read_byte(decoder.input@, r2.1);
                    &&& (k == 0 ==> decoder.index == 0 && ok && value == 0)
                    &&& (k == 1 ==> decoder.index == r0.1 && ok == r0.2 && value == r0.0 as u32)
                    &&& (k == 2 ==> decoder.index == r1.1 && ok == (r0.2 && r1.2) && value == (
                    ((r0.0 as u32) << 8) | (r1.0 as u32)))
                    &&& (k == 3 ==> decoder.index == r2.1 && ok == (r0.2 && r1.2 && r2.2)
                        && value == ((((((r0.0 as u32) << 8) | (r1.0 as u32)) << 8) | (
                    r2.0 as u32))))
                    &&& (k == 4 ==> decoder.index == r3.1 && ok == (r0.2 && r1.2 && r2.2 && r3.2)
                        && value == ((((((((r0.0 as u32) << 8) | (r1.0 as u32)) << 8) | (
                    r2.0 as u32)) << 8) | (r3.0 as u32))))
                }),
            decreases 4 - k,
        {
            let next: Option<u8> = decoder.read_next();
            let b: u8 = match next {
                Some(b) => b,
                None => {
                    ok = false;
                    0
                },
            };
            proof {
                assert(((0u32 << 8) | (b as u32)) == (b as u32)) by (bit_vector);
            }
            value = (value << 8) | (b as u32);
            k = k + 1;
        }
        decoder.value = value;
        decoder.exhausted = !ok;
        decoder
    }

    /// Decodes one bit under the given prediction. Returns nothing once
    /// the stream is exhausted; the caller stops there.
    pub fn bit(&mut self, prediction: u32) -> (r: Option<Bit>)
        requires
            old(self).wf(),
        ensures
            final(self).wf(),
            final(self).input@ == old(self).input@,
            old(self).exhausted ==> *final(self) == *old(self) && r == None::<Bit>,
            !old(self).exhausted ==> ({
                let d = spec_decode_bit(
                    old(self).low,
                    old(self).high,
                    old(self).value,
                    old(self).input@,
                    old(self).index,
                    prediction,
                );
                &&& final(self).low == d.0
                &&& final(self).high == d.1
                &&& final(self).value == d.2
                &&& final(self).index == d.3
                &&& final(self).exhausted == !d.4
                &&& r == (if d.4 {
                    Some(d.5)
                } else {
                    None::<Bit>
                })
            }),
    {
        if self.exhausted {
            return None;
        }
        proof {
            lemma_middle_bounds(self.low, self.high, prediction);
        }
        let diff: u32 = self.high - self.low;
        proof {
            assert(diff * prediction <= 0xFFFFFFFFu32 * 0xFFFFFFFFu32) by (nonlinear_arith)
                requires
                    diff <= 0xFFFFFFFFu32,
                    prediction <= 0xFFFFFFFFu32,
            ;
        }
        let wide: u64 = (diff as u64) * (prediction as u64);
        proof {
            assert(wide >> 32 == wide / 0x100000000 && wide >> 32 <= 0xFFFFFFFF) by (bit_vector);
        }
        let delta: u32 = (wide >> 32) as u32;
        let middle: u32 = self.low + delta;
        let bit: Bit;
        if self.value <= middle {
            bit = Bit::One;
            self.high = middle;
        } else {
            bit = Bit::Zero;
            self.low = middle + 1;
        }
        proof {
            lemma_dec_flush_ends(self.low, self.high, self.value, self.input@, self.index);
        }
        while (self.high ^ self.low) < 0x1000000
            invariant
                self.input@.len() + 4 <= usize::MAX,
                self.index <= self.input@.len() + 3,
                !old(self).exhausted,
                !self.exhausted,
                self.low <= self.high,
                self.input@ == old(self).input@,
                spec_decode_bit(
                    old(self).low,
                    old(self).high,
                    old(self).value,
                    old(self).input@,
                    old(self).index,
                    prediction,
                ) == ({
                    let f = spec_dec_flush(self.low, self.high, self.value, self.input@, self.index);
                    (f.0, f.1, f.2, f.3, f.4, bit)
                }),
            decreases 0x100000000 - (self.high ^ self.low),
        {
            let low = self.low;
            let high = self.high;
            assert((high ^ low) < 0x1000000 && low <= high ==> (low << 8) <= ((high << 8) | 0xFF)
                && (((high << 8) | 0xFF) ^ (low << 8)) > (high ^ low)) by (bit_vector);
            let next: Option<u8> = self.read_next();
            match next {
                None => {
                    self.exhausted = true;
                    return None;
                },
                Some(b) => {
                    self.value = (self.value << 8) | (b as u32);
                    self.low = low << 8;
                    self.high = (high << 8) | 0xFF;
                },
            }
            proof {
                lemma_dec_flush_ends(self.low, self.high, self.value, self.input@, self.index);
            }
        }
        proof {
            let low = self.low;
            let high = self.high;
            assert(low <= high && (high ^ low) >= 0x1000000 ==> low < high) by (bit_vector);
        }
        Some(bit)
    }
}

} // verus!
