//! The decoding pipeline: one combined stage that interleaves the range
//! decoder, the secondary model, and the primary model, because each
//! decoded bit depends on state built from earlier decoded bytes.

use vstd::prelude::*;
use crate::bit::Bit;
use crate::bit_decoder::BitDecoder;
use crate::bit_decoder::spec_decode_bit;
use crate::bit_decoder::spec_dec_flush;
use crate::bridged::BridgedContextInfo;
use crate::bridged::BridgedPrimaryContext;
use crate::bridged::BridgedSecondaryContext;
use crate::bridged::SECONDARY_CONTEXT_SIZE;
use crate::bridged::spec_first_context;
use crate::bridged::spec_literal_context;
use crate::bridged::spec_second_context;
use crate::bridged::spec_third_context;
use crate::encoder::PrimaryModel;
use crate::encoder::spec_initial_model;
use crate::encoder::spec_model_info;
use crate::encoder::spec_model_of;
use crate::encoder::spec_model_step;
use crate::matched::ByteMatched;
use crate::secondary_state::BitState;
use crate::secondary_state::spec_state_info;

verus! {

/// The whole decoder reduced to its mathematical content: the primary
/// and secondary models, the range decoder registers, and the bytes
/// written so far.
pub struct DecoderModel {
    pub primary: PrimaryModel,
    pub states: Seq<BitState>,
    pub low: u32,
    pub high: u32,
    pub value: u32,
    pub index: usize,
    pub exhausted: bool,
    pub output: Seq<u8>,
}

/// One bit decoded at a secondary context: look the prediction up, ask
/// the range decoder, and advance the cell on success. An exhausted
/// stream yields nothing and leaves the models untouched.
pub open spec fn spec_cd_bit(m: DecoderModel, input: Seq<u8>, c: int) -> (DecoderModel, Option<
    Bit,
>) {
    if m.exhausted {
        (m, None::<Bit>)
    } else {
        let info = spec_state_info(m.states[c].0);
        let d = spec_decode_bit(m.low, m.high, m.value, input, m.index, info.prediction);
        if d.4 {
            (
                DecoderModel {
                    states: m.states.update(c, BitState(info.spec_next(d.5))),
                    low: d.0,
                    high: d.1,
                    value: d.2,
                    index: d.3,
                    exhausted: false,
                    primary: m.primary,
                    output: m.output,
                },
                Some(d.5),
            )
        } else {
            (
                DecoderModel {
                    states: m.states,
                    low: d.0,
                    high: d.1,
                    value: d.2,
                    index: d.3,
                    exhausted: true,
                    primary: m.primary,
                    output: m.output,
                },
                None::<Bit>,
            )
        }
    }
}

/// One nibble decoded along a context tree: four bits, each at the
/// offset given by the partial value, building a value in 16..=31.
#[verifier::opaque]
pub open spec fn spec_cd_nibble(m: DecoderModel, input: Seq<u8>, base: int) -> (DecoderModel, Option<
    int,
>) {
    let s1 = spec_cd_bit(m, input, base + 1);
    match s1.1 {
        None => (s1.0, None::<int>),
        Some(b1) => {
            let h1 = 2 + b1.spec_flag() as int;
            let s2 = spec_cd_bit(s1.0, input, base + h1);
            match s2.1 {
                None => (s2.0, None::<int>),
                Some(b2) => {
                    let h2 = 2 * h1 + b2.spec_flag() as int;
                    let s3 = spec_cd_bit(s2.0, input, base + h2);
                    match s3.1 {
                        None => (s3.0, None::<int>),
                        Some(b3) => {
                            let h3 = 2 * h2 + b3.spec_flag() as int;
                            let s4 = spec_cd_bit(s3.0, input, base + h3);
                            match s4.1 {
                                None => (s4.0, None::<int>),
                                Some(b4) => (s4.0, Some(2 * h3 + b4.spec_flag() as int)),
                            }
                        },
                    }
                },
            }
        },
    }
}

/// One literal byte decoded: the high nibble along the block's tree,
/// then the low nibble in the sub-block the high nibble selects.
#[verifier::opaque]
pub open spec fn spec_cd_byte(m: DecoderModel, input: Seq<u8>, c: int) -> (DecoderModel, Option<
    u8,
>) {
    let sh = spec_cd_nibble(m, input, c);
    match sh.1 {
        None => (sh.0, None::<u8>),
        Some(high) => {
            let sl = spec_cd_nibble(sh.0, input, c + 15 * (high - 15));
            match sl.1 {
                None => (sl.0, None::<u8>),
                Some(low) => (sl.0, Some((((high - 16) * 16) + (low - 16)) as u8)),
            }
        },
    }
}

/// One source byte decoded: read the match flags, pick the ranked byte
/// or decode a literal, emit it, and replay the outcome into the primary
/// model. Stops on the in-band marker (a literal equal to the first-rank
/// byte) or on an exhausted stream.
#[verifier::opaque]
pub open spec fn spec_decode_step(m: DecoderModel, input: Seq<u8>) -> (DecoderModel, bool) {
    let info = spec_model_info(m.primary);
    let s1 = spec_cd_bit(m, input, spec_first_context(info) as int);
    match s1.1 {
        None => (s1.0, true),
        Some(Bit::Zero) => (spec_emit(s1.0, info.first_byte, ByteMatched::MatchFirst), false),
        Some(Bit::One) => {
            let s2 = spec_cd_bit(s1.0, input, spec_second_context(info) as int);
            match s2.1 {
                None => (s2.0, true),
                Some(Bit::Zero) => {
                    let sb = spec_cd_byte(s2.0, input, spec_literal_context(info) as int);
                    match sb.1 {
                        None => (sb.0, true),
                        Some(b) => if b == info.first_byte {
                            (sb.0, true)
                        } else {
                            (spec_emit(sb.0, b, ByteMatched::NoMatch), false)
                        },
                    }
                },
                Some(Bit::One) => {
                    let s3 = spec_cd_bit(s2.0, input, spec_third_context(info) as int);
                    match s3.1 {
                        None => (s3.0, true),
                        Some(Bit::Zero) => (
                            spec_emit(s3.0, info.second_byte, ByteMatched::MatchSecond),
                            false,
                        ),
                        Some(Bit::One) => (
                            spec_emit(s3.0, info.third_byte, ByteMatched::MatchThird),
                            false,
                        ),
                    }
                },
            }
        },
    }
}

/// Appends a decoded byte and replays its outcome into the primary model.
pub open spec fn spec_emit(m: DecoderModel, b: u8, o: ByteMatched) -> DecoderModel {
    DecoderModel {
        primary: spec_model_step(m.primary, b, o),
        output: m.output.push(b),
        states: m.states,
        low: m.low,
        high: m.high,
        value: m.value,
        index: m.index,
        exhausted: m.exhausted,
    }
}

/// Normalization never walks the read position backwards, and where it
/// leaves the position alone it leaves the ends alone too.
proof fn lemma_dec_flush_progress(low: u32, high: u32, value: u32, input: Seq<u8>, index: usize)
    requires
        index <= input.len() + 3,
        input.len() + 4 <= usize::MAX,
    ensures
        ({
            let f = spec_dec_flush(low, high, value, input, index);
            &&& f.3 >= index
            &&& f.3 == index ==> f.0 == low && f.1 == high
        }),
    decreases 0x100000000 - (high ^ low),
{
    if (high ^ low) < 0x1000000 {
        let rb = crate::bit_decoder::spec_read_byte(input, index);
        if rb.2 {
            assert((high ^ low) < 0x1000000 ==> (((high << 8) | 0xFF) ^ (low << 8)) > (high ^ low))
                by (bit_vector);
            lemma_dec_flush_progress(
                low << 8,
                (high << 8) | 0xFF,
                (value << 8) | (rb.0 as u32),
                input,
                rb.1,
            );
        }
    }
}

/// Each bit the decoder yields makes progress: it consumes a stream
/// byte, or it strictly narrows the interval; and it leaves a live,
/// non-empty decoder behind. This bounds a whole decoding run by the
/// stream length, so the decoder cannot run forever, corrupt input or
/// not.
proof fn lemma_cd_bit_progress(m: DecoderModel, input: Seq<u8>, c: int)
    requires
        !m.exhausted,
        m.low < m.high,
        m.index <= input.len() + 3,
        input.len() + 4 <= usize::MAX,
    ensures
        ({
            let s = spec_cd_bit(m, input, c);
            &&& s.0.index >= m.index
            &&& s.0.index <= input.len() + 3
            &&& s.1 is Some ==> {
                &&& !s.0.exhausted
                &&& s.0.low < s.0.high
                &&& s.0.index > m.index || (s.0.index == m.index && s.0.high - s.0.low < m.high
                    - m.low)
            }
        }),
{
    let info = spec_state_info(m.states[c].0);
    let p = info.prediction;
    crate::bit_encoder::lemma_middle_bounds(m.low, m.high, p);
    let middle = crate::bit_encoder::spec_middle(m.low, m.high, p);
    if m.value <= middle {
        lemma_dec_flush_progress(m.low, middle, m.value, input, m.index);
        crate::bit_decoder::lemma_dec_flush_ends(m.low, middle, m.value, input, m.index);
    } else {
        lemma_dec_flush_progress((middle + 1) as u32, m.high, m.value, input, m.index);
        crate::bit_decoder::lemma_dec_flush_ends((middle + 1) as u32, m.high, m.value, input, m.index);
    }
}

/// A decoded nibble makes the same progress as its bits.
proof fn lemma_cd_nibble_progress(m: DecoderModel, input: Seq<u8>, base: int)
    requires
        !m.exhausted,
        m.low < m.high,
        m.index <= input.len() + 3,
        input.len() + 4 <= usize::MAX,
    ensures
        ({
            let s = spec_cd_nibble(m, input, base);
            &&& s.0.index >= m.index
            &&& s.0.index <= input.len() + 3
            &&& s.1 is Some ==> {
                &&& !s.0.exhausted
                &&& s.0.low < s.0.high
                &&& s.0.index > m.index || (s.0.index == m.index && s.0.high - s.0.low < m.high
                    - m.low)
            }
        }),
{
    reveal(spec_cd_nibble);
    let s1 = spec_cd_bit(m, input, base + 1);
    lemma_cd_bit_progress(m, input, base + 1);
    if s1.1 is Some {
        let b1 = s1.1->0;
        let h1 = 2 + b1.spec_flag() as int;
        let s2 = spec_cd_bit(s1.0, input, base + h1);
        lemma_cd_bit_progress(s1.0, input, base + h1);
        if s2.1 is Some {
            let b2 = s2.1->0;
            let h2 = 2 * h1 + b2.spec_flag() as int;
            let s3 = spec_cd_bit(s2.0, input, base + h2);
            lemma_cd_bit_progress(s2.0, input, base + h2);
            if s3.1 is Some {
                let b3 = s3.1->0;
                let h3 = 2 * h2 + b3.spec_flag() as int;
                lemma_cd_bit_progress(s3.0, input, base + h3);
            }
        }
    }
}

/// A decoded literal byte makes the same progress as its nibbles.
proof fn lemma_cd_byte_progress(m: DecoderModel, input: Seq<u8>, c: int)
    requires
        !m.exhausted,
        m.low < m.high,
        m.index <= input.len() + 3,
        input.len() + 4 <= usize::MAX,
    ensures
        ({
            let s = spec_cd_byte(m, input, c);
            &&& s.0.index >= m.index
            &&& s.0.index <= input.len() + 3
            &&& s.1 is Some ==> {
                &&& !s.0.exhausted
                &&& s.0.low < s.0.high
                &&& s.0.index > m.index || (s.0.index == m.index && s.0.high - s.0.low < m.high
                    - m.low)
            }
        }),
{
    reveal(spec_cd_byte);
    let sh = spec_cd_nibble(m, input, c);
    lemma_cd_nibble_progress(m, input, c);
    if sh.1 is Some {
        let high = sh.1->0;
        lemma_cd_nibble_progress(sh.0, input, c + 15 * (high - 15));
    }
}

/// A source-byte step that does not stop the run makes progress: it
/// consumes a stream byte, or it strictly narrows the interval, and it
/// leaves a live decoder. With the read position bounded by the stream
/// length, every run stops.
proof fn lemma_decode_step_progress(m: DecoderModel, input: Seq<u8>)
    requires
        m.index <= input.len() + 3,
        input.len() + 4 <= usize::MAX,
        !m.exhausted ==> m.low < m.high,
    ensures
        ({
            let s = spec_decode_step(m, input);
            &&& !s.1 ==> {
                &&& !s.0.exhausted
                &&& s.0.low < s.0.high
                &&& s.0.index <= input.len() + 3
                &&& s.0.index > m.index || (s.0.index == m.index && s.0.high - s.0.low < m.high
                    - m.low)
            }
        }),
{
    reveal(spec_decode_step);
    if !m.exhausted {
        let info = spec_model_info(m.primary);
        let s1 = spec_cd_bit(m, input, spec_first_context(info) as int);
        lemma_cd_bit_progress(m, input, spec_first_context(info) as int);
        if s1.1 == Some(Bit::One) {
            let s2 = spec_cd_bit(s1.0, input, spec_second_context(info) as int);
            lemma_cd_bit_progress(s1.0, input, spec_second_context(info) as int);
            if s2.1 == Some(Bit::Zero) {
                lemma_cd_byte_progress(s2.0, input, spec_literal_context(info) as int);
            } else if s2.1 == Some(Bit::One) {
                lemma_cd_bit_progress(s2.0, input, spec_third_context(info) as int);
            }
        }
    }
}

/// The decoder run for a bounded number of source-byte steps: the state
/// reached, and whether the run came to its stop.
pub open spec fn spec_decode_run(m: DecoderModel, input: Seq<u8>, fuel: nat) -> (DecoderModel, bool)
    decreases fuel,
{
    if fuel == 0 {
        (m, false)
    } else {
        let s = spec_decode_step(m, input);
        if s.1 {
            (s.0, true)
        } else {
            spec_decode_run(s.0, input, (fuel - 1) as nat)
        }
    }
}

/// Extending an unfinished run by one fuel applies one more step.
#[verifier::rlimit(100)]
#[verifier::spinoff_prover]
pub proof fn lemma_decode_run_extend(m: DecoderModel, input: Seq<u8>, fuel: nat)
    requires
        !spec_decode_run(m, input, fuel).1,
    ensures
        spec_decode_run(m, input, fuel + 1) == ({
            let s = spec_decode_step(spec_decode_run(m, input, fuel).0, input);
            if s.1 {
                (s.0, true)
            } else {
                (s.0, false)
            }
        }),
    decreases fuel,
{
    let s = spec_decode_step(m, input);
    if fuel == 0 {
        assert(spec_decode_run(m, input, 0nat) == (m, false));
        assert(spec_decode_run(m, input, 1nat) == (if s.1 {
            (s.0, true)
        } else {
            spec_decode_run(s.0, input, 0nat)
        }));
    } else {
        assert(spec_decode_run(m, input, fuel) == (if s.1 {
            (s.0, true)
        } else {
            spec_decode_run(s.0, input, (fuel - 1) as nat)
        }));
        assert(!s.1);
        lemma_decode_run_extend(s.0, input, (fuel - 1) as nat);
        assert(spec_decode_run(m, input, fuel + 1) == spec_decode_run(s.0, input, fuel));
        assert(spec_decode_run(m, input, fuel).0 == spec_decode_run(s.0, input, (fuel - 1) as nat).0);
    }
}

/// The decoder model a run over a stream starts from.
pub open spec fn spec_initial_decoder(input: Seq<u8>) -> DecoderModel {
    let init = BitDecoder::spec_initial(input);
    DecoderModel {
        primary: spec_initial_model(),
        states: Seq::new(SECONDARY_CONTEXT_SIZE as nat, |i: int| BitState(0)),
        low: 0,
        high: 0xFFFFFFFFu32,
        value: init.0,
        index: init.1,
        exhausted: !init.2,
        output: Seq::<u8>::empty(),
    }
}

/// The decoded bytes of a stream: what a finished run yields.
pub open spec fn spec_decodes_to(input: Seq<u8>, output: Seq<u8>) -> bool {
    exists|fuel: nat|
        {
            let r = #[trigger] spec_decode_run(spec_initial_decoder(input), input, fuel);
            r.1 && r.0.output == output
        }
}

/// The combined decoding stage: the primary and secondary models, the
/// range decoder over the whole stream, and the recovered bytes.
pub struct CombinedContextDecoder {
    pub primary_context: BridgedPrimaryContext,
    pub secondary_context: BridgedSecondaryContext,
    pub decoder: BitDecoder,
    pub output: Vec<u8>,
}

impl CombinedContextDecoder {
    /// Every part is well formed.
    pub open spec fn wf(self) -> bool {
        &&& self.primary_context.wf()
        &&& self.secondary_context.wf()
        &&& self.decoder.wf()
    }

    /// The stage reduced to its model.
    pub open spec fn spec_model(self) -> DecoderModel {
        DecoderModel {
            primary: spec_model_of(self.primary_context),
            states: self.secondary_context.states@,
            low: self.decoder.low,
            high: self.decoder.high,
            value: self.decoder.value,
            index: self.decoder.index,
            exhausted: self.decoder.exhausted,
            output: self.output@,
        }
    }

    /// Decodes one bit at a secondary context.
    fn bit(&mut self, context_index: usize) -> (r: Option<Bit>)
        requires
            old(self).wf(),
            context_index < SECONDARY_CONTEXT_SIZE,
        ensures
            final(self).wf(),
            final(self).decoder.input@ == old(self).decoder.input@,
            ({
                let s = spec_cd_bit(
                    old(self).spec_model(),
                    old(self).decoder.input@,
                    context_index as int,
                );
                final(self).spec_model() == s.0 && r == s.1
            }),
    {
        let current_state = self.secondary_context.get_info(context_index);
        match self.decoder.bit(current_state.prediction()) {
            None => None,
            Some(bit) => {
                self.secondary_context.update(current_state, context_index, bit);
                Some(bit)
            },
        }
    }

    /// Decodes one nibble along a context tree, yielding 16..=31.
    fn nibble(&mut self, base: usize) -> (r: Option<usize>)
        requires
            old(self).wf(),
            base + 15 < SECONDARY_CONTEXT_SIZE,
        ensures
            final(self).wf(),
            final(self).decoder.input@ == old(self).decoder.input@,
            ({
                let s = spec_cd_nibble(old(self).spec_model(), old(self).decoder.input@, base as int);
                &&& final(self).spec_model() == s.0
                &&& r matches Some(h) ==> 16 <= h <= 31 && s.1 == Some(h as int)
                &&& r is None ==> s.1 is None
            }),
    {
        proof {
            reveal(spec_cd_nibble);
        }
        let mut high: usize = 1;
        match self.bit(base + high) {
            None => {
                return None;
            },
            Some(b) => {
                high = high + high + (b.flag() as usize);
            },
        }
        match self.bit(base + high) {
            None => {
                return None;
            },
            Some(b) => {
                high = high + high + (b.flag() as usize);
            },
        }
        match self.bit(base + high) {
            None => {
                return None;
            },
            Some(b) => {
                high = high + high + (b.flag() as usize);
            },
        }
        match self.bit(base + high) {
            None => {
                return None;
            },
            Some(b) => {
                high = high + high + (b.flag() as usize);
            },
        }
        Some(high)
    }

    /// Decodes one literal byte at a literal block.
    fn byte(&mut self, context_index: usize) -> (r: Option<u8>)
        requires
            old(self).wf(),
            context_index + 255 < SECONDARY_CONTEXT_SIZE,
        ensures
            final(self).wf(),
            final(self).decoder.input@ == old(self).decoder.input@,
            ({
                let s = spec_cd_byte(
                    old(self).spec_model(),
                    old(self).decoder.input@,
                    context_index as int,
                );
                final(self).spec_model() == s.0 && r == s.1
            }),
    {
        proof {
            reveal(spec_cd_byte);
        }
        let high: usize = match self.nibble(context_index) {
            None => {
                return None;
            },
            Some(h) => h,
        };
        let low_context: usize = context_index + 15 * (high - 15);
        let low: usize = match self.nibble(low_context) {
            None => {
                return None;
            },
            Some(l) => l,
        };
        Some((((high - 16) * 16) + (low - 16)) as u8)
    }

    /// Decodes one source byte: reads the match flags, picks the ranked
    /// byte or decodes a literal, emits it, and replays the outcome into
    /// the primary model. Reports whether the run stops here: on the
    /// in-band marker or on an exhausted stream.
    #[verifier::rlimit(100)]
    #[verifier::spinoff_prover]
    fn step(&mut self) -> (done: bool)
        requires
            old(self).wf(),
        ensures
            final(self).wf(),
            final(self).decoder.input@ == old(self).decoder.input@,
            ({
                let s = spec_decode_step(old(self).spec_model(), old(self).decoder.input@);
                final(self).spec_model() == s.0 && done == s.1
            }),
    {
        let ghost current = self.spec_model();
        let ghost input0 = self.decoder.input@;
        proof {
            reveal(spec_decode_step);
        }
        let info: BridgedContextInfo = BridgedContextInfo::new(self.primary_context.get_info());
        match self.bit(info.first_context()) {
            None => {
                proof {
                    assert(spec_decode_step(current, input0).0 =~= self.spec_model());
                }
                true
            },
            Some(Bit::Zero) => {
                let next_byte: u8 = info.first_byte();
                self.output.push(next_byte);
                self.primary_context.matched(next_byte, ByteMatched::MatchFirst);
                proof {
                    assert(spec_decode_step(current, input0).0 =~= self.spec_model());
                }
                false
            },
            Some(Bit::One) => {
                match self.bit(info.second_context()) {
                    None => {
                        proof {
                            assert(spec_decode_step(current, input0).0 =~= self.spec_model());
                        }
                        true
                    },
                    Some(Bit::Zero) => {
                        match self.byte(info.literal_context()) {
                            None => {
                                proof {
                                    assert(spec_decode_step(current, input0).0
                                        =~= self.spec_model());
                                }
                                true
                            },
                            Some(next_byte) => {
                                if next_byte == info.first_byte() {
                                    proof {
                                        assert(spec_decode_step(current, input0).0
                                            =~= self.spec_model());
                                    }
                                    true
                                } else {
                                    self.output.push(next_byte);
                                    self.primary_context.matched(next_byte, ByteMatched::NoMatch);
                                    proof {
                                        assert(spec_decode_step(current, input0).0
                                            =~= self.spec_model());
                                    }
                                    false
                                }
                            },
                        }
                    },
                    Some(Bit::One) => {
                        match self.bit(info.third_context()) {
                            None => {
                                proof {
                                    assert(spec_decode_step(current, input0).0
                                        =~= self.spec_model());
                                }
                                true
                            },
                            Some(Bit::Zero) => {
                                let next_byte: u8 = info.second_byte();
                                self.output.push(next_byte);
                                self.primary_context.matched(next_byte, ByteMatched::MatchSecond);
                                proof {
                                    assert(spec_decode_step(current, input0).0
                                        =~= self.spec_model());
                                }
                                false
                            },
                            Some(Bit::One) => {
                                let next_byte: u8 = info.third_byte();
                                self.output.push(next_byte);
                                self.primary_context.matched(next_byte, ByteMatched::MatchThird);
                                proof {
                                    assert(spec_decode_step(current, input0).0
                                        =~= self.spec_model());
                                }
                                false
                            },
                        }
                    },
                }
            },
        }
    }

    /// Decodes the whole stream, one source byte at a time, to the
    /// in-band marker or to exhaustion. The run is bounded: every step
    /// consumes a stream byte or narrows the coder interval, so the
    /// decoder cannot run forever, corrupt input or not.
    pub fn decode(self) -> (r: Vec<u8>)
        requires
            self.wf(),
        ensures
            ({
                let m0 = self.spec_model();
                exists|fuel: nat|
                    {
                        let run = #[trigger] spec_decode_run(m0, self.decoder.input@, fuel);
                        run.1 && run.0.output == r@
                    }
            }),
    {
        let mut this = self;
        let ghost m0 = self.spec_model();
        let ghost input0 = self.decoder.input@;
        let ghost mut steps: nat = 0nat;
        loop
            invariant_except_break
                this.wf(),
                this.decoder.input@ == input0,
                spec_decode_run(m0, input0, steps) == (this.spec_model(), false),
            ensures
                exists|fuel: nat|
                    {
                        let run = #[trigger] spec_decode_run(m0, input0, fuel);
                        run.1 && run.0.output == this.output@
                    },
            decreases input0.len() + 3 - this.decoder.index, this.decoder.high - this.decoder.low,
        {
            let ghost current = this.spec_model();
            proof {
                lemma_decode_run_extend(m0, input0, steps);
                lemma_decode_step_progress(current, input0);
            }
            let done: bool = this.step();
            proof {
                steps = steps + 1;
            }
            if done {
                proof {
                    assert(spec_decode_run(m0, input0, steps).1 && spec_decode_run(
                        m0,
                        input0,
                        steps,
                    ).0.output == this.output@);
                }
                break;
            }
        }
        this.output
    }
}

/// Runs the combined decoder over a whole stream from fresh models.
pub fn run_combined_context_decoder(input: Vec<u8>) -> (r: Vec<u8>)
    requires
        input@.len() + 4 <= usize::MAX,
    ensures
        spec_decodes_to(input@, r@),
{
    let ghost input0 = input@;
    let decoder = CombinedContextDecoder {
        primary_context: BridgedPrimaryContext::new(),
        secondary_context: BridgedSecondaryContext::new(),
        decoder: BitDecoder::new(input),
        output: Vec::new(),
    };
    proof {
        assert(decoder.spec_model() =~= spec_initial_decoder(input0));
        assert(decoder.spec_model() == spec_initial_decoder(input0));
    }
    decoder.decode()
}

/// Decompresses a byte stream: the deterministic run of the combined
/// decoder over it, to its in-band marker or to exhaustion.
pub fn decode(input: Vec<u8>) -> (r: Vec<u8>)
    requires
        input@.len() + 4 <= usize::MAX,
    ensures
        spec_decodes_to(input@, r@),
{
    run_combined_context_decoder(input)
}

} // verus!
