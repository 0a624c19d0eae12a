//! The encoding pipeline: the primary stage turns input bytes into coding
//! requests, and the secondary stage turns coding requests into the
//! compressed byte stream.

use vstd::prelude::*;
use crate::bit::Bit;
use crate::bit_encoder::BitEncoder;
use crate::bit_encoder::spec_encode_bit;
use crate::bridged::BridgedContextInfo;
use crate::bridged::BridgedPrimaryContext;
use crate::bridged::BridgedSecondaryContext;
use crate::bridged::PRIMARY_CONTEXT_SIZE;
use crate::bridged::SECONDARY_CONTEXT_SIZE;
use crate::bridged::lemma_bridged_bounds;
use crate::bridged::spec_first_context;
use crate::bridged::spec_literal_context;
use crate::bridged::spec_second_context;
use crate::bridged::spec_third_context;
use crate::history::ByteHistory;
use crate::history::spec_classify;
use crate::history::spec_empty_history;
use crate::history::spec_updated;
use crate::matched::ByteMatched;
use crate::message::Message;
use crate::message::PackedMessage;
use crate::message::spec_unpack;
use crate::primary_context::PrimaryContextInfo;
use crate::primary_context::spec_info;
use crate::primary_context::spec_next_hash;
use crate::secondary_state::BitState;
use crate::secondary_state::spec_state_info;

verus! {

/// The primary context reduced to its mathematical content.
pub struct PrimaryModel {
    pub previous_byte: u8,
    pub hash_value: usize,
    pub table: Seq<ByteHistory>,
}

/// The model of a live primary context.
pub open spec fn spec_model_of(c: BridgedPrimaryContext) -> PrimaryModel {
    PrimaryModel { previous_byte: c.previous_byte, hash_value: c.hash_value, table: c.context@ }
}

/// The model every encoding or decoding run starts from.
pub open spec fn spec_initial_model() -> PrimaryModel {
    PrimaryModel {
        previous_byte: 0,
        hash_value: 0,
        table: Seq::new(PRIMARY_CONTEXT_SIZE as nat, |i: int| spec_empty_history()),
    }
}

/// The cell a model currently points at.
pub open spec fn spec_model_cell(m: PrimaryModel) -> ByteHistory {
    m.table[m.hash_value as int]
}

/// The snapshot a model yields.
pub open spec fn spec_model_info(m: PrimaryModel) -> PrimaryContextInfo {
    spec_info(m.previous_byte, m.hash_value, spec_model_cell(m))
}

/// One primary step: record the byte under the outcome, advance the
/// previous byte and the hash.
pub open spec fn spec_model_step(m: PrimaryModel, b: u8, o: ByteMatched) -> PrimaryModel {
    PrimaryModel {
        previous_byte: b,
        hash_value: spec_next_hash(m.hash_value, b, PRIMARY_CONTEXT_SIZE),
        table: m.table.update(m.hash_value as int, spec_updated(spec_model_cell(m), b, o)),
    }
}

/// The model after the encoder has consumed a whole input, classifying
/// each byte itself.
pub open spec fn spec_primary_after(m: PrimaryModel, input: Seq<u8>) -> PrimaryModel
    decreases input.len(),
{
    if input.len() == 0 {
        m
    } else {
        let prev = spec_primary_after(m, input.drop_last());
        spec_model_step(prev, input.last(), spec_classify(spec_model_cell(prev), input.last()))
    }
}

/// The outcome the encoder classifies for each input byte in turn.
pub open spec fn spec_outcomes(m: PrimaryModel, input: Seq<u8>) -> Seq<ByteMatched>
    decreases input.len(),
{
    if input.len() == 0 {
        Seq::<ByteMatched>::empty()
    } else {
        let prev = spec_primary_after(m, input.drop_last());
        spec_outcomes(m, input.drop_last()).push(
            spec_classify(spec_model_cell(prev), input.last()),
        )
    }
}

/// The model after the decoder has replayed a whole input under given
/// outcomes.
pub open spec fn spec_primary_replayed(
    m: PrimaryModel,
    input: Seq<u8>,
    outcomes: Seq<ByteMatched>,
) -> PrimaryModel
    decreases input.len(),
{
    if input.len() == 0 {
        m
    } else {
        let prev = spec_primary_replayed(m, input.drop_last(), outcomes.drop_last());
        spec_model_step(prev, input.last(), outcomes.last())
    }
}

/// Primary symmetry: replaying the outcomes that classification produced
/// drives a fresh context through exactly the states that classification
/// itself produced, so the decoder's table tracks the encoder's.
pub proof fn lemma_replay_matches_classification(m: PrimaryModel, input: Seq<u8>)
    ensures
        spec_primary_replayed(m, input, spec_outcomes(m, input)) == spec_primary_after(m, input),
    decreases input.len(),
{
    if input.len() != 0 {
        lemma_replay_matches_classification(m, input.drop_last());
        assert(spec_outcomes(m, input).drop_last() =~= spec_outcomes(m, input.drop_last()));
    }
}

/// The coding requests the primary stage emits for one byte: the match
/// flags of the outcome, and the literal byte itself on a miss.
pub open spec fn spec_byte_messages(info: PrimaryContextInfo, o: ByteMatched, b: u8) -> Seq<
    Message,
> {
    match o {
        ByteMatched::MatchFirst => seq![
            Message::Bit(spec_first_context(info), Bit::Zero),
        ],
        ByteMatched::NoMatch => seq![
            Message::Bit(spec_first_context(info), Bit::One),
            Message::Bit(spec_second_context(info), Bit::Zero),
            Message::Byte(spec_literal_context(info), b),
        ],
        ByteMatched::MatchSecond => seq![
            Message::Bit(spec_first_context(info), Bit::One),
            Message::Bit(spec_second_context(info), Bit::One),
            Message::Bit(spec_third_context(info), Bit::Zero),
        ],
        ByteMatched::MatchThird => seq![
            Message::Bit(spec_first_context(info), Bit::One),
            Message::Bit(spec_second_context(info), Bit::One),
            Message::Bit(spec_third_context(info), Bit::One),
        ],
    }
}

/// The in-band end-of-stream marker: a miss whose literal equals the
/// first-rank byte, which no real input byte can produce.
pub open spec fn spec_eof_messages(info: PrimaryContextInfo) -> Seq<Message> {
    seq![
        Message::Bit(spec_first_context(info), Bit::One),
        Message::Bit(spec_second_context(info), Bit::Zero),
        Message::Byte(spec_literal_context(info), info.first_byte),
    ]
}

/// End-of-stream unambiguity: at every position, a byte the primary
/// stage classifies as a miss differs from the first-rank byte of its
/// snapshot, so only the end marker codes a literal equal to that byte,
/// and the decoder's stop test fires for the marker alone.
pub proof fn lemma_eof_unambiguous(m: PrimaryModel, input: Seq<u8>, k: int)
    requires
        0 <= k < input.len(),
    ensures
        ({
            let prev = spec_primary_after(m, input.subrange(0, k));
            spec_classify(spec_model_cell(prev), input[k]) == ByteMatched::NoMatch ==> input[k]
                != spec_model_info(prev).first_byte
        }),
{
    let prev = spec_primary_after(m, input.subrange(0, k));
    crate::history::lemma_no_match_differs_from_first(spec_model_cell(prev), input[k]);
}

/// All coding requests for an input, without the end marker.
pub open spec fn spec_primary_messages(m: PrimaryModel, input: Seq<u8>) -> Seq<Message>
    decreases input.len(),
{
    if input.len() == 0 {
        Seq::<Message>::empty()
    } else {
        let prev = spec_primary_after(m, input.drop_last());
        spec_primary_messages(m, input.drop_last()) + spec_byte_messages(
            spec_model_info(prev),
            spec_classify(spec_model_cell(prev), input.last()),
            input.last(),
        )
    }
}

/// The full request stream for an input: every byte's requests, then the
/// end marker taken at the final state.
pub open spec fn spec_primary_encode(input: Seq<u8>) -> Seq<Message> {
    spec_primary_messages(spec_initial_model(), input) + spec_eof_messages(
        spec_model_info(spec_primary_after(spec_initial_model(), input)),
    )
}

/// A request the secondary stage can serve: a bit context inside the
/// table, or a literal block whose 256 cells all lie inside the table.
pub open spec fn spec_valid_message(m: Message) -> bool {
    match m {
        Message::Bit(c, b) => c < SECONDARY_CONTEXT_SIZE,
        Message::Byte(c, v) => c % 256 == 0 && c + 255 < SECONDARY_CONTEXT_SIZE,
    }
}

/// Every request the primary stage emits is one the secondary stage can
/// serve.
pub proof fn lemma_primary_messages_valid(m: PrimaryModel, input: Seq<u8>)
    ensures
        forall|j: int|
            0 <= j < spec_primary_messages(m, input).len() ==> spec_valid_message(
                #[trigger] spec_primary_messages(m, input)[j],
            ),
    decreases input.len(),
{
    if input.len() != 0 {
        lemma_primary_messages_valid(m, input.drop_last());
        let prev = spec_primary_after(m, input.drop_last());
        lemma_bridged_bounds(spec_model_info(prev));
        let head = spec_primary_messages(m, input.drop_last());
        let tail = spec_byte_messages(
            spec_model_info(prev),
            spec_classify(spec_model_cell(prev), input.last()),
            input.last(),
        );
        let full = spec_primary_messages(m, input);
        assert forall|j: int| 0 <= j < full.len() implies spec_valid_message(full[j]) by {
            if j < head.len() {
                assert(full[j] == head[j]);
            } else {
                assert(full[j] == tail[j - head.len()]);
            }
        }
    }
}

/// Every request of the full stream, marker included, is servable.
pub proof fn lemma_primary_encode_valid(input: Seq<u8>)
    ensures
        forall|j: int|
            0 <= j < spec_primary_encode(input).len() ==> spec_valid_message(
                #[trigger] spec_primary_encode(input)[j],
            ),
{
    lemma_primary_messages_valid(spec_initial_model(), input);
    lemma_bridged_bounds(spec_model_info(spec_primary_after(spec_initial_model(), input)));
    let head = spec_primary_messages(spec_initial_model(), input);
    let tail = spec_eof_messages(
        spec_model_info(spec_primary_after(spec_initial_model(), input)),
    );
    let full = spec_primary_encode(input);
    assert forall|j: int| 0 <= j < full.len() implies spec_valid_message(full[j]) by {
        if j < head.len() {
            assert(full[j] == head[j]);
        } else {
            assert(full[j] == tail[j - head.len()]);
        }
    }
}

/// Runs the primary stage over a whole input: classifies each byte,
/// packs its coding requests, and ends with the in-band marker.
pub fn run_primary_context_encoder(input: &Vec<u8>) -> (r: Vec<PackedMessage>)
    ensures
        r@.len() == spec_primary_encode(input@).len(),
        forall|j: int|
            0 <= j < r@.len() ==> spec_unpack(#[trigger] r@[j].0) == spec_primary_encode(input@)[j],
{
    let mut context: BridgedPrimaryContext = BridgedPrimaryContext::new();
    let mut output: Vec<PackedMessage> = Vec::new();
    let ghost m0 = spec_initial_model();
    proof {
        assert(spec_model_of(context) =~= m0);
        assert(spec_model_of(context) == m0);
    }
    let mut i: usize = 0;
    while i < input.len()
        invariant
            i <= input.len(),
            context.wf(),
            spec_model_of(context) == spec_primary_after(m0, input@.subrange(0, i as int)),
            output@.len() == spec_primary_messages(m0, input@.subrange(0, i as int)).len(),
            forall|j: int|
                0 <= j < output@.len() ==> spec_unpack(#[trigger] output@[j].0)
                    == spec_primary_messages(m0, input@.subrange(0, i as int))[j],
        decreases input.len() - i,
    {
        let ghost prefix = input@.subrange(0, i as int);
        let info: BridgedContextInfo = BridgedContextInfo::new(context.get_info());
        let current_byte: u8 = input[i];
        let matched: ByteMatched = context.matching(current_byte);
        proof {
            assert(input@.subrange(0, i + 1).drop_last() =~= prefix);
            assert(input@.subrange(0, i + 1).last() == input@[i as int]);
            assert(spec_model_of(context) =~= spec_primary_after(m0, input@.subrange(0, i + 1)));
        }
        match matched {
            ByteMatched::MatchFirst => {
                output.push(PackedMessage::bit(info.first_context(), Bit::Zero));
            },
            ByteMatched::NoMatch => {
                output.push(PackedMessage::bit(info.first_context(), Bit::One));
                output.push(PackedMessage::bit(info.second_context(), Bit::Zero));
                output.push(PackedMessage::byte(info.literal_context(), current_byte));
            },
            ByteMatched::MatchSecond => {
                output.push(PackedMessage::bit(info.first_context(), Bit::One));
                output.push(PackedMessage::bit(info.second_context(), Bit::One));
                output.push(PackedMessage::bit(info.third_context(), Bit::Zero));
            },
            ByteMatched::MatchThird => {
                output.push(PackedMessage::bit(info.first_context(), Bit::One));
                output.push(PackedMessage::bit(info.second_context(), Bit::One));
                output.push(PackedMessage::bit(info.third_context(), Bit::One));
            },
        }
        i = i + 1;
    }
    proof {
        assert(input@.subrange(0, input@.len() as int) =~= input@);
    }
    let info: BridgedContextInfo = BridgedContextInfo::new(context.get_info());
    output.push(PackedMessage::bit(info.first_context(), Bit::One));
    output.push(PackedMessage::bit(info.second_context(), Bit::Zero));
    output.push(PackedMessage::byte(info.literal_context(), info.first_byte()));
    output
}

/// The secondary stage reduced to its mathematical content: the
/// prediction cells, the coder interval, and the bytes written so far.
pub struct SecondaryModel {
    pub states: Seq<BitState>,
    pub low: u32,
    pub high: u32,
    pub output: Seq<u8>,
}

/// One bit served: look the cell's prediction up, advance the cell, and
/// drive the range coder with the prediction that was looked up.
pub open spec fn spec_sec_bit(m: SecondaryModel, context_index: int, bit: Bit) -> SecondaryModel {
    let info = spec_state_info(m.states[context_index].0);
    let e = spec_encode_bit(m.low, m.high, info.prediction, bit);
    SecondaryModel {
        states: m.states.update(context_index, BitState(info.spec_next(bit))),
        low: e.0,
        high: e.1,
        output: m.output + e.2,
    }
}

/// One literal byte served: four bits of the high nibble along the
/// context tree, then four bits of the low nibble in the sub-block the
/// high nibble selects.
pub open spec fn spec_sec_byte(m: SecondaryModel, context_index: int, byte: u8) -> SecondaryModel {
    let high = (byte as usize >> 4) | 16;
    let m1 = spec_sec_bit(m, context_index + 1, Bit::spec_from_flag((high >> 3 & 1) as u32));
    let m2 = spec_sec_bit(m1, context_index + (high >> 3), Bit::spec_from_flag((high >> 2 & 1) as u32));
    let m3 = spec_sec_bit(m2, context_index + (high >> 2), Bit::spec_from_flag((high >> 1 & 1) as u32));
    let m4 = spec_sec_bit(m3, context_index + (high >> 1), Bit::spec_from_flag((high & 1) as u32));
    let low_context = context_index + 15 * (high - 15);
    let low = (byte as usize & 15) | 16;
    let m5 = spec_sec_bit(m4, low_context + 1, Bit::spec_from_flag((low >> 3 & 1) as u32));
    let m6 = spec_sec_bit(m5, low_context + (low >> 3), Bit::spec_from_flag((low >> 2 & 1) as u32));
    let m7 = spec_sec_bit(m6, low_context + (low >> 2), Bit::spec_from_flag((low >> 1 & 1) as u32));
    spec_sec_bit(m7, low_context + (low >> 1), Bit::spec_from_flag((low & 1) as u32))
}

/// One request served.
pub open spec fn spec_sec_message(m: SecondaryModel, message: Message) -> SecondaryModel {
    match message {
        Message::Bit(c, b) => spec_sec_bit(m, c as int, b),
        Message::Byte(c, v) => spec_sec_byte(m, c as int, v),
    }
}

/// A whole request stream served.
pub open spec fn spec_sec_messages(m: SecondaryModel, messages: Seq<Message>) -> SecondaryModel
    decreases messages.len(),
{
    if messages.len() == 0 {
        m
    } else {
        spec_sec_message(spec_sec_messages(m, messages.drop_last()), messages.last())
    }
}

/// The secondary model every run starts from: neutral cells and the full
/// coder interval.
pub open spec fn spec_initial_secondary() -> SecondaryModel {
    SecondaryModel {
        states: Seq::new(SECONDARY_CONTEXT_SIZE as nat, |i: int| BitState(0)),
        low: 0,
        high: 0xFFFFFFFFu32,
        output: Seq::<u8>::empty(),
    }
}

/// The compressed stream for a request stream: serve every request from
/// the fresh model, then append the coder's final settled byte.
pub open spec fn spec_secondary_encode(messages: Seq<Message>) -> Seq<u8> {
    let m = spec_sec_messages(spec_initial_secondary(), messages);
    m.output.push((m.low >> 24) as u8)
}

/// The compressed stream for an input byte sequence.
pub open spec fn spec_encode(input: Seq<u8>) -> Seq<u8> {
    spec_secondary_encode(spec_primary_encode(input))
}

/// The secondary stage: the prediction table and the range coder it
/// drives.
pub struct SecondaryContextEncoder {
    pub context: BridgedSecondaryContext,
    pub encoder: BitEncoder,
}

impl SecondaryContextEncoder {
    /// The table is full-sized and the coder interval non-empty.
    pub open spec fn wf(self) -> bool {
        &&& self.context.wf()
        &&& self.encoder.wf()
    }

    /// The stage reduced to its model.
    pub open spec fn spec_model(self) -> SecondaryModel {
        SecondaryModel {
            states: self.context.states@,
            low: self.encoder.low,
            high: self.encoder.high,
            output: self.encoder.output@,
        }
    }

    /// Serves one bit request.
    fn bit(&mut self, context_index: usize, bit: Bit)
        requires
            old(self).wf(),
            context_index < SECONDARY_CONTEXT_SIZE,
        ensures
            final(self).wf(),
            final(self).spec_model() == spec_sec_bit(old(self).spec_model(), context_index as int, bit),
    {
        let current_state = self.context.get_info(context_index);
        self.context.update(current_state, context_index, bit);
        self.encoder.bit(current_state.prediction(), bit);
    }

    /// Serves one byte request: high nibble, then low nibble in the
    /// sub-block the high nibble selects.
    fn byte(&mut self, context_index: usize, byte: u8)
        requires
            old(self).wf(),
            context_index % 256 == 0,
            context_index + 255 < SECONDARY_CONTEXT_SIZE,
        ensures
            final(self).wf(),
            final(self).spec_model() == spec_sec_byte(old(self).spec_model(), context_index as int, byte),
    {
        let b: usize = byte as usize;
        let high: usize = (b >> 4) | 16;
        proof {
            assert(b < 256 ==> ((b >> 4) | 16) >= 16 && ((b >> 4) | 16) <= 31 && ((b & 15) | 16)
                >= 16 && ((b & 15) | 16) <= 31) by (bit_vector);
            let h = high;
            assert(16 <= h <= 31 ==> (h >> 3) <= 3 && (h >> 2) <= 7 && (h >> 1) <= 15 && (h >> 3
            & 1) <= 1 && (h >> 2 & 1) <= 1 && (h >> 1 & 1) <= 1 && (h & 1) <= 1) by (bit_vector);
        }
        self.bit(context_index + 1, Bit::from_flag((high >> 3 & 1) as u32));
        self.bit(context_index + (high >> 3), Bit::from_flag((high >> 2 & 1) as u32));
        self.bit(context_index + (high >> 2), Bit::from_flag((high >> 1 & 1) as u32));
        self.bit(context_index + (high >> 1), Bit::from_flag((high & 1) as u32));
        let low_context: usize = context_index + 15 * (high - 15);
        let low: usize = (b & 15) | 16;
        proof {
            let l = low;
            assert(16 <= l <= 31 ==> (l >> 3) <= 3 && (l >> 2) <= 7 && (l >> 1) <= 15 && (l >> 3
            & 1) <= 1 && (l >> 2 & 1) <= 1 && (l >> 1 & 1) <= 1 && (l & 1) <= 1) by (bit_vector);
        }
        self.bit(low_context + 1, Bit::from_flag((low >> 3 & 1) as u32));
        self.bit(low_context + (low >> 3), Bit::from_flag((low >> 2 & 1) as u32));
        self.bit(low_context + (low >> 2), Bit::from_flag((low >> 1 & 1) as u32));
        self.bit(low_context + (low >> 1), Bit::from_flag((low & 1) as u32));
    }

    /// Serves a whole request stream and closes the coder, handing back
    /// the compressed bytes.
    pub fn encode(self, messages: &Vec<PackedMessage>) -> (r: Vec<u8>)
        requires
            self.wf(),
            forall|j: int|
                0 <= j < messages@.len() ==> spec_valid_message(
                    spec_unpack(#[trigger] messages@[j].0),
                ),
        ensures
            ({
                let m = spec_sec_messages(
                    self.spec_model(),
                    Seq::new(messages@.len(), |j: int| spec_unpack(messages@[j].0)),
                );
                r@ == m.output.push((m.low >> 24) as u8)
            }),
    {
        let ghost all = Seq::new(messages@.len(), |j: int| spec_unpack(messages@[j].0));
        let mut this = self;
        let mut i: usize = 0;
        while i < messages.len()
            invariant
                i <= messages@.len(),
                this.wf(),
                forall|j: int|
                    0 <= j < messages@.len() ==> spec_valid_message(
                        spec_unpack(#[trigger] messages@[j].0),
                    ),
                all == Seq::new(messages@.len(), |j: int| spec_unpack(messages@[j].0)),
                this.spec_model() == spec_sec_messages(self.spec_model(), all.subrange(0, i as int)),
            decreases messages@.len() - i,
        {
            proof {
                assert(all.subrange(0, i + 1).drop_last() =~= all.subrange(0, i as int));
                assert(all.subrange(0, i + 1).last() == spec_unpack(messages@[i as int].0));
            }
            match messages[i].get() {
                Message::Bit(context_index, bit) => {
                    this.bit(context_index, bit);
                },
                Message::Byte(context_index, value) => {
                    this.byte(context_index, value);
                },
            }
            i = i + 1;
        }
        proof {
            assert(all.subrange(0, all.len() as int) =~= all);
        }
        this.encoder.close()
    }
}

/// Runs the secondary stage over a whole request stream from a fresh
/// model.
pub fn run_secondary_context_encoder(messages: &Vec<PackedMessage>) -> (r: Vec<u8>)
    requires
        forall|j: int|
            0 <= j < messages@.len() ==> spec_valid_message(spec_unpack(#[trigger] messages@[j].0)),
    ensures
        r@ == spec_secondary_encode(Seq::new(messages@.len(), |j: int| spec_unpack(messages@[j].0))),
{
    let encoder = SecondaryContextEncoder {
        context: BridgedSecondaryContext::new(),
        encoder: BitEncoder::new(),
    };
    proof {
        assert(encoder.spec_model() =~= spec_initial_secondary());
        assert(encoder.spec_model() == spec_initial_secondary());
    }
    encoder.encode(messages)
}

/// Determinism: the compressed stream is a function of the input bytes
/// alone. No buffering choice and no state left over from an earlier run
/// enters the definition, so repeated runs over equal inputs produce
/// identical streams.
pub proof fn lemma_encode_deterministic(a: Seq<u8>, b: Seq<u8>)
    requires
        a == b,
    ensures
        spec_encode(a) == spec_encode(b),
{
}

/// Compresses a byte sequence: the primary stage turns it into coding
/// requests, the secondary stage codes them, and one extra settled byte
/// closes the stream. The result is a function of the input alone, so
/// repeated runs produce identical streams.
pub fn encode(input: &Vec<u8>) -> (r: Vec<u8>)
    ensures
        r@ == spec_encode(input@),
{
    let messages: Vec<PackedMessage> = run_primary_context_encoder(input);
    proof {
        lemma_primary_encode_valid(input@);
        assert(Seq::new(messages@.len(), |j: int| spec_unpack(messages@[j].0)) =~= spec_primary_encode(
            input@,
        ));
    }
    run_secondary_context_encoder(&messages)
}

} // verus!
