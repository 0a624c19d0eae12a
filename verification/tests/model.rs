// Unit behaviour of the model components: ranking, history states,
// prediction states, context bridging, message packing, and the coder.

use srx::bit::Bit;
use srx::bit_encoder::BitEncoder;
use srx::bridged::BridgedContextInfo;
use srx::buffer::Buffer;
use srx::history::ByteHistory;
use srx::history::HistoryState;
use srx::history::history_state;
use srx::matched::ByteMatched;
use srx::message::Message;
use srx::message::PackedMessage;
use srx::primary_context::PrimaryContext;
use srx::primary_context::PrimaryContextInfo;
use srx::secondary_context::SecondaryContext;
use srx::secondary_state::BitState;
use srx::secondary_state::StateInfo;

#[test]
fn byte_history_ranks_and_rotates() {
    let mut h = ByteHistory::default();
    assert_eq!(h.first_byte(), 0);
    assert_eq!(h.match_count(), 0);
    assert_eq!(h.matching(10), ByteMatched::NoMatch);
    assert_eq!(h.matching(20), ByteMatched::NoMatch);
    assert_eq!(h.matching(30), ByteMatched::NoMatch);
    // ranks are now (30, 20, 10), most recent first
    assert_eq!(h.first_byte(), 30);
    assert_eq!(h.second_byte(), 20);
    assert_eq!(h.third_byte(), 10);
    assert_eq!(h.matching(20), ByteMatched::MatchSecond);
    // a second-rank match swaps the top two ranks
    assert_eq!(h.first_byte(), 20);
    assert_eq!(h.second_byte(), 30);
    assert_eq!(h.third_byte(), 10);
    assert_eq!(h.matching(10), ByteMatched::MatchThird);
    // a third-rank match pushes the byte in front of the old top two
    assert_eq!(h.first_byte(), 10);
    assert_eq!(h.second_byte(), 20);
    assert_eq!(h.third_byte(), 30);
    assert_eq!(h.matching(10), ByteMatched::MatchFirst);
    assert_eq!(h.first_byte(), 10);
}

#[test]
fn match_count_follows_first_match_run() {
    let mut h = ByteHistory::default();
    h.matching(5);
    assert_eq!(h.match_count(), 0);
    h.matching(5);
    assert_eq!(h.match_count(), 1);
    h.matching(5);
    assert_eq!(h.match_count(), 2);
    h.matching(9);
    assert_eq!(h.match_count(), 0);
}

#[test]
fn matched_replays_matching() {
    let data = b"abracadabra alakazam abracadabra";
    let mut encoder_side: PrimaryContext<0x10000> = PrimaryContext::new();
    let mut decoder_side: PrimaryContext<0x10000> = PrimaryContext::new();
    for &byte in data.iter() {
        let outcome = encoder_side.matching(byte);
        decoder_side.matched(byte, outcome);
        let a: PrimaryContextInfo = encoder_side.get_info();
        let b: PrimaryContextInfo = decoder_side.get_info();
        assert_eq!(a, b);
    }
}

#[test]
fn history_state_schedule_saturates() {
    let s: HistoryState = history_state(3);
    assert_eq!(s.match_count(), 3);
    assert_eq!(s.next(ByteMatched::MatchFirst), 4);
    assert_eq!(s.next(ByteMatched::MatchSecond), 0);
    assert_eq!(s.next(ByteMatched::MatchThird), 0);
    assert_eq!(s.next(ByteMatched::NoMatch), 0);
    let top: HistoryState = history_state(255);
    assert_eq!(top.next(ByteMatched::MatchFirst), 255);
    let built: HistoryState = HistoryState::new(7, 8, 0, 0, 0);
    assert_eq!(built.match_count(), 7);
    assert_eq!(built.next(ByteMatched::MatchFirst), 8);
}

#[test]
fn neutral_bit_state_predicts_one_half() {
    let cell = BitState::default();
    let info: StateInfo = cell.get_info();
    assert_eq!(info.prediction(), 0x80008000);
}

#[test]
fn bit_state_moves_toward_observed_bits() {
    let mut cell = BitState::default();
    let info = cell.get_info();
    cell.update(info, Bit::One);
    let after_one = cell.get_info();
    assert!(after_one.prediction() > info.prediction());
    let mut cell_zero = BitState::default();
    let info_zero = cell_zero.get_info();
    cell_zero.update(info_zero, Bit::Zero);
    assert!(cell_zero.get_info().prediction() < info.prediction());
    // a run of ones keeps raising the prediction
    let mut rising = BitState::default();
    let mut last = rising.get_info().prediction();
    for _ in 0..20 {
        let i = rising.get_info();
        rising.update(i, Bit::One);
        let now = rising.get_info().prediction();
        assert!(now > last);
        last = now;
    }
}

#[test]
fn state_info_next_picks_the_branch() {
    let info = StateInfo::new(12345, 7, 9);
    assert_eq!(info.prediction(), 12345);
    assert_eq!(info.next(Bit::Zero), 7);
    assert_eq!(info.next(Bit::One), 9);
}

#[test]
fn secondary_context_updates_one_cell() {
    let mut table: SecondaryContext<1024> = SecondaryContext::new();
    let before = table.get_info(5);
    assert_eq!(before.prediction(), 0x80008000);
    table.update(before, 5, Bit::One);
    assert!(table.get_info(5).prediction() > 0x80008000);
    assert_eq!(table.get_info(6).prediction(), 0x80008000);
}

#[test]
fn bridged_contexts_follow_the_layout() {
    let info = PrimaryContextInfo {
        previous_byte: 2,
        first_byte: 7,
        second_byte: 9,
        third_byte: 4,
        hash_value: 0x12345,
        match_count: 1,
    };
    let bridged = BridgedContextInfo::new(info);
    let base = 0x4000 * 256 + ((2usize << 2) | 1) * 768;
    assert_eq!(bridged.first_context(), base + 7);
    assert_eq!(bridged.second_context(), base + 0x100 + 13);
    assert_eq!(bridged.third_context(), base + 0x200 + 14);
    assert_eq!(bridged.literal_context(), (0x12345 & 0x3FFF) * 256);
    assert_eq!(bridged.first_byte(), 7);
    assert_eq!(bridged.second_byte(), 9);
    assert_eq!(bridged.third_byte(), 4);
}

#[test]
fn bridged_context_clamps_long_match_runs() {
    let short = PrimaryContextInfo {
        previous_byte: 0,
        first_byte: 0,
        second_byte: 0,
        third_byte: 0,
        hash_value: 0,
        match_count: 10,
    };
    let long = PrimaryContextInfo { match_count: 500, ..short };
    let clamped = PrimaryContextInfo { match_count: 68, ..short };
    assert_eq!(
        BridgedContextInfo::new(long).first_context(),
        BridgedContextInfo::new(clamped).first_context(),
    );
    assert_eq!(
        BridgedContextInfo::new(short).first_context(),
        0x4000 * 256 + (1024 + 3) * 768,
    );
}

#[test]
fn packed_message_round_trips() {
    let packed = PackedMessage::bit(0x123456, Bit::One);
    match packed.get() {
        Message::Bit(context, bit) => {
            assert_eq!(context, 0x123456);
            assert_eq!(bit, Bit::One);
        },
        Message::Byte(_, _) => panic!("expected a bit request"),
    }
    let packed_zero = PackedMessage::bit(0, Bit::Zero);
    match packed_zero.get() {
        Message::Bit(context, bit) => {
            assert_eq!(context, 0);
            assert_eq!(bit, Bit::Zero);
        },
        Message::Byte(_, _) => panic!("expected a bit request"),
    }
    let packed_byte = PackedMessage::byte(0x3FFF00, 0xAB);
    match packed_byte.get() {
        Message::Byte(context, value) => {
            assert_eq!(context, 0x3FFF00);
            assert_eq!(value, 0xAB);
        },
        Message::Bit(_, _) => panic!("expected a byte request"),
    }
}

#[test]
fn bit_flag_values() {
    assert_eq!(Bit::Zero.flag(), 0);
    assert_eq!(Bit::One.flag(), 1);
    assert_eq!(Bit::from_flag(0), Bit::Zero);
    assert_eq!(Bit::from_flag(1), Bit::One);
}

#[test]
fn bit_encoder_emits_settled_bytes() {
    let mut encoder = BitEncoder::new();
    // a run of strongly predicted bits collapses the interval and
    // forces settled bytes out
    for _ in 0..64 {
        encoder.bit(0x80000000, Bit::One);
    }
    let out = encoder.close();
    assert!(out.len() >= 8);
    // coding the same bits again gives the same bytes
    let mut again = BitEncoder::new();
    for _ in 0..64 {
        again.bit(0x80000000, Bit::One);
    }
    assert_eq!(again.close(), out);
}

#[test]
fn bit_encoder_close_always_emits() {
    let encoder = BitEncoder::new();
    let out = encoder.close();
    assert_eq!(out.len(), 1);
}

#[test]
fn buffer_holds_and_updates() {
    let mut buffer: Buffer<u8, 16> = Buffer::new(3);
    assert_eq!(buffer.get(0), 3);
    assert_eq!(buffer.get(15), 3);
    buffer.set(4, 9);
    assert_eq!(buffer.get(4), 9);
    assert_eq!(buffer.get(5), 3);
}
