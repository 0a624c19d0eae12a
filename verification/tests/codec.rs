// End-to-end behaviour of the compressor: round trips, determinism, the
// in-band end marker, and bounded decoding of corrupted streams.

use srx::decoder::decode;
use srx::encoder::encode;
use srx::matched::ByteMatched;
use srx::primary_context::PrimaryContext;

fn round_trip(data: &[u8]) -> Vec<u8> {
    let input: Vec<u8> = data.to_vec();
    let compressed: Vec<u8> = encode(&input);
    let restored: Vec<u8> = decode(compressed.clone());
    assert_eq!(restored, input);
    compressed
}

// A small deterministic pseudo-random byte source for test data.
fn xorshift_bytes(mut state: u64, count: usize) -> Vec<u8> {
    let mut out: Vec<u8> = Vec::with_capacity(count);
    while out.len() < count {
        state ^= state << 13;
        state ^= state >> 7;
        state ^= state << 17;
        for shift in [0u32, 8, 16, 24, 32, 40, 48, 56] {
            if out.len() < count {
                out.push((state >> shift) as u8);
            }
        }
    }
    out
}

#[test]
fn empty_input_round_trips() {
    let compressed = round_trip(b"");
    assert!(compressed.len() >= 1);
}

#[test]
fn single_byte_round_trips() {
    let compressed = round_trip(&[0x41]);
    assert!(compressed.len() >= 1);
}

#[test]
fn zero_run_past_buffer_size_compresses() {
    let data = vec![0u8; 65537];
    let compressed = round_trip(&data);
    assert!(compressed.len() < 65537);
}

#[test]
fn repeating_pattern_round_trips_with_matches() {
    let data = b"ABCABCABCABC";
    round_trip(data);
    let mut context: PrimaryContext<0x1000000> = PrimaryContext::new();
    let mut outcomes: Vec<ByteMatched> = Vec::new();
    for &byte in data.iter() {
        outcomes.push(context.matching(byte));
    }
    // The first visits of each hashed context are misses; once the
    // rolling hash repeats, every later byte matches the first rank.
    for i in 0..8 {
        assert_eq!(outcomes[i], ByteMatched::NoMatch);
    }
    for i in 8..12 {
        assert_eq!(outcomes[i], ByteMatched::MatchFirst);
        assert!(outcomes[i] != ByteMatched::NoMatch);
    }
}

#[test]
fn random_megabyte_round_trips_without_expansion() {
    let data = xorshift_bytes(0x9E3779B97F4A7C15, 1 << 20);
    let compressed = round_trip(&data);
    assert!(compressed.len() <= data.len() + data.len() / 32);
}

#[test]
fn text_round_trips_and_compresses() {
    let mut data: Vec<u8> = Vec::new();
    while data.len() < 40000 {
        data.extend_from_slice(b"the quick brown fox jumps over the lazy dog. ");
    }
    let compressed = round_trip(&data);
    assert!(compressed.len() < data.len());
}

#[test]
fn encoding_is_deterministic() {
    let data = xorshift_bytes(42, 10000);
    let first = encode(&data);
    let second = encode(&data);
    assert_eq!(first, second);
}

#[test]
fn successive_encodes_are_independent() {
    let a = xorshift_bytes(7, 5000);
    let b = xorshift_bytes(7, 5000);
    let alone = encode(&a);
    let _other = encode(&xorshift_bytes(8, 5000));
    let again = encode(&b);
    assert_eq!(alone, again);
}

#[test]
fn corrupted_stream_decodes_boundedly_and_differs() {
    let data: Vec<u8> = (0..10000u32).map(|i| ((i * 7 + i / 5) % 256) as u8).collect();
    let mut compressed = encode(&data);
    let middle = compressed.len() / 2;
    compressed[middle] ^= 0x40;
    let garbled = decode(compressed);
    assert_ne!(garbled, data);
}

#[test]
fn truncated_stream_decodes_boundedly() {
    let data: Vec<u8> = (0..5000u32).map(|i| (i % 251) as u8).collect();
    let mut compressed = encode(&data);
    compressed.truncate(compressed.len() / 2);
    let garbled = decode(compressed);
    assert_ne!(garbled, data);
}

#[test]
fn buffer_boundary_sizes_round_trip() {
    for size in [1usize, 2, 255, 256, 257, 4095, 4096, 4097] {
        let data = xorshift_bytes(size as u64 + 1, size);
        round_trip(&data);
    }
}

#[test]
fn all_byte_values_round_trip() {
    let data: Vec<u8> = (0..=255u8).collect();
    round_trip(&data);
}
