//! The coding requests the primary stage hands to the secondary stage,
//! and their packed 32-bit form.

use vstd::prelude::*;
use crate::bit::Bit;

verus! {

/// One coding request: a bit at a match-flag context, or a whole literal
/// byte at a literal block.
#[derive(Copy, Clone, PartialEq, Eq, Structural, Debug)]
pub enum Message {
    Bit(usize, Bit),
    Byte(usize, u8),
}

/// A message packed into 32 bits. A clear top bit marks a bit request,
/// the bit value at bit 30 and the context below; a set top bit marks a
/// byte request, the context (a multiple of 256) in the middle and the
/// byte value in the low eight bits.
#[derive(Copy, Clone, PartialEq, Eq, Structural, Debug)]
pub struct PackedMessage(pub u32);

/// The message a packed word stands for.
pub open spec fn spec_unpack(value: u32) -> Message {
    if value < 0x80000000 {
        Message::Bit((value & 0x3FFFFFFF) as usize, Bit::spec_from_flag(value >> 30))
    } else {
        Message::Byte((value & 0x7FFFFF00) as usize, (value & 0xFF) as u8)
    }
}

impl Default for PackedMessage {
    /// The all-zero word.
    fn default() -> (r: Self)
        ensures
            r == (PackedMessage(0)),
    {
        PackedMessage(0)
    }
}

impl PackedMessage {
    /// Packs a bit request.
    pub fn bit(context: usize, bit: Bit) -> (r: Self)
        requires
            context < 0x40000000,
        ensures
            spec_unpack(r.0) == Message::Bit(context, bit),
    {
        let flag: u32 = bit.flag();
        let word: u32 = (flag << 30) | (context as u32);
        proof {
            let c = context as u32;
            assert(c < 0x40000000 && (flag == 0 || flag == 1) ==> ((flag << 30) | c) < 0x80000000
                && (((flag << 30) | c) & 0x3FFFFFFF) == c && (((flag << 30) | c) >> 30) == flag)
                by (bit_vector);
        }
        PackedMessage(word)
    }

    /// Packs a byte request; the context's low byte is free because every
    /// literal block starts at a multiple of 256.
    pub fn byte(context: usize, byte: u8) -> (r: Self)
        requires
            context % 256 == 0,
            context <= 0x7FFFFF00,
        ensures
            spec_unpack(r.0) == Message::Byte(context, byte),
    {
        let word: u32 = 0x80000000 | (context as u32) | (byte as u32);
        proof {
            let c = context as u32;
            let b = byte as u32;
            assert(context % 256 == (context as int) % 256 && (context as int) % 256 == 0 ==> c
                % 256 == 0 || context > 0xFFFFFFFF) by (nonlinear_arith)
                requires
                    c == context as u32,
                    context <= 0x7FFFFF00,
            ;
            assert(c <= 0x7FFFFF00 && c % 256 == 0 && b < 0x100 ==> (0x80000000 | c | b)
                >= 0x80000000 && ((0x80000000 | c | b) & 0x7FFFFF00) == c && ((0x80000000 | c | b)
                & 0xFF) == b) by (bit_vector);
        }
        PackedMessage(word)
    }

    /// Unpacks the word back into a message.
    pub fn get(&self) -> (r: Message)
        ensures
            r == spec_unpack(self.0),
    {
        let value: u32 = self.0;
        proof {
            assert((value & 0x3FFFFFFF) <= 0x3FFFFFFF && (value & 0x7FFFFF00) <= 0x7FFFFF00 && (
            value & 0xFF) <= 0xFF && (value >> 30) <= 3) by (bit_vector);
        }
        if value < 0x80000000 {
            Message::Bit((value & 0x3FFFFFFF) as usize, Bit::from_flag(value >> 30))
        } else {
            Message::Byte((value & 0x7FFFFF00) as usize, (value & 0xFF) as u8)
        }
    }
}

} // verus!
