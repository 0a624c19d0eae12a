//! A lossless byte-stream compressor and decompressor built on symbol
//! ranking: a hashed primary context ranks the bytes most recently seen
//! after each context, an adaptive secondary context predicts each coded
//! bit, and a binary range coder turns the predicted bits into bytes.

pub mod bit;
pub mod bit_decoder;
pub mod bit_encoder;
pub mod bridged;
pub mod buffer;
pub mod decoder;
pub mod encoder;
pub mod history;
pub mod matched;
pub mod message;
pub mod primary_context;
pub mod secondary_context;
pub mod secondary_state;
