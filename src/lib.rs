//! Codec for PNG-style chunks: a length-prefixed, typed and CRC-checked block of bytes.

pub mod chunk;
pub mod chunk_type;
pub mod endian;
pub mod error;
