use vstd::prelude::*;

verus! {

/// What went wrong while building or reading a chunk or a chunk type.
#[derive(Debug, Clone, Copy, PartialEq, Eq, Structural)]
pub enum Error {
    /// A byte meant for a type tag is not an ASCII letter.
    InvalidTypeBytes,
    /// A character of a textual type tag is not an ASCII letter.
    InvalidCharacter,
    /// A textual type tag is not four characters long, or a chunk's declared
    /// length disagrees with the bytes that carry it.
    InvalidLength,
    /// A buffer is shorter than the twelve bytes of an empty chunk.
    Truncated,
    /// The stored checksum differs from the one computed over type and payload.
    ChecksumMismatch,
    /// The payload is not valid UTF-8.
    NotUtf8,
}

} // verus!
