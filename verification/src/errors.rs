//! Errors of the byte-level protocol reader and writer.

use vstd::prelude::*;

verus! {

/// An error raised while reading or writing the binary encoding of a message.
#[derive(Debug, PartialEq, Eq, Clone)]
pub enum Error {
    /// A string field did not hold valid UTF-8.
    Utf8,
    /// An unknown wire type was found in a tag.
    UnknownWireType(u8),
    /// A frame named a message type id this build does not know.
    UnknownMessageType(u32),
    /// A variable-length integer ran past its widest allowed form; the
    /// payload names the integer type that was being read.
    Varint(&'static str),
    /// An error with free text, raised while parsing a message.
    Message(String),
    /// Out of data when reading from a byte buffer.
    UnexpectedEndOfBuffer,
    /// The output buffer cannot take the bytes about to be written:
    /// cursor, bytes to add, capacity.
    OutputBufferTooSmall(usize, usize, usize),
}

pub type Result<T> = core::result::Result<T, Error>;

} // verus!
