//! What can go wrong when values are written or read.

use vstd::prelude::*;

verus! {

/// Why bytes could not be read as a value.
#[derive(Clone, Copy, Debug, PartialEq, Eq, Structural)]
pub enum DecodeError {
    /// The input ended before the value did.
    UnexpectedEof,
    /// The code units of a string are not well-formed UTF-16.
    InvalidUtf16,
}

/// Why a value could not be written.
#[derive(Clone, Copy, Debug, PartialEq, Eq, Structural)]
pub enum EncodeError {
    /// A string or list has more elements than its 32-bit count can say.
    CountOverflow,
    /// A frame would be longer than its 16-bit length field can say.
    FrameOverflow,
}

/// Why bytes could not be read as a frame.
#[derive(Clone, Copy, Debug, PartialEq, Eq, Structural)]
pub enum FrameError {
    /// Fewer than the eight bytes of a header are there.
    ShortHeader,
    /// The header declares a length that is smaller than the header itself.
    BadLength(u16),
    /// The input ends before the declared length is reached.
    ShortPayload,
    /// The payload of a known opcode could not be read: the opcode and the
    /// reason.
    PayloadDecode(u16, DecodeError),
}

} // verus!
