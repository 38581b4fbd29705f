use vstd::prelude::*;

verus! {

/// Fatal conditions raised while parsing or framing protocol data.
///
/// Every variant is fatal to the connection that produced it; none is
/// retried. A capacity rejection during login is not an error and has no
/// variant here.
#[derive(Debug, Clone, Copy, PartialEq, Eq, Structural)]
pub enum ProtocolError {
    /// The input ended before the field being read was complete.
    BufferUnderflow,
    /// A variable-width integer ran past its byte-width cap.
    VarIntTooLong,
    /// A declared frame length would exceed the maximum frame size.
    FrameTooLarge,
    /// A declared frame length was negative.
    NegativeLength,
    /// A length-prefixed string was not valid UTF-8.
    BadUtf8,
    /// The compressed body of a frame did not inflate cleanly.
    DecompressFailed,
    /// The inflated body's size differed from the declared decompressed size.
    DecompressedSizeMismatch,
    /// A packet or payload was too large to frame.
    Oversize,
    /// A packet arrived with an id other than the one the stage requires.
    UnexpectedPacket { expected: i32, actual: i32 },
    /// The handshake declared a next state that is neither status nor login.
    InvalidNextState { value: i32 },
}

impl ProtocolError {
    /// A short human-readable label for logging at the connection edge.
    pub fn describe(&self) -> (r: &'static str) {
        match self {
            ProtocolError::BufferUnderflow => "unexpected end of buffer",
            ProtocolError::VarIntTooLong => "variable-width integer is too big",
            ProtocolError::FrameTooLarge => "frame exceeds the maximum packet size",
            ProtocolError::NegativeLength => "negative length field",
            ProtocolError::BadUtf8 => "string field is not valid UTF-8",
            ProtocolError::DecompressFailed => "failed to decompress frame body",
            ProtocolError::DecompressedSizeMismatch => "decompressed size does not match",
            ProtocolError::Oversize => "packet too large to encode",
            ProtocolError::UnexpectedPacket { .. } => "unexpected packet id",
            ProtocolError::InvalidNextState { .. } => "invalid next state in handshake",
        }
    }
}

} // verus!
