//! Error taxonomy for the wire codec and connection pipeline.

use vstd::prelude::*;

verus! {

/// Input/output style failures observed while decoding from a buffer.
#[derive(Debug, Clone, Copy, PartialEq, Eq, Structural)]
pub enum IoKind {
    /// A read ran past the end of the framed payload.
    UnexpectedEof,
    /// The peer closed the connection (a zero-byte read).
    EofFromPeer,
    /// No bytes arrived within the inter-read timeout.
    ReadTimeout,
}

/// A value that does not decode as its wire type.
#[derive(Debug, Clone, Copy, PartialEq, Eq, Structural)]
pub enum MalformedKind {
    /// String bytes were not valid UTF-8.
    BadUtf8,
    /// An `Option` tag byte other than 0 or 1.
    BadOptionTag,
    /// An identifier that does not match `namespace:path`.
    InvalidIdentifier,
}

/// An inconsistent frame envelope.
#[derive(Debug, Clone, Copy, PartialEq, Eq, Structural)]
pub enum FramingKind {
    /// A VarInt ran past its maximum width.
    VarIntTooLong,
    /// A compressed body whose inflated size differs from its declared size.
    DecompressionSizeMismatch,
    /// Bytes left over inside a frame after the packet decoded.
    TrailingGarbage,
    /// A compressed body that is not a zlib stream.
    BadZlibData,
    /// A frame length prefix that is negative.
    NegativeLength,
}

/// A well-formed frame whose content breaks the protocol.
#[derive(Debug, Clone, Copy, PartialEq, Eq, Structural)]
pub enum ProtocolKind {
    /// A packet id that no packet of the stage carries.
    UnknownPacketId,
    /// A VarInt-coded enum tag outside the declared set.
    InvalidEnumTag,
    /// An operation that the current protocol state does not allow.
    InvalidTransition,
}

/// Every failure the codec and pipeline can signal.
#[derive(Debug, Clone, Copy, PartialEq, Eq, Structural)]
pub enum WireError {
    /// Socket or buffer exhaustion.
    Io(IoKind),
    /// A string, array or component above its cap.
    OverLimit,
    /// A value that does not decode as its type.
    Malformed(MalformedKind),
    /// An inconsistent envelope.
    Framing(FramingKind),
    /// A frame whose content breaks the protocol.
    Protocol(ProtocolKind),
    /// The player cap was reached.
    Admission,
    /// A shared secret of the wrong size.
    Cipher,
}

} // verus!
