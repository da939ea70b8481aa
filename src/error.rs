//! Errors raised by the protocol core.
use vstd::prelude::*;

verus! {

/// Why a session step failed.
#[derive(Debug, PartialEq, Eq)]
pub enum ProtocolError {
    /// The stream ended, or was reset, in the middle of a read or a write.
    TransportClosed,
    /// A frame header announced more payload than a frame can carry.
    InvalidFrame { length: u16 },
    /// A frame header carried a message type that the protocol does not know.
    InvalidMessageType { message_type: u16 },
    /// A later frame of one message carried another type than the first frame.
    FrameTypeMismatch { expected: u16, found: u16 },
    /// A payload did not decode as the message its type announced.
    DecodeError,
    /// A message of another kind than the session expects at this point.
    UnexpectedMessage { expected: u16, found: u16 },
    /// The acceptor declined the offered package.
    PeerNotInterested { md5sum: String },
    /// A piece index outside the window `[start, end)` of the current file.
    PieceOutOfBounds { piece: u64, start: u64, end: u64 },
    /// A piece sent out of the strictly increasing order of its window.
    PieceOutOfOrder { expected_piece: u64, piece: u64 },
    /// Reading or writing a local file failed.
    IoError,
}

} // verus!
