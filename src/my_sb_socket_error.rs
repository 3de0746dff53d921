//! Why decoding a packet failed.
use vstd::prelude::*;

verus! {

/// A decode failure. Every one of them is fatal to the connection: the
/// framing of the byte stream cannot be recovered afterwards.
#[derive(Debug, Clone, Copy, PartialEq, Eq, Structural)]
pub enum MySbSocketError {
    /// The byte source ended before the value being read was complete.
    SocketDisconnected,
    /// A length or count field held a negative number.
    ErrorReadingSize,
    /// The leading tag byte names no packet kind.
    InvalidPacketId(u8),
    /// The bytes of a string field are not valid UTF-8.
    ParsingUtf8StringError,
    /// The queue-type byte of a subscription names no queue type.
    InvalidQueueType(u8),
}

} // verus!
