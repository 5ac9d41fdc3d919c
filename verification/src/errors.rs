use vstd::prelude::*;

verus! {

/// Everything that can go wrong while decoding or encoding a message.
///
/// Every error is terminal for the operation that produced it: a failed
/// decode yields no message, a failed encode yields no usable bytes.
#[derive(Clone, Copy, Debug, PartialEq, Eq)]
pub enum Error {
    /// The byte source ended before the record being read was complete.
    Truncated,
    /// Invalid protocol revision number.
    InvalidProtocolRevisionNumber(u8),
    /// Invalid information element identifier.
    InvalidInformationElementIdentifier(u8),
    /// The timestamp is negative; only timestamps at or after the Unix
    /// epoch can be encoded.
    NegativeTimestamp(i64),
    /// The overall message length is too long for its 16-bit length field.
    OverallMessageLength(usize),
    /// The payload is too long for its 16-bit length field.
    PayloadTooLong(usize),
    /// No header in a message.
    NoHeader,
    /// No payload in a message.
    NoPayload,
    /// Two headers in a message.
    TwoHeaders,
    /// Two payloads in a message.
    TwoPayloads,
    /// Two locations in a message.
    TwoLocations,
    /// The session status code is outside the known set.
    UnknownSessionStatus(u8),
}

} // verus!
