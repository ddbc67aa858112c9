//! Failures of the message encoding.

use vstd::prelude::*;

verus! {

/// Why bytes are not what they should encode.
#[derive(Clone, Copy, Debug, Eq, PartialEq, Structural)]
pub enum CodecError {
    /// The message table ends inside an entry.
    TruncatedTable,
    /// A message number does not fit its type.
    MessageIdOutOfRange,
    /// A length does not fit an address.
    LengthOutOfRange,
    /// A message name is not valid UTF-8.
    InvalidText,
    /// A payload was not written to its end.
    UninitializedPayload,
    /// A payload holds bytes behind its message.
    TrailingBytes,
    /// The encoding of a message failed.
    Message,
}

} // verus!
