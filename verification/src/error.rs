//! Error types shared by the message codec and the broker link.

use vstd::prelude::*;

verus! {

/// Failure to move a message between its typed form and its wire form.
#[derive(Clone, Copy, Debug, PartialEq, Eq, Structural)]
pub enum ConversionError {
    /// The message variant cannot be sent (receive-only variant).
    NonConvertable,
    /// The payload bytes do not form a value of the expected shape.
    MalformedPayload,
}

/// Failure of the pub/sub link.
#[derive(Clone, Copy, Debug, PartialEq, Eq, Structural)]
pub enum MqttClientError {
    /// The transport or the broker failed.
    ConnectionErr,
    /// The broker closed the stream deliberately.
    ExplicitDisconnect,
    /// A message could not be encoded or decoded.
    SerializationErr(ConversionError),
}

} // verus!
