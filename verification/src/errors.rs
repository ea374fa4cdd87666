//! The decoder's error surface: one typed error per failure kind, each with
//! a fixed printable description that the main loop sends back to the host
//! in an error packet.

use vstd::prelude::*;

verus! {

/// Errors of the wire protocol layer.
#[derive(Debug, Clone, Copy, PartialEq, Eq, Structural)]
pub enum MessageError {
    /// Unknown error
    Unknown,
    /// A message began with an opcode byte that names no opcode.
    UnexpectedOpcode(u8),
    /// A message began with a byte other than the protocol magic.
    IncorrectMagic(u8),
    /// An acknowledgement arrived with a non-empty body.
    AckError,
    /// A message body would not fit the maximum body size.
    BodyLengthError,
}

/// Errors of the subscription store.
#[derive(Debug, Clone, Copy, PartialEq, Eq, Structural)]
pub enum DecoderContextError {
    /// All subscription slots are occupied by other channels.
    TooManySubscriptions,
}

/// Errors of the cursor used to assemble and parse message bodies.
#[derive(Debug, Clone, Copy, PartialEq, Eq, Structural)]
pub enum CursorError {
    /// Fewer bytes remain than the read or write asked for; carries how many
    /// remain.
    OversizeError(usize),
}

/// Every error a request handler can produce.
#[derive(Debug, Clone, Copy, PartialEq, Eq, Structural)]
pub enum DecoderError {
    /// No key subtree of the subscription covers the frame's timestamp.
    NoTimestampFound,
    /// The frame's timestamp lies outside the subscription interval.
    InvalidTimestamp,
    /// The frame's timestamp does not exceed the last decoded one.
    NonMonotonicTimestamp,
    /// The payload is too short, its signature fails, or its tag fails.
    InvalidEncoderPayload,
    /// No usable subscription: wrong decoder id, unknown channel, or a
    /// malformed subscription body.
    InvalidSubscription,
    /// A wire protocol failure.
    MessagingError(MessageError),
    /// A cursor failure while assembling a message body.
    CursorError(CursorError),
    /// A subscription store failure.
    DecoderContextError(DecoderContextError),
}

impl DecoderError {
    /// The printable description of this error.
    pub open spec fn spec_message(self) -> Seq<char> {
        match self {
            DecoderError::NoTimestampFound => "Error: timestamp not found in subtrees"@,
            DecoderError::InvalidTimestamp => "Error: timestamp is out of bounds"@,
            DecoderError::NonMonotonicTimestamp => "Error: non-monotonic timestamp"@,
            DecoderError::InvalidEncoderPayload => "Error: invalid payload received"@,
            DecoderError::InvalidSubscription => "Error: subscription is not valid for decoding the given frame"@,
            DecoderError::MessagingError(e) => match e {
                MessageError::Unknown => "Messaging error: Unknown error"@,
                MessageError::UnexpectedOpcode(_) => "Messaging error: Unexpected opcode"@,
                MessageError::IncorrectMagic(_) => "Messaging error: Incorrect magic"@,
                MessageError::AckError => "Messaging error: Nonzero body length on ACK packet"@,
                MessageError::BodyLengthError => "Messaging error: Body too long"@,
            },
            DecoderError::CursorError(CursorError::OversizeError(_)) => "Cursor error: Too many bytes remaining"@,
            DecoderError::DecoderContextError(DecoderContextError::TooManySubscriptions) =>
                "Decoder context error: Too many subscriptions!"@,
        }
    }

    /// The printable description of this error.
    pub fn message(&self) -> (r: &'static str)
        ensures
            r@ == self.spec_message(),
    {
        match self {
            DecoderError::NoTimestampFound => "Error: timestamp not found in subtrees",
            DecoderError::InvalidTimestamp => "Error: timestamp is out of bounds",
            DecoderError::NonMonotonicTimestamp => "Error: non-monotonic timestamp",
            DecoderError::InvalidEncoderPayload => "Error: invalid payload received",
            DecoderError::InvalidSubscription => "Error: subscription is not valid for decoding the given frame",
            DecoderError::MessagingError(e) => match e {
                MessageError::Unknown => "Messaging error: Unknown error",
                MessageError::UnexpectedOpcode(_) => "Messaging error: Unexpected opcode",
                MessageError::IncorrectMagic(_) => "Messaging error: Incorrect magic",
                MessageError::AckError => "Messaging error: Nonzero body length on ACK packet",
                MessageError::BodyLengthError => "Messaging error: Body too long",
            },
            DecoderError::CursorError(CursorError::OversizeError(_)) => "Cursor error: Too many bytes remaining",
            DecoderError::DecoderContextError(DecoderContextError::TooManySubscriptions) =>
                "Decoder context error: Too many subscriptions!",
        }
    }
}

} // verus!
