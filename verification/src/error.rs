//! The failure taxonomy, leaf first.

use vstd::prelude::*;

verus! {

/// A failure of the byte channel itself.
#[derive(Clone, Copy, Debug, PartialEq, Eq, Structural)]
pub enum IoError {
    /// The channel could not be opened.
    Open,
    /// A read failed.
    Read,
    /// A write was not accepted in full.
    Write,
    /// Nothing arrived within the read timeout.
    Timeout,
}

/// Why a byte slice is not a frame.
#[derive(Clone, Copy, Debug, PartialEq, Eq, Structural)]
pub enum DecodeError {
    /// The slice ends before the frame does.
    UnexpectedEnd,
    /// A variable-length integer runs past five bytes or past 32 bits.
    BadVarint,
    /// The presence marker of an optional value is neither 0 nor 1.
    BadOption,
    /// The discriminant names no variant.
    BadDiscriminant,
}

/// Why a value was not encoded.
#[derive(Clone, Copy, Debug, PartialEq, Eq, Structural)]
pub enum EncodeError {
    /// The frame would occupy more bytes than the buffer offers.
    FrameTooLarge,
}

/// A failed request/reply exchange.
#[derive(Clone, Copy, Debug, PartialEq, Eq, Structural)]
pub enum SessionError {
    /// The channel failed while writing the request or reading the reply.
    Io(IoError),
    /// The bytes that came back are not a reply frame.
    Decode(DecodeError),
}

/// A failure to persist the record collection.
#[derive(Clone, Copy, Debug, PartialEq, Eq, Structural)]
pub enum StoreError {
    /// The document could not be written.
    Io,
}

/// A reply that is well formed but breaks the protocol.
#[derive(Clone, Copy, Debug, PartialEq, Eq, Structural)]
pub enum ProtocolError {
    /// The device answered the opening command with something other than
    /// `SendingStarted`.
    UnexpectedReply,
}

/// Why a retrieval cycle ended without a result.
#[derive(Clone, Copy, Debug, PartialEq, Eq, Structural)]
pub enum OrchestratorError {
    /// No session is established.
    NotConnected,
    /// The handshake failed.
    Protocol(ProtocolError),
    /// An exchange failed.
    Session(SessionError),
    /// The merged collection could not be persisted.
    Store(StoreError),
}

} // verus!
