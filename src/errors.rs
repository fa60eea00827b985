//! Local and remote error taxonomies.
use vstd::prelude::*;

use crate::types::ThreadId;

verus! {

/// Errors that can occur during the actor lifecycle.
#[derive(Debug, Clone, PartialEq, Eq)]
pub enum Error {
    /// The transport refused an operation; carries its description.
    TransportError(String),
    CouldNotRespond(String),
    Shutdown,
    InvalidEndpoint,
    /// An outbound request failed on the transport; carries its description.
    OutboundFailure(String),
    /// No handler was set on the receiver and thus we cannot process this request.
    UnknownRequest(String),
    HandlerInvocationError(String),
    HookInvocationError(String),
    SerializationFailure { location: String, message: String },
    DeserializationFailure { location: String, message: String },
    ThreadNotFound(ThreadId),
    /// A hook ended the protocol running on the awaited thread.
    Terminated,
}

/// Errors that can occur on the remote actor while sending requests.
#[derive(Debug, Clone, PartialEq, Eq)]
pub enum RemoteSendError {
    /// No handler was set on the receiver and thus this request is not processable.
    UnknownRequest(String),
    HandlerInvocationError(String),
    HookInvocationError(String),
    SerializationFailure { location: String, message: String },
    DeserializationFailure { location: String, message: String },
}

/// Categories that errors can be classified in, to learn about where the
/// error originated from.
pub enum Category {
    /// An error that the client is responsible for.
    Client,
    /// An error that the peer is responsible for.
    Remote,
}

/// The local error that stands for a remote one: same variant, same text.
pub open spec fn local_of(err: RemoteSendError) -> Error {
    match err {
        RemoteSendError::UnknownRequest(s) => Error::UnknownRequest(s),
        RemoteSendError::HandlerInvocationError(s) => Error::HandlerInvocationError(s),
        RemoteSendError::HookInvocationError(s) => Error::HookInvocationError(s),
        RemoteSendError::SerializationFailure { location, message } => Error::SerializationFailure {
            location,
            message,
        },
        RemoteSendError::DeserializationFailure { location, message } => {
            Error::DeserializationFailure { location, message }
        },
    }
}

impl From<RemoteSendError> for Error {
    fn from(err: RemoteSendError) -> (r: Self)
        ensures
            r == local_of(err),
    {
        match err {
            RemoteSendError::UnknownRequest(req) => Error::UnknownRequest(req),
            RemoteSendError::HandlerInvocationError(e) => Error::HandlerInvocationError(e),
            RemoteSendError::HookInvocationError(e) => Error::HookInvocationError(e),
            RemoteSendError::DeserializationFailure { location, message } => {
                Error::DeserializationFailure { location, message }
            },
            RemoteSendError::SerializationFailure { location, message } => {
                Error::SerializationFailure { location, message }
            },
        }
    }
}

impl vstd::std_specs::convert::FromSpecImpl<RemoteSendError> for Error {
    open spec fn obeys_from_spec() -> bool {
        true
    }

    open spec fn from_spec(err: RemoteSendError) -> Error {
        local_of(err)
    }
}

} // verus!
