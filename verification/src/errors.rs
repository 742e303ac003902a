//! Error types of the library.
use vstd::prelude::*;

verus! {

/// Errors raised while receiving Server-Sent Events.
#[derive(Debug, Clone, PartialEq)]
pub enum SSEError {
    /// Failed to receive an event.
    ReceiveEvent {
        /// The error message.
        message: String,
    },
}

/// Errors of the extras.
#[derive(Debug, Clone, PartialEq)]
pub enum DeboaExtrasError {
    /// An SSE error.
    SSE(SSEError),
}

/// The failures the hooks, codecs and checks of this library report to the
/// client. Each variant stands for the client error of the same name.
#[derive(Debug, Clone, PartialEq)]
pub enum ClientError {
    /// A request could not be sent (or was given up).
    Send { message: String },
    /// A header is missing or holds a value that cannot be used.
    Header { message: String },
    /// A URL could not be parsed.
    UrlParse { message: String },
    /// A body could not be compressed.
    Compress { message: String },
    /// A body could not be decompressed.
    Decompress { message: String },
    /// A host could not be resolved.
    Resolve { host: String, message: String },
}

impl SSEError {
    /// The text of the error.
    pub fn message(&self) -> (r: String)
        ensures
            r@ == (match self {
                SSEError::ReceiveEvent { message } => message@,
            }),
    {
        match self {
            SSEError::ReceiveEvent { message } => message.clone(),
        }
    }
}

impl DeboaExtrasError {
    /// Wraps an SSE error.
    pub fn from_sse(e: SSEError) -> (r: DeboaExtrasError)
        ensures
            r == DeboaExtrasError::SSE(e),
    {
        DeboaExtrasError::SSE(e)
    }
}

} // verus!
