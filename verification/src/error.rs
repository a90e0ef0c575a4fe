use vstd::prelude::*;

verus! {

/// Why an operation of the client failed.
#[derive(Clone, Copy, Debug, PartialEq, Eq, Structural)]
pub enum Error {
    /// The credential is invalid or expired, or no organization could be resolved for it.
    Authentication,
    /// A configured header value, the cookie above all, is not a legal header value.
    InvalidCredential,
    /// The transport or the connection failed.
    Network,
    /// The operation named a conversation that the service does not know.
    NotFound,
    /// The service rejected the input.
    Validation,
    /// An attachment could not be uploaded.
    Upload,
    /// A completion frame is malformed.
    Decode,
    /// The request exceeded its deadline.
    Timeout,
    /// A local file could not be read.
    Io,
}

} // verus!
