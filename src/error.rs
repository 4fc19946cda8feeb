use vstd::prelude::*;

verus! {

/// The kinds of failure that the protocol tells apart.
#[derive(Clone, Copy, Debug, PartialEq, Eq, Structural)]
pub enum ErrorKind {
    /// A key file is absent.
    KeyMissing,
    /// Key bytes do not deserialize, or belong to another circuit shape.
    KeyFormat,
    /// A field-element string or a proof encoding is malformed.
    EncodingError,
    /// The network failed or timed out.
    TransportError,
    /// The proving or verifying backend failed.
    BackendError,
    /// A reaction handler reported a failure.
    HandlerError,
    /// A well-formed proof was cryptographically false.
    VerificationRejected,
}

/// A failure with its kind and a short message for the other party.
#[derive(Debug)]
pub struct ZkvcError {
    pub kind: ErrorKind,
    pub message: String,
}

impl ZkvcError {
    pub fn new(kind: ErrorKind, message: &str) -> (r: ZkvcError)
        ensures
            r.kind == kind,
            r.message@ == message@,
    {
        ZkvcError { kind, message: message.to_owned() }
    }
}

} // verus!
