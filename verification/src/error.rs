//! The error type of this crate.
use vstd::prelude::*;

verus! {

/// Possible error kinds.
#[derive(Debug, Clone, Copy, PartialEq, Eq, Hash, Structural)]
#[allow(missing_docs)]
pub enum ErrorKind {
    InvalidInput,
    Other,
}

/// This crate specific `Error` type: a kind, and a message for whoever reads the log.
#[derive(Debug, Clone)]
pub struct Error {
    kind: ErrorKind,
    message: String,
}

/// Why a codec gave up: whether it was over its input, and its own words.
#[derive(Debug)]
pub struct CodecFailure {
    /// Whether the codec found its input invalid.
    pub invalid_input: bool,
    /// What the codec says of the failure.
    pub message: String,
}

impl CodecFailure {
    /// Makes the record of a failure.
    pub fn new(invalid_input: bool, message: String) -> (failure: Self)
        ensures
            failure.invalid_input == invalid_input,
            failure.message == message,
    {
        CodecFailure { invalid_input, message }
    }
}

impl Error {
    /// The error that stands for the failure of a codec: of the kind
    /// `InvalidInput` where the codec found its input invalid, else `Other`,
    /// with the words of the codec as message.
    pub closed spec fn of_codec(failure: CodecFailure) -> Error {
        Error {
            kind: if failure.invalid_input {
                ErrorKind::InvalidInput
            } else {
                ErrorKind::Other
            },
            message: failure.message,
        }
    }

    /// The error that stands for the failure of a codec: of the kind
    /// `InvalidInput` where the codec found its input invalid, else `Other`.
    pub fn from_codec(failure: CodecFailure) -> (e: Self)
        ensures
            e == Error::of_codec(failure),
            e.spec_kind() == (if failure.invalid_input {
                ErrorKind::InvalidInput
            } else {
                ErrorKind::Other
            }),
            e.spec_message() == failure.message@,
    {
        let kind = if failure.invalid_input {
            ErrorKind::InvalidInput
        } else {
            ErrorKind::Other
        };
        Error { kind, message: failure.message }
    }

    /// The kind of the error.
    pub closed spec fn spec_kind(&self) -> ErrorKind {
        self.kind
    }

    /// The message of the error.
    pub closed spec fn spec_message(&self) -> Seq<char> {
        self.message@
    }

    /// Makes an error of the given kind.
    pub fn new(kind: ErrorKind, message: &str) -> (e: Self)
        ensures
            e.spec_kind() == kind,
            e.spec_message() == message@,
    {
        Error { kind, message: message.to_owned() }
    }

    /// Makes an `ErrorKind::InvalidInput` error.
    pub fn invalid_input(message: &str) -> (e: Self)
        ensures
            e.spec_kind() == ErrorKind::InvalidInput,
            e.spec_message() == message@,
    {
        Error::new(ErrorKind::InvalidInput, message)
    }

    /// Makes an `ErrorKind::Other` error.
    pub fn other(message: &str) -> (e: Self)
        ensures
            e.spec_kind() == ErrorKind::Other,
            e.spec_message() == message@,
    {
        Error::new(ErrorKind::Other, message)
    }

    /// Returns the kind of the error.
    pub fn kind(&self) -> (kind: ErrorKind)
        ensures
            kind == self.spec_kind(),
    {
        self.kind
    }

    /// Returns the message of the error.
    pub fn message(&self) -> (message: &str)
        ensures
            message@ == self.spec_message(),
    {
        self.message.as_str()
    }
}

} // verus!
