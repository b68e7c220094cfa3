//! The error type of the library.

use vstd::prelude::*;

verus! {

/// `std::io::Error`, carried through unopened.
#[verifier::external_type_specification]
#[verifier::external_body]
pub struct ExIoError(std::io::Error);

/// What an error says, without the operating system's own error inside an
/// `IOError`.
pub enum ErrorView {
    Parse,
    Io,
    NotSupported(Seq<char>),
    Timeout,
    Unknown(Seq<char>),
}

/// Defines the error used by the library.
#[derive(Debug)]
pub enum STUNClientError {
    /// A byte buffer does not conform to the STUN wire format.
    ParseError(),
    /// The underlying UDP operation failed.
    IOError(std::io::Error),
    /// The server's response lacks the named attribute.
    NotSupportedError(String),
    /// No matching response arrived in time.
    TimeoutError(),
    /// An invariant was violated.
    Unknown(String),
}

impl View for STUNClientError {
    type V = ErrorView;

    open spec fn view(&self) -> ErrorView {
        match self {
            STUNClientError::ParseError() => ErrorView::Parse,
            STUNClientError::IOError(_) => ErrorView::Io,
            STUNClientError::NotSupportedError(feature) => ErrorView::NotSupported(feature@),
            STUNClientError::TimeoutError() => ErrorView::Timeout,
            STUNClientError::Unknown(message) => ErrorView::Unknown(message@),
        }
    }
}

/// `std::io::ErrorKind`, carried through unopened.
#[verifier::external_type_specification]
#[verifier::external_body]
pub struct ExIoErrorKind(std::io::ErrorKind);

/// `std::io::Error::kind`: the category of the error. Nothing is claimed of
/// it.
#[verifier::external_body]
fn io_error_kind(error: &std::io::Error) -> std::io::ErrorKind {
    error.kind()
}

/// `std::io::Error::new`: an error of the given category and message.
/// Nothing is claimed of it.
#[verifier::external_body]
fn io_error_new(kind: std::io::ErrorKind, message: String) -> std::io::Error {
    std::io::Error::new(kind, message)
}

impl Clone for STUNClientError {
    /// The copy says what this error says. The copy of an `IOError` holds a
    /// new `std::io::Error`, made from the category and the message of the
    /// one in here; the operating system's error code is not carried over.
    fn clone(&self) -> (copy: Self)
        ensures
            copy@ == self@,
    {
        match self {
            STUNClientError::ParseError() => STUNClientError::ParseError(),
            STUNClientError::IOError(e) => {
                let kind = io_error_kind(e);
                let message = e.to_string();
                STUNClientError::IOError(io_error_new(kind, message))
            },
            STUNClientError::NotSupportedError(feature) => STUNClientError::NotSupportedError(
                feature.clone(),
            ),
            STUNClientError::TimeoutError() => STUNClientError::TimeoutError(),
            STUNClientError::Unknown(message) => STUNClientError::Unknown(message.clone()),
        }
    }
}

} // verus!
