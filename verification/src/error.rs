//! Error types for s3z.


use vstd::prelude::*;

use crate::text::concat2;

verus! {

#[verifier::external_type_specification]
#[verifier::external_body]
pub struct ExIoError(std::io::Error);

/// Errors that can occur during s3z operations.
#[derive(Debug)]
#[non_exhaustive]
pub enum Error {
    /// Authentication or credential resolution error.
    Auth(String),
    /// Value conversion error.
    Conversion(String),
    /// HTTP transport error (the transport's own message).
    Http(String),
    /// HTTP request building error.
    HttpBuild(String),
    /// Internal error (task join, semaphore, etc.).
    Internal(String),
    /// Filesystem IO error.
    Io(std::io::Error),
    /// S3 service returned an error response.
    S3 {
        /// S3 error code (e.g. `NoSuchKey`).
        code: String,
        /// Human-readable error message.
        message: String,
    },
    /// Invalid URI.
    Uri(String),
    /// Directory walking error.
    Walk(String),
}

/// Convenience alias.
pub type Result<T> = core::result::Result<T, Error>;

/// The text of an error that carries a message, as it is displayed.
/// `None` for `Io`, whose text comes from the IO error itself.
pub open spec fn error_text(e: Error) -> Option<Seq<char>> {
    match e {
        Error::Auth(m) => Some("auth error: "@ + m@),
        Error::Conversion(m) => Some("conversion error: "@ + m@),
        Error::Http(m) => Some("http error: "@ + m@),
        Error::HttpBuild(m) => Some("http build error: "@ + m@),
        Error::Internal(m) => Some("internal error: "@ + m@),
        Error::Io(_) => None,
        Error::S3 { code, message } => Some("s3 error "@ + code@ + ": "@ + message@),
        Error::Uri(m) => Some("invalid uri: "@ + m@),
        Error::Walk(m) => Some("walk error: "@ + m@),
    }
}

/// The text `std::io::Error` displays; it depends on the error's kind and payload,
/// which this crate does not model, so nothing is stated of it.
#[verifier::external_body]
fn io_error_display(e: &std::io::Error) -> String {
    e.to_string()
}

impl Error {
    /// The human-readable text of the error.
    pub fn to_string(&self) -> (s: String)
        ensures
            error_text(*self) matches Some(t) ==> s@ == t,
            self is Io ==> exists|rest: Seq<char>| s@ == "io error: "@ + rest,
    {
        match self {
            Error::Auth(m) => concat2("auth error: ", m.as_str()),
            Error::Conversion(m) => concat2("conversion error: ", m.as_str()),
            Error::Http(m) => concat2("http error: ", m.as_str()),
            Error::HttpBuild(m) => concat2("http build error: ", m.as_str()),
            Error::Internal(m) => concat2("internal error: ", m.as_str()),
            Error::Io(e) => {
                let inner = io_error_display(e);
                let s = concat2("io error: ", inner.as_str());
                assert(s@ == "io error: "@ + inner@);
                s
            },
            Error::S3 { code, message } => {
                let mut s = concat2("s3 error ", code.as_str());
                s.append(": ");
                s.append(message.as_str());
                s
            },
            Error::Uri(m) => concat2("invalid uri: ", m.as_str()),
            Error::Walk(m) => concat2("walk error: ", m.as_str()),
        }
    }
}

impl From<std::io::Error> for Error {
    fn from(e: std::io::Error) -> (r: Self)
        ensures
            r == Error::Io(e),
    {
        Error::Io(e)
    }
}

impl vstd::std_specs::convert::FromSpecImpl<std::io::Error> for Error {
    open spec fn obeys_from_spec() -> bool {
        true
    }

    open spec fn from_spec(v: std::io::Error) -> Error {
        Error::Io(v)
    }
}

/// The `Auth` error reported when an environment variable is missing.
pub fn missing_env(name: &str) -> (e: Error)
    ensures
        e matches Error::Auth(m) && m@ == name@ + " not set"@,
{
    Error::Auth(concat2(name, " not set"))
}

} // verus!
