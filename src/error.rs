//! The failures that any adapter reports.
use avro_rs::Error as AvroLibError;
use serde_json::Error as JsonLibError;
use vstd::prelude::*;

verus! {

/// Declares the Avro library's error type so that it can be carried.
#[verifier::external_type_specification]
#[verifier::external_body]
pub struct ExAvroError(AvroLibError);

/// Declares the JSON library's error type so that it can be carried.
#[verifier::external_type_specification]
#[verifier::external_body]
pub struct ExJsonError(JsonLibError);

/// Declares std's I/O error type so that it can be carried.
#[verifier::external_type_specification]
#[verifier::external_body]
pub struct ExIoError(std::io::Error);

/// Declares std's UTF-8 decoding error so that it can be carried.
#[verifier::external_type_specification]
#[verifier::external_body]
pub struct ExUtf8Error(std::string::FromUtf8Error);

/// Every failure that a source or a sink reports, with its cause.
#[derive(Debug)]
pub enum Error {
    /// The Avro library failed to read or write a container.
    Avro(AvroLibError),
    /// The JSON library failed to parse or write a document.
    Json(JsonLibError),
    /// The byte stream failed.
    Io(std::io::Error),
    /// Bytes that should hold text are not UTF-8.
    Utf8(std::string::FromUtf8Error),
    /// A construct was recognised but is not supported.
    Unimplemented { msg: String },
    /// An invariant that the component keeps was broken.
    IllegalState { msg: String },
    /// A well-formed value cannot be represented in the target format.
    Format { msg: String },
    /// A condition that cannot happen by design.
    Internal(&'static str),
    /// A free-form failure.
    Message(String),
}

pub type Result<A> = core::result::Result<A, Error>;

impl Error {
    pub fn unimplemented(msg: String) -> (r: Self)
        ensures
            r == (Error::Unimplemented { msg }),
    {
        Error::Unimplemented { msg }
    }

    pub fn illegal_state(msg: String) -> (r: Self)
        ensures
            r == (Error::IllegalState { msg }),
    {
        Error::IllegalState { msg }
    }
}

} // verus!
