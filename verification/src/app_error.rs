//! The error taxonomy: every failure the core reports falls into one of five
//! kinds, each carrying a human-readable message and mapping to a fixed
//! HTTP-style status code.

use vstd::prelude::*;
use crate::text::{append_str, chars_to_string};

verus! {

/// A failure of the core, by kind.
#[derive(Debug)]
pub enum AppError {
    /// No cached data for the requested year.
    NotFound(String),
    /// A storage or other internal fault.
    InternalServer(String),
    /// Malformed input, such as an invalid date during conversion.
    BadRequest(String),
    /// The external holiday source failed or returned nothing.
    ExternalService(String),
    /// Malformed persisted data.
    Serialization(String),
}

pub type AppResult<T> = Result<T, AppError>;

impl AppError {
    /// The message carried by the error.
    pub open spec fn spec_message(&self) -> Seq<char> {
        match self {
            AppError::NotFound(m) => m@,
            AppError::InternalServer(m) => m@,
            AppError::BadRequest(m) => m@,
            AppError::ExternalService(m) => m@,
            AppError::Serialization(m) => m@,
        }
    }

    /// The HTTP-style status code each kind renders as.
    pub open spec fn spec_status_code(&self) -> int {
        match self {
            AppError::NotFound(_) => 404,
            AppError::InternalServer(_) => 500,
            AppError::BadRequest(_) => 400,
            AppError::ExternalService(_) => 502,
            AppError::Serialization(_) => 500,
        }
    }

    /// The label each kind renders with.
    pub open spec fn spec_label(&self) -> Seq<char> {
        match self {
            AppError::NotFound(_) => "Not Found"@,
            AppError::InternalServer(_) => "Internal Server Error"@,
            AppError::BadRequest(_) => "Bad Request"@,
            AppError::ExternalService(_) => "External Service Error"@,
            AppError::Serialization(_) => "Serialization Error"@,
        }
    }

    /// The full rendering of the error: its label, then its message.
    pub open spec fn spec_describe(&self) -> Seq<char> {
        self.spec_label() + ": "@ + self.spec_message()
    }

    pub fn message(&self) -> (r: &String)
        ensures
            r@ == self.spec_message(),
    {
        match self {
            AppError::NotFound(m) => m,
            AppError::InternalServer(m) => m,
            AppError::BadRequest(m) => m,
            AppError::ExternalService(m) => m,
            AppError::Serialization(m) => m,
        }
    }

    pub fn status_code(&self) -> (r: u16)
        ensures
            r == self.spec_status_code(),
    {
        match self {
            AppError::NotFound(_) => 404,
            AppError::InternalServer(_) => 500,
            AppError::BadRequest(_) => 400,
            AppError::ExternalService(_) => 502,
            AppError::Serialization(_) => 500,
        }
    }

    /// The error as display text, label first.
    pub fn describe(&self) -> (r: String)
        ensures
            r@ == self.spec_describe(),
    {
        let mut out: Vec<char> = Vec::new();
        match self {
            AppError::NotFound(_) => append_str(&mut out, "Not Found"),
            AppError::InternalServer(_) => append_str(&mut out, "Internal Server Error"),
            AppError::BadRequest(_) => append_str(&mut out, "Bad Request"),
            AppError::ExternalService(_) => append_str(&mut out, "External Service Error"),
            AppError::Serialization(_) => append_str(&mut out, "Serialization Error"),
        }
        append_str(&mut out, ": ");
        append_str(&mut out, self.message().as_str());
        chars_to_string(&out)
    }
}

} // verus!
