//! The uniform response envelope every endpoint answers with.

use vstd::prelude::*;
use vstd::string::StrSliceExecFns;

verus! {

/// A response envelope: a fresh opaque transaction id, a numeric status code,
/// a human message, and the payload.
pub struct ApiResponse<T> {
    pub transaction_id: String,
    pub code: i16,
    pub message: String,
    pub data: T,
}

/// Relies on `uuid::Uuid::new_v4` and its `Display` rendering: a fresh random
/// UUID in hyphenated form. The value is random, so nothing is promised of
/// its text.
#[verifier::external_body]
fn new_transaction_id() -> String {
    uuid::Uuid::new_v4().to_string()
}

impl<T> ApiResponse<T> {
    /// A success envelope: code 200 with the given payload and message.
    pub fn success(data: T, message: &str) -> (r: Self)
        ensures
            r.code == 200,
            r.message@ == message@,
            r.data == data,
    {
        ApiResponse { transaction_id: new_transaction_id(), code: 200, message: message.to_owned(), data }
    }

    /// An error envelope: the given code, message and payload.
    pub fn error(code: i16, message: &str, data: T) -> (r: Self)
        ensures
            r.code == code,
            r.message@ == message@,
            r.data == data,
    {
        ApiResponse { transaction_id: new_transaction_id(), code, message: message.to_owned(), data }
    }
}

} // verus!
