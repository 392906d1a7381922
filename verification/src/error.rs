//! Store error type.

use vstd::prelude::*;

verus! {

/// Store error type.
#[derive(Debug)]
pub enum StoreError {
    OpenFailed(String),
    QueryFailed(String),
    NotFound(String),
    InvalidData(String),
    IoError(String),
}

/// The text that displays an error: a prefix that names its kind, then its
/// message.
pub open spec fn error_text(e: StoreError) -> Seq<char> {
    match e {
        StoreError::OpenFailed(msg) => "open failed: "@ + msg@,
        StoreError::QueryFailed(msg) => "query failed: "@ + msg@,
        StoreError::NotFound(msg) => "not found: "@ + msg@,
        StoreError::InvalidData(msg) => "invalid data: "@ + msg@,
        StoreError::IoError(msg) => "io error: "@ + msg@,
    }
}

impl StoreError {
    /// The text that displays the error.
    pub fn to_string(&self) -> (res: String)
        ensures
            res@ == error_text(*self),
    {
        match self {
            StoreError::OpenFailed(msg) => String::from_str("open failed: ").concat(msg.as_str()),
            StoreError::QueryFailed(msg) => String::from_str("query failed: ").concat(msg.as_str()),
            StoreError::NotFound(msg) => String::from_str("not found: ").concat(msg.as_str()),
            StoreError::InvalidData(msg) => String::from_str("invalid data: ").concat(msg.as_str()),
            StoreError::IoError(msg) => String::from_str("io error: ").concat(msg.as_str()),
        }
    }
}

} // verus!
