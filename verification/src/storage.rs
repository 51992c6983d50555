//! Errors of durable storage.
use vstd::prelude::*;

use crate::text::{push_str, string_from_chars};

verus! {

#[derive(Debug, PartialEq, Eq)]
pub enum StorageError {
    Sqlite(String),
    Json(String),
    InvalidData(String),
}


pub open spec fn storage_error_text(e: StorageError) -> Seq<char> {
    match e {
        StorageError::Sqlite(m) => "sqlite error: "@ + m@,
        StorageError::Json(m) => "json error: "@ + m@,
        StorageError::InvalidData(m) => "stored value is invalid: "@ + m@,
    }
}

impl StorageError {
    /// The error's message.
    pub fn describe(&self) -> (s: String)
        ensures
            s@ == storage_error_text(*self),
    {
        let (prefix, m) = match self {
            StorageError::Sqlite(m) => ("sqlite error: ", m),
            StorageError::Json(m) => ("json error: ", m),
            StorageError::InvalidData(m) => ("stored value is invalid: ", m),
        };
        let mut text: Vec<char> = Vec::new();
        push_str(&mut text, prefix);
        push_str(&mut text, m.as_str());
        string_from_chars(text.as_slice())
    }
}

} // verus!
