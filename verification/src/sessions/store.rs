//! Where sessions are kept: one JSON file per session.  Reading and writing
//! the files is the caller's part; this module names the store and its
//! errors.
use crate::sessions::manager::{uuid_string, uuid_text};
use crate::sessions::models::SessionId;
use crate::text::string_from;
use vstd::prelude::*;
use vstd::string::*;

verus! {

/// An error of the session store.
#[derive(Debug, Clone, PartialEq, Eq)]
pub enum StoreError {
    /// A file could not be read or written; the message says why.
    Io(String),
    /// A file does not hold a session; the message says why.
    Json(String),
    /// No session file exists for this id.
    NotFound(SessionId),
    /// A session file for this id exists already.
    AlreadyExists(SessionId),
}

/// The message of a store error.
pub open spec fn store_error_text(e: StoreError) -> Seq<char> {
    match e {
        StoreError::Io(m) => "IO error: "@ + m@,
        StoreError::Json(m) => "JSON serialization error: "@ + m@,
        StoreError::NotFound(id) => "Session not found: "@ + uuid_text(id),
        StoreError::AlreadyExists(id) => "Session file already exists: "@ + uuid_text(id),
    }
}

impl StoreError {
    /// The error's message.
    pub fn message(&self) -> (r: String)
        ensures
            r@ == store_error_text(*self),
    {
        match self {
            StoreError::Io(m) => {
                let mut t = string_from("IO error: ");
                t.append(m.as_str());
                t
            },
            StoreError::Json(m) => {
                let mut t = string_from("JSON serialization error: ");
                t.append(m.as_str());
                t
            },
            StoreError::NotFound(id) => {
                let mut t = string_from("Session not found: ");
                t.append(uuid_string(*id).as_str());
                t
            },
            StoreError::AlreadyExists(id) => {
                let mut t = string_from("Session file already exists: ");
                t.append(uuid_string(*id).as_str());
                t
            },
        }
    }
}

/// The store of sessions as pretty-printed JSON files.
pub struct JsonSessionStore;

impl JsonSessionStore {
    /// The store.
    pub fn new() -> (s: Self) {
        JsonSessionStore
    }
}

impl Default for JsonSessionStore {
    fn default() -> (s: Self) {
        JsonSessionStore
    }
}

} // verus!
