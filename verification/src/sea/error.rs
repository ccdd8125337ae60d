//! Errors of the SEA agent.
use crate::sessions::manager::{ManagerError, manager_error_text};
use crate::text::{contains_text, has_substring, string_from};
use vstd::prelude::*;
use vstd::string::*;

verus! {

/// Why an agent operation failed.
#[derive(Debug, Clone, PartialEq, Eq)]
pub enum SeaError {
    Session(ManagerError),
    /// The router failed; the message says why.
    Router(String),
    Server(String),
    Config(String),
    Io(String),
    NotFound(String),
    InvalidOperation(String),
}

/// The message of an agent error.
pub open spec fn sea_error_text(e: SeaError) -> Seq<char> {
    match e {
        SeaError::Session(me) => "Session error: "@ + manager_error_text(me),
        SeaError::Router(m) => "Router error: "@ + m@,
        SeaError::Server(m) => "Server error: "@ + m@,
        SeaError::Config(m) => "Configuration error: "@ + m@,
        SeaError::Io(m) => "IO error: "@ + m@,
        SeaError::NotFound(m) => "Not found: "@ + m@,
        SeaError::InvalidOperation(m) => "Invalid operation: "@ + m@,
    }
}

/// `prefix` followed by `m`.
fn prefixed(prefix: &str, m: &str) -> (r: String)
    ensures
        r@ == prefix@ + m@,
{
    let mut t = string_from(prefix);
    t.append(m);
    t
}

impl SeaError {
    /// The error's message.
    pub fn message(&self) -> (r: String)
        ensures
            r@ == sea_error_text(*self),
    {
        match self {
            SeaError::Session(me) => prefixed("Session error: ", me.message().as_str()),
            SeaError::Router(m) => prefixed("Router error: ", m.as_str()),
            SeaError::Server(m) => prefixed("Server error: ", m.as_str()),
            SeaError::Config(m) => prefixed("Configuration error: ", m.as_str()),
            SeaError::Io(m) => prefixed("IO error: ", m.as_str()),
            SeaError::NotFound(m) => prefixed("Not found: ", m.as_str()),
            SeaError::InvalidOperation(m) => prefixed("Invalid operation: ", m.as_str()),
        }
    }
}

/// The lowercase form of a string, as `str::to_lowercase` gives it.
pub uninterp spec fn lowercase(s: Seq<char>) -> Seq<char>;

/// `str::to_lowercase`.
#[verifier::external_body]
fn to_lowercase(s: &str) -> (r: String)
    ensures
        r@ == lowercase(s@),
{
    s.to_lowercase()
}

/// The advice shown under an error.
#[derive(Debug, Clone, Copy, PartialEq, Eq, Structural)]
pub enum ErrorHint {
    /// Use `sea session list` to list the sessions.
    ListSessions,
    /// Check file permissions and disk space.
    CheckPermissionsAndSpace,
    /// Check the servers with `sea server list`.
    CheckServerStatus,
    /// Generate a default configuration with `sea config --output config.toml`.
    GenerateConfig,
    /// Use `sea server list` to list the servers.
    ListServers,
    /// Session ids are UUIDs.
    SessionIdFormat,
    /// Use `sea server types` to see the server types.
    ListServerTypes,
}

/// The advice for an error, if any: a missing session, an I/O failure of
/// the session manager, a server error about starting or stopping, a
/// configuration error, something not found that names a session or a
/// server, and an invalid operation about a session id or a server type
/// each have one.
pub open spec fn hint_for(e: SeaError) -> Option<ErrorHint> {
    match e {
        SeaError::Session(ManagerError::NotFound(_)) => Some(ErrorHint::ListSessions),
        SeaError::Session(ManagerError::Io(_)) => Some(ErrorHint::CheckPermissionsAndSpace),
        SeaError::Session(_) => None,
        SeaError::Router(_) => None,
        SeaError::Server(m) => if has_substring(m@, "start"@) || has_substring(m@, "stop"@) {
            Some(ErrorHint::CheckServerStatus)
        } else {
            None
        },
        SeaError::Config(_) => Some(ErrorHint::GenerateConfig),
        SeaError::Io(_) => None,
        SeaError::NotFound(what) => if has_substring(lowercase(what@), "session"@) {
            Some(ErrorHint::ListSessions)
        } else if has_substring(lowercase(what@), "server"@) {
            Some(ErrorHint::ListServers)
        } else {
            None
        },
        SeaError::InvalidOperation(m) => if has_substring(m@, "session id"@) || has_substring(
            m@,
            "Session ID"@,
        ) {
            Some(ErrorHint::SessionIdFormat)
        } else if has_substring(m@, "server type"@) {
            Some(ErrorHint::ListServerTypes)
        } else {
            None
        },
    }
}

/// The advice to show under `e`.
pub fn error_hint(e: &SeaError) -> (h: Option<ErrorHint>)
    ensures
        h == hint_for(*e),
{
    match e {
        SeaError::Session(ManagerError::NotFound(_)) => Some(ErrorHint::ListSessions),
        SeaError::Session(ManagerError::Io(_)) => Some(ErrorHint::CheckPermissionsAndSpace),
        SeaError::Session(_) => None,
        SeaError::Router(_) => None,
        SeaError::Server(m) => {
            if contains_text(m.as_str(), "start") || contains_text(m.as_str(), "stop") {
                Some(ErrorHint::CheckServerStatus)
            } else {
                None
            }
        },
        SeaError::Config(_) => Some(ErrorHint::GenerateConfig),
        SeaError::Io(_) => None,
        SeaError::NotFound(what) => {
            let lower = to_lowercase(what.as_str());
            if contains_text(lower.as_str(), "session") {
                Some(ErrorHint::ListSessions)
            } else if contains_text(lower.as_str(), "server") {
                Some(ErrorHint::ListServers)
            } else {
                None
            }
        },
        SeaError::InvalidOperation(m) => {
            if contains_text(m.as_str(), "session id") || contains_text(m.as_str(), "Session ID") {
                Some(ErrorHint::SessionIdFormat)
            } else if contains_text(m.as_str(), "server type") {
                Some(ErrorHint::ListServerTypes)
            } else {
                None
            }
        },
    }
}

/// The heading of the kind of an error.
pub open spec fn kind_label(e: SeaError) -> Seq<char> {
    match e {
        SeaError::Session(_) => "Session Error"@,
        SeaError::Router(_) => "Router Error"@,
        SeaError::Server(_) => "Server Error"@,
        SeaError::Config(_) => "Configuration Error"@,
        SeaError::Io(_) => "I/O Error"@,
        SeaError::NotFound(_) => "Not Found"@,
        SeaError::InvalidOperation(_) => "Invalid Operation"@,
    }
}

/// The heading shown for the kind of `e`.
pub fn error_kind_label(e: &SeaError) -> (r: &'static str)
    ensures
        r@ == kind_label(*e),
{
    match e {
        SeaError::Session(_) => "Session Error",
        SeaError::Router(_) => "Router Error",
        SeaError::Server(_) => "Server Error",
        SeaError::Config(_) => "Configuration Error",
        SeaError::Io(_) => "I/O Error",
        SeaError::NotFound(_) => "Not Found",
        SeaError::InvalidOperation(_) => "Invalid Operation",
    }
}

} // verus!
