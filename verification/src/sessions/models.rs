//! The session aggregate and its parts.
//!
//! A session id stands for a UUID by its 128-bit value; a timestamp is a UTC
//! instant as whole seconds since the Unix epoch plus nanoseconds.
use crate::sessions::routing_table::RoutingTable;
use crate::strmap::StrMap;
use vstd::prelude::*;

verus! {

#[verifier::external_type_specification]
#[verifier::external_body]
pub struct ExJsonValue(serde_json::Value);

/// `serde_json::Value::clone`: an equal value.
#[verifier::external_body]
pub fn clone_json(v: &serde_json::Value) -> (r: serde_json::Value)
    ensures
        r == *v,
{
    v.clone()
}

/// Session identifier: the 128-bit value of a UUID.
pub type SessionId = u128;

/// Server identifier.
pub type ServerId = String;

/// A UTC instant: seconds since the Unix epoch and nanoseconds within the
/// second.
#[derive(Debug, Clone, Copy, PartialEq, Eq, Structural)]
pub struct Timestamp {
    pub secs: i64,
    pub nanos: u32,
}

/// The instant in nanoseconds since the epoch.
pub open spec fn nanos_of(t: Timestamp) -> int {
    t.secs * 1_000_000_000 + t.nanos
}

/// Whole seconds from `since` to `now`, rounded toward zero (what
/// `(now - since).num_seconds()` gives).
pub open spec fn elapsed_secs(now: Timestamp, since: Timestamp) -> int {
    let d = nanos_of(now) - nanos_of(since);
    if d >= 0 {
        d / 1_000_000_000
    } else {
        -((-d) / 1_000_000_000)
    }
}

/// `chrono::Utc::now()`, as seconds and nanoseconds.  It is built from the
/// system clock's duration since the epoch, so the nanoseconds are below one
/// second; it panics when the clock reads a time before the epoch.
#[verifier::external_body]
pub fn now() -> (t: Timestamp)
    ensures
        t.nanos < 1_000_000_000,
{
    let n = chrono::Utc::now();
    Timestamp { secs: n.timestamp(), nanos: n.timestamp_subsec_nanos() }
}

/// `uuid::Uuid::new_v4()`, a random UUID, as its 128-bit value; nothing is
/// stated of it.  Like the call it makes, it panics when the system's source
/// of random bytes fails.
#[verifier::external_body]
pub fn new_uuid() -> u128 {
    uuid::Uuid::new_v4().as_u128()
}

/// Whole seconds from `since` to `now`, rounded toward zero.
pub fn elapsed_seconds(now: Timestamp, since: Timestamp) -> (r: i128)
    ensures
        r == elapsed_secs(now, since),
{
    let d: i128 = (now.secs as i128 - since.secs as i128) * 1_000_000_000i128 + (now.nanos as i128
        - since.nanos as i128);
    if d >= 0 {
        d / 1_000_000_000i128
    } else {
        -((-d) / 1_000_000_000i128)
    }
}

/// The state of a session.
#[derive(Debug, Clone, Copy, PartialEq, Eq, Structural)]
pub enum SessionState {
    Active,
    Paused,
    Terminated,
}

/// The lifecycle status of a server.
#[derive(Debug, Clone, Copy, PartialEq, Eq, Structural)]
pub enum ServerStatus {
    Pending,
    Active,
    Draining,
    Removed,
}

/// The position of a status in the lifecycle Pending → Active → Draining →
/// Removed.
pub open spec fn status_rank(s: ServerStatus) -> int {
    match s {
        ServerStatus::Pending => 0,
        ServerStatus::Active => 1,
        ServerStatus::Draining => 2,
        ServerStatus::Removed => 3,
    }
}

/// A server registered in a session.
#[derive(Debug)]
pub struct ServerInfo {
    pub id: ServerId,
    pub name: String,
    pub status: ServerStatus,
    pub tools: Vec<String>,
    pub metadata: StrMap<serde_json::Value>,
    pub draining_since: Option<Timestamp>,
}

/// Who wrote a message.
#[derive(Debug, Clone, Copy, PartialEq, Eq, Structural)]
pub enum MessageRole {
    User,
    Assistant,
    System,
    Server,
}

/// A message of a session's history.
#[derive(Debug)]
pub struct MessageRecord {
    pub id: u128,
    pub role: MessageRole,
    pub content: String,
    pub timestamp: Timestamp,
    pub metadata: Option<StrMap<serde_json::Value>>,
}

/// Cached input and inference results of a session.
#[derive(Debug)]
pub struct CacheStore {
    pub input_cache: StrMap<serde_json::Value>,
    pub inference_cache: StrMap<serde_json::Value>,
}

impl CacheStore {
    pub open spec fn wf(&self) -> bool {
        self.input_cache.wf() && self.inference_cache.wf()
    }

    /// Empty caches.
    pub fn new() -> (c: Self)
        ensures
            c.wf(),
            c.input_cache@ == Map::<Seq<char>, serde_json::Value>::empty(),
            c.inference_cache@ == Map::<Seq<char>, serde_json::Value>::empty(),
    {
        CacheStore { input_cache: StrMap::new(), inference_cache: StrMap::new() }
    }
}

/// Per-session settings.
#[derive(Debug, Clone, Copy, PartialEq, Eq, Structural)]
pub struct SessionConfig {
    /// Most routing hops a message may take.
    pub max_hops: u32,
    /// Seconds a draining server may stay before it is removed.
    pub drain_timeout: u64,
}

/// Default routing hop limit: 10.
pub fn default_max_hops() -> (n: u32)
    ensures
        n == 10,
{
    10
}

/// Default drain timeout: 300 seconds.
pub fn default_drain_timeout() -> (n: u64)
    ensures
        n == 300,
{
    300
}

impl SessionConfig {
    /// Default settings: 10 hops, 300 seconds.
    pub fn new() -> (c: Self)
        ensures
            c.max_hops == 10,
            c.drain_timeout == 300,
    {
        SessionConfig { max_hops: default_max_hops(), drain_timeout: default_drain_timeout() }
    }
}

impl Default for SessionConfig {
    fn default() -> (c: Self)
        ensures
            c.max_hops == 10,
            c.drain_timeout == 300,
    {
        SessionConfig::new()
    }
}

/// A session: its servers, routes, message history, caches and settings.
#[derive(Debug)]
pub struct Session {
    pub session_id: SessionId,
    pub name: Option<String>,
    pub created_at: Timestamp,
    pub updated_at: Timestamp,
    pub state: SessionState,
    pub servers: StrMap<ServerInfo>,
    pub routing_table: RoutingTable,
    pub message_history: Vec<MessageRecord>,
    pub cache: CacheStore,
    pub config: SessionConfig,
}

impl Session {
    /// The maps of the session have distinct keys.
    pub open spec fn wf(&self) -> bool {
        &&& self.servers.wf()
        &&& self.routing_table.wf()
        &&& self.cache.wf()
    }

    /// Every route leads to a registered server.
    pub open spec fn routes_valid(&self) -> bool {
        forall|k: Seq<char>|
            #[trigger] self.routing_table@.contains_key(k) ==> self.servers@.contains_key(
                self.routing_table@[k],
            )
    }

    /// A fresh, active session with a random id, no servers, routes,
    /// messages or cache entries, and default settings.
    pub fn new() -> (s: Self)
        ensures
            s.wf(),
            s.routes_valid(),
            s.name is None,
            s.state == SessionState::Active,
            s.servers@ == Map::<Seq<char>, ServerInfo>::empty(),
            s.routing_table@ == Map::<Seq<char>, Seq<char>>::empty(),
            s.message_history@.len() == 0,
            s.cache.input_cache@ == Map::<Seq<char>, serde_json::Value>::empty(),
            s.cache.inference_cache@ == Map::<Seq<char>, serde_json::Value>::empty(),
            s.config.max_hops == 10,
            s.config.drain_timeout == 300,
            s.created_at == s.updated_at,
    {
        Session::with_name(None)
    }

    /// Like `new`, with the given name.
    pub fn with_name(name: Option<String>) -> (s: Self)
        ensures
            s.wf(),
            s.routes_valid(),
            s.name == name,
            s.state == SessionState::Active,
            s.servers@ == Map::<Seq<char>, ServerInfo>::empty(),
            s.routing_table@ == Map::<Seq<char>, Seq<char>>::empty(),
            s.message_history@.len() == 0,
            s.cache.input_cache@ == Map::<Seq<char>, serde_json::Value>::empty(),
            s.cache.inference_cache@ == Map::<Seq<char>, serde_json::Value>::empty(),
            s.config.max_hops == 10,
            s.config.drain_timeout == 300,
            s.created_at == s.updated_at,
    {
        let t = now();
        Session {
            session_id: new_uuid(),
            name,
            created_at: t,
            updated_at: t,
            state: SessionState::Active,
            servers: StrMap::new(),
            routing_table: RoutingTable::new(),
            message_history: Vec::new(),
            cache: CacheStore::new(),
            config: SessionConfig::new(),
        }
    }

    /// Marks the session as updated now: the update time becomes a reading
    /// of the clock (which reading is not stated).
    pub fn touch(&mut self)
        ensures
            final(self).updated_at.nanos < 1_000_000_000,
            final(self).session_id == old(self).session_id,
            final(self).name == old(self).name,
            final(self).created_at == old(self).created_at,
            final(self).state == old(self).state,
            final(self).servers == old(self).servers,
            final(self).routing_table == old(self).routing_table,
            final(self).message_history == old(self).message_history,
            final(self).cache == old(self).cache,
            final(self).config == old(self).config,
    {
        self.updated_at = now();
    }
}

impl Default for Session {
    fn default() -> (s: Self)
        ensures
            s.wf(),
            s.state == SessionState::Active,
            s.servers@ == Map::<Seq<char>, ServerInfo>::empty(),
            s.message_history@.len() == 0,
    {
        Session::new()
    }
}

/// A session's summary for listings.
#[derive(Debug, Clone, Copy, PartialEq, Eq, Structural)]
pub struct SessionSummary {
    pub session_id: SessionId,
    pub created_at: Timestamp,
    pub state: SessionState,
    pub server_count: usize,
    pub message_count: usize,
}

impl SessionSummary {
    /// The summary of `session`.
    pub fn from(session: &Session) -> (s: Self)
        requires
            session.wf(),
        ensures
            s.session_id == session.session_id,
            s.created_at == session.created_at,
            s.state == session.state,
            s.server_count == session.servers@.len(),
            s.message_count == session.message_history@.len(),
    {
        proof {
            session.servers.lemma_len();
        }
        SessionSummary {
            session_id: session.session_id,
            created_at: session.created_at,
            state: session.state,
            server_count: session.servers.len(),
            message_count: session.message_history.len(),
        }
    }
}

} // verus!
