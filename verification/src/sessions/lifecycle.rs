//! Server lifecycle within a session: Pending → Active → Draining → Removed,
//! and the routes that lead to servers.
//!
//! Each operation changes a loaded session; when it succeeds (for
//! `remove_route`: when a route was removed; for `check_draining_timeouts`:
//! when a server timed out) the caller writes the session back.
use crate::sessions::manager::{ManagerError, SessionManager, manager_error_text};
use crate::sessions::models::{
    ServerId, ServerInfo, ServerStatus, Session, Timestamp, elapsed_secs, elapsed_seconds, now,
    status_rank,
};
use crate::strmap::{StrMap, lemma_update_at, map_of};
use crate::text::{string_from, views};
use vstd::prelude::*;
use vstd::string::*;

verus! {

/// An error of a lifecycle operation.
#[derive(Debug, Clone, PartialEq, Eq)]
pub enum LifecycleError {
    /// No server with this id is registered.
    NotFound(ServerId),
    /// The server's status does not allow the operation; the message says why.
    InvalidTransition(String),
    /// Loading or saving the session failed.
    Manager(ManagerError),
}

/// The message of a lifecycle error.
pub open spec fn lifecycle_error_text(e: LifecycleError) -> Seq<char> {
    match e {
        LifecycleError::NotFound(id) => "Server not found: "@ + id@,
        LifecycleError::InvalidTransition(m) => "Invalid state transition: "@ + m@,
        LifecycleError::Manager(me) => "Manager error: "@ + manager_error_text(me),
    }
}

impl LifecycleError {
    /// The error's message.
    pub fn message(&self) -> (r: String)
        ensures
            r@ == lifecycle_error_text(*self),
    {
        match self {
            LifecycleError::NotFound(id) => {
                let mut t = string_from("Server not found: ");
                t.append(id.as_str());
                t
            },
            LifecycleError::InvalidTransition(m) => {
                let mut t = string_from("Invalid state transition: ");
                t.append(m.as_str());
                t
            },
            LifecycleError::Manager(me) => {
                let mut t = string_from("Manager error: ");
                t.append(me.message().as_str());
                t
            },
        }
    }
}

/// The debug name of a status.
pub open spec fn status_name(s: ServerStatus) -> Seq<char> {
    match s {
        ServerStatus::Pending => seq!['P', 'e', 'n', 'd', 'i', 'n', 'g'],
        ServerStatus::Active => seq!['A', 'c', 't', 'i', 'v', 'e'],
        ServerStatus::Draining => seq!['D', 'r', 'a', 'i', 'n', 'i', 'n', 'g'],
        ServerStatus::Removed => seq!['R', 'e', 'm', 'o', 'v', 'e', 'd'],
    }
}

/// The debug name of a status.
pub fn status_str(s: ServerStatus) -> (r: &'static str)
    ensures
        r@ == status_name(s),
{
    match s {
        ServerStatus::Pending => {
            proof {
                reveal_strlit("Pending");
            }
            "Pending"
        },
        ServerStatus::Active => {
            proof {
                reveal_strlit("Active");
            }
            "Active"
        },
        ServerStatus::Draining => {
            proof {
                reveal_strlit("Draining");
            }
            "Draining"
        },
        ServerStatus::Removed => {
            proof {
                reveal_strlit("Removed");
            }
            "Removed"
        },
    }
}

/// How many bytes UTF-8 takes for `c`.
pub open spec fn utf8_width(c: char) -> int {
    let u = c as u32;
    if u < 0x80 {
        1
    } else if u < 0x800 {
        2
    } else if u < 0x10000 {
        3
    } else {
        4
    }
}

/// Whether the first `budget` bytes of `s` end on a character boundary (or
/// `s` is shorter than that).
pub open spec fn prefix_fits(s: Seq<char>, budget: int) -> bool
    decreases s.len(),
{
    if budget <= 0 || s.len() == 0 {
        true
    } else if utf8_width(s[0]) > budget {
        false
    } else {
        prefix_fits(s.drop_first(), budget - utf8_width(s[0]))
    }
}

/// The characters of `s` in its first `budget` bytes.
pub open spec fn byte_prefix(s: Seq<char>, budget: int) -> Seq<char>
    decreases s.len(),
{
    if budget <= 0 || s.len() == 0 || utf8_width(s[0]) > budget {
        seq![]
    } else {
        seq![s[0]] + byte_prefix(s.drop_first(), budget - utf8_width(s[0]))
    }
}

/// The name given to a server registered without one: `server-` and the
/// first eight bytes of its id.
pub open spec fn default_server_name(id: Seq<char>) -> Seq<char> {
    seq!['s', 'e', 'r', 'v', 'e', 'r', '-'] + byte_prefix(id, 8)
}

fn utf8_width_exec(c: char) -> (w: usize)
    ensures
        w == utf8_width(c),
{
    let u = c as u32;
    if u < 0x80 {
        1
    } else if u < 0x800 {
        2
    } else if u < 0x10000 {
        3
    } else {
        4
    }
}

/// `server-` and the characters in the first eight bytes of `id`.
fn default_name(id: &str) -> (r: String)
    requires
        prefix_fits(id@, 8),
    ensures
        r@ == default_server_name(id@),
{
    let cs = crate::text::chars_of(id);
    let mut out: Vec<char> = vec!['s', 'e', 'r', 'v', 'e', 'r', '-'];
    let mut i: usize = 0;
    let mut budget: usize = 8;
    assert(cs@.subrange(0, cs.len() as int) =~= id@);
    while i < cs.len() && budget > 0 && utf8_width_exec(cs[i]) <= budget
        invariant
            i <= cs.len(),
            budget <= 8,
            out@ + byte_prefix(cs@.subrange(i as int, cs.len() as int), budget as int)
                == default_server_name(id@),
            cs@ == id@,
        decreases cs.len() - i,
    {
        let ghost rest = cs@.subrange(i as int, cs.len() as int);
        assert(rest.drop_first() =~= cs@.subrange(i + 1, cs.len() as int));
        assert(rest[0] == cs@[i as int]);
        let w = utf8_width_exec(cs[i]);
        out.push(cs[i]);
        budget = budget - w;
        i = i + 1;
        assert(out@ + byte_prefix(cs@.subrange(i as int, cs.len() as int), budget as int)
            =~= default_server_name(id@));
    }
    assert(byte_prefix(cs@.subrange(i as int, cs.len() as int), budget as int) =~= Seq::<
        char,
    >::empty());
    crate::text::string_of(&out)
}

/// The server entry `info` with another status.
pub open spec fn with_status(info: ServerInfo, s: ServerStatus) -> ServerInfo {
    ServerInfo { status: s, ..info }
}

/// `a` and `b` agree on everything but servers and the update time.
pub open spec fn same_but_servers(a: Session, b: Session) -> bool {
    &&& a.session_id == b.session_id
    &&& a.name == b.name
    &&& a.created_at == b.created_at
    &&& a.state == b.state
    &&& a.routing_table == b.routing_table
    &&& a.message_history == b.message_history
    &&& a.cache == b.cache
    &&& a.config == b.config
}

/// `a` and `b` agree on everything but routes and the update time.
pub open spec fn same_but_routes(a: Session, b: Session) -> bool {
    &&& a.session_id == b.session_id
    &&& a.name == b.name
    &&& a.created_at == b.created_at
    &&& a.state == b.state
    &&& a.servers == b.servers
    &&& a.message_history == b.message_history
    &&& a.cache == b.cache
    &&& a.config == b.config
}

/// The outcome of moving server `id` from status `from` to `to`: it succeeds
/// exactly when the server is registered with status `from`; then only that
/// server changes (its status, and with `since` its draining time);
/// otherwise nothing changes and the error names the server or the status.
pub open spec fn status_step(
    old: Session,
    new: Session,
    id: Seq<char>,
    from: ServerStatus,
    to: ServerStatus,
    since: Option<Timestamp>,
    verb: Seq<char>,
    r: Result<(), LifecycleError>,
) -> bool {
    match r {
        Ok(()) => {
            &&& old.servers@.contains_key(id)
            &&& old.servers@[id].status == from
            &&& same_but_servers(old, new)
            &&& new.servers@ == old.servers@.insert(
                id,
                ServerInfo {
                    status: to,
                    draining_since: match since {
                        Some(t) => Some(t),
                        None => old.servers@[id].draining_since,
                    },
                    ..old.servers@[id]
                },
            )
        },
        Err(LifecycleError::NotFound(x)) => {
            &&& x@ == id
            &&& !old.servers@.contains_key(id)
            &&& new == old
        },
        Err(LifecycleError::InvalidTransition(msg)) => {
            &&& old.servers@.contains_key(id)
            &&& old.servers@[id].status != from
            &&& msg@ == seq!['C', 'a', 'n', 'n', 'o', 't', ' '] + verb + seq![
                ' ',
                's',
                'e',
                'r',
                'v',
                'e',
                'r',
                ' ',
                'i',
                'n',
                ' ',
            ] + status_name(old.servers@[id].status) + seq![' ', 's', 't', 'a', 't', 'e']
            &&& new == old
        },
        Err(LifecycleError::Manager(_)) => false,
    }
}

/// Whether a draining server has outstayed `timeout` seconds at `now`.
pub open spec fn expired(info: ServerInfo, now: Timestamp, timeout: u64) -> bool {
    &&& info.status == ServerStatus::Draining
    &&& info.draining_since is Some
    &&& elapsed_secs(now, info.draining_since.unwrap()) > (#[verifier::truncate] (timeout as i64)) as int
}

/// A server entry after the timeout check.
pub open spec fn expire_entry(e: (Seq<char>, ServerInfo), now: Timestamp, timeout: u64) -> (
    Seq<char>,
    ServerInfo,
) {
    if expired(e.1, now, timeout) {
        (e.0, with_status(e.1, ServerStatus::Removed))
    } else {
        e
    }
}

/// The ids of the servers that time out, in order.
pub open spec fn expired_ids(s: Seq<(Seq<char>, ServerInfo)>, now: Timestamp, timeout: u64) -> Seq<
    Seq<char>,
>
    decreases s.len(),
{
    if s.len() == 0 {
        seq![]
    } else {
        expired_ids(s.drop_last(), now, timeout) + if expired(s.last().1, now, timeout) {
            seq![s.last().0]
        } else {
            seq![]
        }
    }
}

/// Drives the lifecycle of the servers of a session.
pub struct ServerLifecycle<'a> {
    session_manager: &'a SessionManager,
}

impl<'a> ServerLifecycle<'a> {
    /// The manager whose sessions are changed.
    pub closed spec fn manager(&self) -> SessionManager {
        *self.session_manager
    }

    /// Lifecycle operations for sessions of `session_manager`.
    pub fn new(session_manager: &'a SessionManager) -> (l: Self)
        ensures
            l.manager() == *session_manager,
    {
        ServerLifecycle { session_manager }
    }

    /// The manager whose sessions are changed.
    pub fn session_manager(&self) -> (r: &'a SessionManager)
        ensures
            *r == self.manager(),
    {
        self.session_manager
    }

    /// Registers a server as Pending, named `server-` and the first eight
    /// bytes of its id.
    pub fn register_server(
        &self,
        session: &mut Session,
        server_id: ServerId,
        tools: Vec<String>,
        metadata: StrMap<serde_json::Value>,
    ) -> (r: Result<(), LifecycleError>)
        requires
            old(session).wf(),
            !old(session).servers@.contains_key(server_id@) ==> prefix_fits(server_id@, 8),
        ensures
            final(session).wf(),
            old(session).routes_valid() ==> final(session).routes_valid(),
            register_outcome(*old(session), *final(session), server_id@, default_server_name(server_id@), tools, metadata, r),
    {
        self.register_server_with_name(session, server_id, None, tools, metadata)
    }

    /// Registers a server as Pending under `name` (default: `server-` and the
    /// first eight bytes of its id).  Fails, changing nothing, when the id is
    /// taken.
    pub fn register_server_with_name(
        &self,
        session: &mut Session,
        server_id: ServerId,
        name: Option<String>,
        tools: Vec<String>,
        metadata: StrMap<serde_json::Value>,
    ) -> (r: Result<(), LifecycleError>)
        requires
            old(session).wf(),
            name is None && !old(session).servers@.contains_key(server_id@) ==> prefix_fits(server_id@, 8),
        ensures
            final(session).wf(),
            old(session).routes_valid() ==> final(session).routes_valid(),
            register_outcome(
                *old(session),
                *final(session),
                server_id@,
                match name {
                    Some(n) => n@,
                    None => default_server_name(server_id@),
                },
                tools,
                metadata,
                r,
            ),
    {
        if session.servers.contains_key(server_id.as_str()) {
            let mut msg = string_from("Server ");
            msg.append(server_id.as_str());
            msg.append(" already exists");
            return Err(LifecycleError::InvalidTransition(msg));
        }
        let server_name = match name {
            Some(n) => n,
            None => default_name(server_id.as_str()),
        };
        let info = ServerInfo {
            id: server_id.clone(),
            name: server_name,
            status: ServerStatus::Pending,
            tools,
            metadata,
            draining_since: None,
        };
        let _ = session.servers.insert(server_id, info);
        session.touch();
        Ok(())
    }

    /// Removes a server and every route to it.
    pub fn deregister_server(&self, session: &mut Session, server_id: &str) -> (r: Result<
        (),
        LifecycleError,
    >)
        requires
            old(session).wf(),
        ensures
            final(session).wf(),
            old(session).routes_valid() ==> final(session).routes_valid(),
            match r {
                Ok(()) => {
                    &&& old(session).servers@.contains_key(server_id@)
                    &&& final(session).servers@ == old(session).servers@.remove(server_id@)
                    &&& final(session).routing_table@ == old(session).routing_table@.restrict(
                        old(session).routing_table@.dom().filter(
                            |k: Seq<char>| old(session).routing_table@[k] != server_id@,
                        ),
                    )
                    &&& final(session).session_id == old(session).session_id
                    &&& final(session).state == old(session).state
                    &&& final(session).message_history == old(session).message_history
                    &&& final(session).cache == old(session).cache
                    &&& final(session).config == old(session).config
                },
                Err(LifecycleError::NotFound(x)) => {
                    &&& x@ == server_id@
                    &&& !old(session).servers@.contains_key(server_id@)
                    &&& *final(session) == *old(session)
                },
                Err(_) => false,
            },
    {
        if !session.servers.contains_key(server_id) {
            return Err(LifecycleError::NotFound(string_from(server_id)));
        }
        let _ = session.servers.remove(server_id);
        let _ = session.routing_table.remove_routes_for_server(server_id);
        session.touch();
        Ok(())
    }

    /// Moves a server from `from` to `to`, recording `since` as its draining
    /// time when given.
    fn step(
        &self,
        session: &mut Session,
        server_id: &str,
        from: ServerStatus,
        to: ServerStatus,
        since: Option<Timestamp>,
        verb: &str,
    ) -> (r: Result<(), LifecycleError>)
        requires
            old(session).wf(),
        ensures
            final(session).wf(),
            old(session).routes_valid() ==> final(session).routes_valid(),
            status_step(*old(session), *final(session), server_id@, from, to, since, verb@, r),
    {
        match session.servers.find(server_id) {
            None => Err(LifecycleError::NotFound(string_from(server_id))),
            Some(i) => {
                let ghost before = session.servers.pairs();
                proof {
                    crate::strmap::lemma_key_pos(before, server_id@, i as int);
                }
                let current = session.servers.entries()[i].1.status;
                assert(current == before[i as int].1.status);
                if current != from {
                    let mut msg = string_from("Cannot ");
                    msg.append(verb);
                    msg.append(" server in ");
                    msg.append(status_str(current));
                    msg.append(" state");
                    proof {
                        reveal_strlit("Cannot ");
                        reveal_strlit(" server in ");
                        reveal_strlit(" state");
                        assert(msg@ =~= seq!['C', 'a', 'n', 'n', 'o', 't', ' '] + verb@ + seq![
                            ' ',
                            's',
                            'e',
                            'r',
                            'v',
                            'e',
                            'r',
                            ' ',
                            'i',
                            'n',
                            ' ',
                        ] + status_name(current) + seq![' ', 's', 't', 'a', 't', 'e']);
                    }
                    return Err(LifecycleError::InvalidTransition(msg));
                }
                let info = session.servers.value_at_mut(i);
                info.status = to;
                match since {
                    Some(t) => {
                        info.draining_since = Some(t);
                    },
                    None => {},
                }
                proof {
                    lemma_update_at(before, i as int, *info);
                }
                session.touch();
                Ok(())
            },
        }
    }

    /// Pending → Active.
    pub fn activate_server(&self, session: &mut Session, server_id: &str) -> (r: Result<
        (),
        LifecycleError,
    >)
        requires
            old(session).wf(),
        ensures
            final(session).wf(),
            old(session).routes_valid() ==> final(session).routes_valid(),
            status_step(
                *old(session),
                *final(session),
                server_id@,
                ServerStatus::Pending,
                ServerStatus::Active,
                None,
                seq!['a', 'c', 't', 'i', 'v', 'a', 't', 'e'],
                r,
            ),
    {
        proof {
            reveal_strlit("activate");
            assert("activate"@ =~= seq!['a', 'c', 't', 'i', 'v', 'a', 't', 'e']);
        }
        self.step(session, server_id, ServerStatus::Pending, ServerStatus::Active, None, "activate")
    }

    /// Active → Draining, recording `now` as the start of draining.
    pub fn drain_server_at(&self, session: &mut Session, server_id: &str, now: Timestamp) -> (r:
        Result<(), LifecycleError>)
        requires
            old(session).wf(),
        ensures
            final(session).wf(),
            old(session).routes_valid() ==> final(session).routes_valid(),
            status_step(
                *old(session),
                *final(session),
                server_id@,
                ServerStatus::Active,
                ServerStatus::Draining,
                Some(now),
                seq!['d', 'r', 'a', 'i', 'n'],
                r,
            ),
    {
        proof {
            reveal_strlit("drain");
            assert("drain"@ =~= seq!['d', 'r', 'a', 'i', 'n']);
        }
        self.step(session, server_id, ServerStatus::Active, ServerStatus::Draining, Some(now), "drain")
    }

    /// Active → Draining, from the current time.
    pub fn drain_server(&self, session: &mut Session, server_id: &str) -> (r: Result<
        (),
        LifecycleError,
    >)
        requires
            old(session).wf(),
        ensures
            final(session).wf(),
            old(session).routes_valid() ==> final(session).routes_valid(),
            exists|t: Timestamp|
                status_step(
                    *old(session),
                    *final(session),
                    server_id@,
                    ServerStatus::Active,
                    ServerStatus::Draining,
                    Some(t),
                    seq!['d', 'r', 'a', 'i', 'n'],
                    r,
                ),
    {
        let t = now();
        self.drain_server_at(session, server_id, t)
    }

    /// Draining → Removed.
    pub fn remove_server(&self, session: &mut Session, server_id: &str) -> (r: Result<
        (),
        LifecycleError,
    >)
        requires
            old(session).wf(),
        ensures
            final(session).wf(),
            old(session).routes_valid() ==> final(session).routes_valid(),
            status_step(
                *old(session),
                *final(session),
                server_id@,
                ServerStatus::Draining,
                ServerStatus::Removed,
                None,
                seq!['r', 'e', 'm', 'o', 'v', 'e'],
                r,
            ),
    {
        proof {
            reveal_strlit("remove");
            assert("remove"@ =~= seq!['r', 'e', 'm', 'o', 'v', 'e']);
        }
        self.step(session, server_id, ServerStatus::Draining, ServerStatus::Removed, None, "remove")
    }

    /// Moves every draining server that has outstayed the session's drain
    /// timeout at `now` to Removed; returns their ids in order.
    pub fn check_draining_timeouts_at(&self, session: &mut Session, now: Timestamp) -> (r: Vec<
        ServerId,
    >)
        requires
            old(session).wf(),
        ensures
            final(session).wf(),
            old(session).routes_valid() ==> final(session).routes_valid(),
            views(r@) == expired_ids(old(session).servers.pairs(), now, old(session).config.drain_timeout),
            final(session).servers.pairs() == old(session).servers.pairs().map_values(
                |e: (Seq<char>, ServerInfo)| expire_entry(e, now, old(session).config.drain_timeout),
            ),
            same_but_servers(*old(session), *final(session)),
            r@.len() == 0 ==> *final(session) == *old(session),
    {
        let timeout = session.config.drain_timeout;
        let limit: i128 = (#[verifier::truncate] (timeout as i64)) as i128;
        let ghost start = session.servers.pairs();
        let ghost f = |e: (Seq<char>, ServerInfo)| expire_entry(e, now, timeout);
        let n = session.servers.len();
        let mut timed_out: Vec<ServerId> = Vec::new();
        let mut i: usize = 0;
        while i < n
            invariant
                i <= n,
                n == start.len(),
                timeout == old(session).config.drain_timeout,
                limit == (#[verifier::truncate] (timeout as i64)) as int,
                start == old(session).servers.pairs(),
                session.servers.pairs().len() == n,
                forall|j: int| 0 <= j < n ==> #[trigger] session.servers.pairs()[j] == if j < i {
                    expire_entry(start[j], now, timeout)
                } else {
                    start[j]
                },
                session.servers.wf(),
                views(timed_out@) == expired_ids(start.subrange(0, i as int), now, timeout),
                same_but_servers(*old(session), *session),
                session.updated_at == old(session).updated_at,
                timed_out@.len() == 0 ==> session.servers == old(session).servers,
            decreases n - i,
        {
            let ghost before = session.servers.pairs();
            let ghost before_ids = views(timed_out@);
            proof {
                assert(start.subrange(0, i + 1).drop_last() =~= start.subrange(0, i as int));
                assert(start.subrange(0, i + 1).last() == start[i as int]);
            }
            let key = session.servers.entries()[i].0.clone();
            assert(key@ == before[i as int].0);
            let current = &session.servers.entries()[i].1;
            assert(*current == before[i as int].1);
            assert(before[i as int] == start[i as int]);
            let hit = current.status == ServerStatus::Draining && match current.draining_since {
                Some(t) => elapsed_seconds(now, t) > limit,
                None => false,
            };
            assert(hit == expired(start[i as int].1, now, timeout));
            if hit {
                let info = session.servers.value_at_mut(i);
                info.status = ServerStatus::Removed;
                proof {
                    assert((before[i as int].0, *info) == expire_entry(start[i as int], now, timeout));
                    lemma_update_at(before, i as int, *info);
                }
                timed_out.push(key);
                assert(views(timed_out@) =~= before_ids.push(start[i as int].0));
            } else {
                assert(start[i as int] == expire_entry(start[i as int], now, timeout));
            }
            assert(views(timed_out@) =~= expired_ids(start.subrange(0, i + 1), now, timeout));
            i = i + 1;
        }
        assert(start.subrange(0, n as int) =~= start);
        assert(session.servers.pairs() =~= start.map_values(f));
        proof {
            let p = session.servers.pairs();
            assert forall|k: Seq<char>| #[trigger] crate::strmap::has_key(p, k) == crate::strmap::has_key(start, k) by {
                if crate::strmap::has_key(p, k) {
                    let j = choose|j: int| 0 <= j < p.len() && #[trigger] p[j].0 == k;
                    assert(start[j].0 == k);
                }
                if crate::strmap::has_key(start, k) {
                    let j = choose|j: int| 0 <= j < start.len() && #[trigger] start[j].0 == k;
                    assert(p[j].0 == k);
                }
            }
        }
        if timed_out.len() > 0 {
            session.touch();
        }
        timed_out
    }

    /// Moves every draining server that has outstayed the drain timeout to
    /// Removed, as of the current time; returns their ids in order.
    pub fn check_draining_timeouts(&self, session: &mut Session) -> (r: Vec<ServerId>)
        requires
            old(session).wf(),
        ensures
            final(session).wf(),
            old(session).routes_valid() ==> final(session).routes_valid(),
            exists|t: Timestamp|
                {
                    &&& views(r@) == expired_ids(
                        old(session).servers.pairs(),
                        t,
                        old(session).config.drain_timeout,
                    )
                    &&& final(session).servers.pairs() == old(session).servers.pairs().map_values(
                        |e: (Seq<char>, ServerInfo)|
                            expire_entry(e, t, old(session).config.drain_timeout),
                    )
                },
            same_but_servers(*old(session), *final(session)),
            r@.len() == 0 ==> *final(session) == *old(session),
    {
        let t = now();
        self.check_draining_timeouts_at(session, t)
    }

    /// Sets a server's status by its lifecycle step; `Pending` cannot be set.
    pub fn update_server_status(
        &self,
        session: &mut Session,
        server_id: &str,
        new_status: ServerStatus,
    ) -> (r: Result<(), LifecycleError>)
        requires
            old(session).wf(),
        ensures
            final(session).wf(),
            old(session).routes_valid() ==> final(session).routes_valid(),
            new_status == ServerStatus::Active ==> status_step(
                *old(session),
                *final(session),
                server_id@,
                ServerStatus::Pending,
                ServerStatus::Active,
                None,
                seq!['a', 'c', 't', 'i', 'v', 'a', 't', 'e'],
                r,
            ),
            new_status == ServerStatus::Draining ==> exists|t: Timestamp|
                status_step(
                    *old(session),
                    *final(session),
                    server_id@,
                    ServerStatus::Active,
                    ServerStatus::Draining,
                    Some(t),
                    seq!['d', 'r', 'a', 'i', 'n'],
                    r,
                ),
            new_status == ServerStatus::Removed ==> status_step(
                *old(session),
                *final(session),
                server_id@,
                ServerStatus::Draining,
                ServerStatus::Removed,
                None,
                seq!['r', 'e', 'm', 'o', 'v', 'e'],
                r,
            ),
            new_status == ServerStatus::Pending ==> {
                &&& *final(session) == *old(session)
                &&& r matches Err(LifecycleError::InvalidTransition(msg))
                &&& msg@ == "Cannot set status to Pending"@
            },
    {
        match new_status {
            ServerStatus::Active => self.activate_server(session, server_id),
            ServerStatus::Draining => self.drain_server(session, server_id),
            ServerStatus::Removed => self.remove_server(session, server_id),
            ServerStatus::Pending => Err(
                LifecycleError::InvalidTransition(string_from("Cannot set status to Pending")),
            ),
        }
    }

    /// Routes `capability` to a registered server.
    pub fn add_route(&self, session: &mut Session, capability: &str, server_id: ServerId) -> (r:
        Result<(), LifecycleError>)
        requires
            old(session).wf(),
        ensures
            final(session).wf(),
            old(session).routes_valid() ==> final(session).routes_valid(),
            match r {
                Ok(()) => {
                    &&& old(session).servers@.contains_key(server_id@)
                    &&& final(session).routing_table@ == old(session).routing_table@.insert(
                        capability@,
                        server_id@,
                    )
                    &&& same_but_routes(*old(session), *final(session))
                },
                Err(LifecycleError::NotFound(x)) => {
                    &&& x@ == server_id@
                    &&& !old(session).servers@.contains_key(server_id@)
                    &&& *final(session) == *old(session)
                },
                Err(_) => false,
            },
    {
        if !session.servers.contains_key(server_id.as_str()) {
            return Err(LifecycleError::NotFound(server_id));
        }
        session.routing_table.add_route(capability, server_id);
        session.touch();
        Ok(())
    }

    /// Removes the route of `capability`, returning its server.
    pub fn remove_route(&self, session: &mut Session, capability: &str) -> (r: Option<ServerId>)
        requires
            old(session).wf(),
        ensures
            final(session).wf(),
            old(session).routes_valid() ==> final(session).routes_valid(),
            final(session).routing_table@ == old(session).routing_table@.remove(capability@),
            same_but_routes(*old(session), *final(session)),
            match r {
                Some(s) => old(session).routing_table@.contains_key(capability@) && s@ == old(
                    session,
                ).routing_table@[capability@],
                None => !old(session).routing_table@.contains_key(capability@) && *final(session)
                    == *old(session),
            },
    {
        if session.routing_table.lookup(capability).is_none() {
            return None;
        }
        let removed = session.routing_table.remove_route(capability);
        session.touch();
        removed
    }

    /// The server that `capability` is routed to.
    pub fn lookup_route(&self, session: &Session, capability: &str) -> (r: Option<ServerId>)
        requires
            session.wf(),
        ensures
            match r {
                Some(s) => session.routing_table@.contains_key(capability@) && s@
                    == session.routing_table@[capability@],
                None => !session.routing_table@.contains_key(capability@),
            },
    {
        match session.routing_table.lookup(capability) {
            Some(s) => Some(s.clone()),
            None => None,
        }
    }
}

/// The outcome of registering server `id` under `name`: it succeeds exactly
/// when the id is free, adding a Pending entry and changing nothing else;
/// otherwise nothing changes.
pub open spec fn register_outcome(
    old: Session,
    new: Session,
    id: Seq<char>,
    name: Seq<char>,
    tools: Vec<String>,
    metadata: StrMap<serde_json::Value>,
    r: Result<(), LifecycleError>,
) -> bool {
    match r {
        Ok(()) => {
            &&& !old.servers@.contains_key(id)
            &&& same_but_servers(old, new)
            &&& new.servers@.dom() == old.servers@.dom().insert(id)
            &&& forall|k: Seq<char>| #[trigger] old.servers@.contains_key(k) ==> new.servers@[k] == old.servers@[k]
            &&& new.servers@[id].id@ == id
            &&& new.servers@[id].name@ == name
            &&& new.servers@[id].status == ServerStatus::Pending
            &&& new.servers@[id].tools == tools
            &&& new.servers@[id].metadata == metadata
            &&& new.servers@[id].draining_since is None
        },
        Err(LifecycleError::InvalidTransition(msg)) => {
            &&& old.servers@.contains_key(id)
            &&& msg@ == "Server "@ + id + " already exists"@
            &&& new == old
        },
        Err(_) => false,
    }
}

/// Lifecycle steps never move a server backwards: after an activation,
/// drain or removal, every server's status is at least as far along as
/// before.
pub proof fn law_steps_move_forward(
    old: Session,
    new: Session,
    id: Seq<char>,
    from: ServerStatus,
    to: ServerStatus,
    since: Option<Timestamp>,
    verb: Seq<char>,
    r: Result<(), LifecycleError>,
    k: Seq<char>,
)
    requires
        status_step(old, new, id, from, to, since, verb, r),
        status_rank(to) == status_rank(from) + 1,
        old.servers@.contains_key(k),
    ensures
        new.servers@.contains_key(k),
        status_rank(new.servers@[k].status) >= status_rank(old.servers@[k].status),
{
}

/// The timeout check only ever removes draining servers: every server keeps
/// its status unless it was draining, and then it is removed.
pub proof fn law_timeout_only_removes_draining(
    s: Seq<(Seq<char>, ServerInfo)>,
    now: Timestamp,
    timeout: u64,
    j: int,
)
    requires
        0 <= j < s.len(),
    ensures
        ({
            let e = expire_entry(s[j], now, timeout);
            &&& e.0 == s[j].0
            &&& (e.1.status == s[j].1.status || (s[j].1.status == ServerStatus::Draining
                && e.1.status == ServerStatus::Removed))
        }),
{
}

} // verus!
