//! The agent's run-time record of servers: which servers it has registered,
//! in which session each lives and whether it runs; and what a routed message
//! leaves in a session's history.
//!
//! Sessions are loaded and written back by the caller; creating a server of a
//! type and routing a message are the work of the server and router
//! components, whose results the functions here take as arguments.
use crate::llm::json_as_str;
use crate::sea::config::SeaConfig;
use crate::sea::error::SeaError;
use crate::sessions::lifecycle::{
    LifecycleError, ServerLifecycle, lifecycle_error_text, same_but_servers, status_step,
};
use crate::sessions::manager::{SessionManager, uuid_string, uuid_text, uuid_text_upto};
use crate::sessions::models::{
    MessageRole, ServerStatus, Session, SessionId, Timestamp, new_uuid, now,
};
use crate::strmap::{StrMap, distinct_keys, map_of};
use crate::text::{
    chars_of, decimal, decimal_string, join, join_strings, slice, string_from, string_of, views,
};
use vstd::prelude::*;
use vstd::string::*;

verus! {

/// A registered server as the agent keeps it.
#[derive(Debug)]
pub struct ServerHolder {
    /// The name of the server's type.
    pub server_type: String,
    pub name: String,
    /// The session the server is registered in.
    pub session_id: SessionId,
    pub running: bool,
}

/// What the agent shows of a server.
#[derive(Debug, Clone)]
pub struct ServerInfo {
    pub id: String,
    pub name: String,
    pub server_type: String,
    pub session_id: SessionId,
    pub running: bool,
}

/// `info` shows the server `e` (its id and holder).
pub open spec fn shows(info: ServerInfo, e: (Seq<char>, ServerHolder)) -> bool {
    &&& info.id@ == e.0
    &&& info.name@ == e.1.name@
    &&& info.server_type@ == e.1.server_type@
    &&& info.session_id == e.1.session_id
    &&& info.running == e.1.running
}

/// `Server '<id>' not found`.
pub open spec fn not_found_text(id: Seq<char>) -> Seq<char> {
    "Server '"@ + id + "' not found"@
}

/// `Server '<id>' is already running`.
pub open spec fn already_running_text(id: Seq<char>) -> Seq<char> {
    "Server '"@ + id + "' is already running"@
}

/// `Server '<id>' is not running`.
pub open spec fn not_running_text(id: Seq<char>) -> Seq<char> {
    "Server '"@ + id + "' is not running"@
}

/// `Server '` + `id` + `rest`.
fn server_quote(id: &str, rest: &str) -> (r: String)
    ensures
        r@ == "Server '"@ + id@ + rest@,
{
    let mut t = string_from("Server '");
    t.append(id);
    t.append(rest);
    t
}

/// `serde_json::Value::String`: a JSON string, whose `as_str` gives the text
/// back.
#[verifier::external_body]
fn json_string(s: String) -> (v: serde_json::Value)
    ensures
        json_as_str(v) == Some(s@),
{
    serde_json::Value::String(s)
}

/// The name of a server registered without one: `<type>-server`.
pub open spec fn type_server_name(ty: Seq<char>) -> Seq<char> {
    ty + "-server"@
}

/// The id of a server registered without one: `<type>-` and the first eight
/// characters of the text of UUID `u`.
pub open spec fn type_server_id(ty: Seq<char>, u: u128) -> Seq<char> {
    ty + "-"@ + uuid_text(u).subrange(0, 8)
}

/// The routing table `rt` with `capability:<tool>` routed to `id` for each
/// tool in turn.
pub open spec fn with_tool_routes(rt: Map<Seq<char>, Seq<char>>, tools: Seq<Seq<char>>, id: Seq<char>) -> Map<
    Seq<char>,
    Seq<char>,
>
    decreases tools.len(),
{
    if tools.len() == 0 {
        rt
    } else {
        with_tool_routes(rt, tools.drop_last(), id).insert("capability:"@ + tools.last(), id)
    }
}

proof fn lemma_uuid_text_len(id: u128, n: int)
    requires
        0 <= n,
    ensures
        uuid_text_upto(id, n).len() >= n,
    decreases n,
{
    if n > 0 {
        lemma_uuid_text_len(id, n - 1);
    }
}

/// `<type>-server`.
pub fn server_name_for_type(server_type: &str) -> (r: String)
    ensures
        r@ == type_server_name(server_type@),
{
    let mut t = string_from(server_type);
    t.append("-server");
    t
}

/// `<type>-` and the first eight characters of the text of UUID `u`.
pub fn server_id_for_type(server_type: &str, u: u128) -> (r: String)
    ensures
        r@ == type_server_id(server_type@, u),
{
    let full = chars_of(uuid_string(u).as_str());
    proof {
        lemma_uuid_text_len(u, 32);
    }
    let prefix = string_of(&slice(&full, 0, 8));
    let mut t = string_from(server_type);
    t.append("-");
    t.append(prefix.as_str());
    t
}

/// `capability:<tool>`.
fn capability_of(tool: &str) -> (r: String)
    ensures
        r@ == "capability:"@ + tool@,
{
    let mut t = string_from("capability:");
    t.append(tool);
    t
}

/// The metadata a server is registered with: its type under `server_type`,
/// then its name under `server_name`, both as JSON strings.
pub open spec fn type_metadata(m: StrMap<serde_json::Value>, ty: Seq<char>, name: Seq<char>) -> bool {
    &&& m.wf()
    &&& m.pairs().len() == 2
    &&& m.pairs()[0].0 == "server_type"@
    &&& json_as_str(m.pairs()[0].1) == Some(ty)
    &&& m.pairs()[1].0 == "server_name"@
    &&& json_as_str(m.pairs()[1].1) == Some(name)
}

/// `a` and `b` agree on everything but servers, routes and the update time.
pub open spec fn same_but_servers_and_routes(a: Session, b: Session) -> bool {
    &&& a.session_id == b.session_id
    &&& a.name == b.name
    &&& a.created_at == b.created_at
    &&& a.state == b.state
    &&& a.message_history == b.message_history
    &&& a.cache == b.cache
    &&& a.config == b.config
}

/// The outcome of registering server `id` of type `ty` under `name`, with
/// `tools`, in a session.  It succeeds exactly when the session has no
/// server `id`: the session gains a Pending entry for it, with the tools and
/// the type metadata, and a route `capability:<tool>` to it for each tool;
/// the agent records it as not running in that session.  Otherwise nothing
/// changes and the error gives the lifecycle's message.
pub open spec fn register_result(
    old_a: SeaAgent,
    new_a: SeaAgent,
    old_s: Session,
    new_s: Session,
    ty: Seq<char>,
    id: Seq<char>,
    name: Seq<char>,
    tools: Vec<String>,
    r: Result<String, SeaError>,
) -> bool {
    match r {
        Ok(x) => {
            &&& x@ == id
            &&& !old_s.servers@.contains_key(id)
            &&& same_but_servers_and_routes(old_s, new_s)
            &&& new_s.servers@.dom() == old_s.servers@.dom().insert(id)
            &&& forall|k: Seq<char>| #[trigger] old_s.servers@.contains_key(k) ==> new_s.servers@[k] == old_s.servers@[k]
            &&& new_s.servers@[id].id@ == id
            &&& new_s.servers@[id].name@ == name
            &&& new_s.servers@[id].status == ServerStatus::Pending
            &&& new_s.servers@[id].tools == tools
            &&& new_s.servers@[id].draining_since is None
            &&& type_metadata(new_s.servers@[id].metadata, ty, name)
            &&& new_s.routing_table@ == with_tool_routes(old_s.routing_table@, views(tools@), id)
            &&& new_a.runners() == old_a.runners().insert(id, new_a.runners()[id])
            &&& new_a.runners()[id].server_type@ == ty
            &&& new_a.runners()[id].name@ == name
            &&& new_a.runners()[id].session_id == old_s.session_id
            &&& !new_a.runners()[id].running
        },
        Err(SeaError::Server(m)) => {
            &&& old_s.servers@.contains_key(id)
            &&& m@ == "Invalid state transition: "@ + ("Server "@ + id + " already exists"@)
            &&& new_s == old_s
            &&& new_a.runners() == old_a.runners()
        },
        Err(_) => false,
    }
}

/// Whether taking over server entry `e` of type `t` sets it back from
/// Active to Pending.
pub open spec fn resets(e: (Seq<char>, crate::sessions::models::ServerInfo), t: Option<String>) -> bool {
    t is Some && e.1.status == ServerStatus::Active
}

/// Server entry `e` after it was taken over with type `t`.
pub open spec fn restored_entry(e: (Seq<char>, crate::sessions::models::ServerInfo), t: Option<String>) -> (
    Seq<char>,
    crate::sessions::models::ServerInfo,
) {
    if resets(e, t) {
        (e.0, crate::sessions::models::ServerInfo { status: ServerStatus::Pending, ..e.1 })
    } else {
        e
    }
}

/// The agent's servers `m` after taking over the first `n` entries of `es`
/// (of types `ts`) from session `sid`: each entry with a type is recorded,
/// not running, under its id.
pub open spec fn taken_over(
    m: Map<Seq<char>, ServerHolder>,
    es: Seq<(Seq<char>, crate::sessions::models::ServerInfo)>,
    ts: Seq<Option<String>>,
    sid: SessionId,
    n: int,
) -> Map<Seq<char>, ServerHolder>
    decreases n,
{
    if n <= 0 {
        m
    } else {
        let prev = taken_over(m, es, ts, sid, n - 1);
        match ts[n - 1] {
            Some(t) => prev.insert(
                es[n - 1].0,
                ServerHolder { server_type: t, name: es[n - 1].1.name, session_id: sid, running: false },
            ),
            None => prev,
        }
    }
}

/// Session `new` is stored session `old` after its servers (of types `ts`)
/// were taken over, `changed` telling whether it changed.
pub open spec fn restored_session(old: Session, new: Session, ts: Seq<Option<String>>, changed: bool) -> bool {
    &&& new.wf()
    &&& old.routes_valid() ==> new.routes_valid()
    &&& same_but_servers(old, new)
    &&& new.servers.pairs().len() == old.servers.pairs().len()
    &&& forall|i: int|
        0 <= i < ts.len() ==> #[trigger] new.servers.pairs()[i] == restored_entry(old.servers.pairs()[i], ts[i])
    &&& changed == exists|i: int| 0 <= i < ts.len() && #[trigger] resets(old.servers.pairs()[i], ts[i])
    &&& !changed ==> new == old
}

/// The agent's servers `m` after taking over the servers of the first `n`
/// stored sessions `ss`, the `i`-th of types `ts[i]`.
pub open spec fn taken_over_all(
    m: Map<Seq<char>, ServerHolder>,
    ss: Seq<Session>,
    ts: Seq<Vec<Option<String>>>,
    n: int,
) -> Map<Seq<char>, ServerHolder>
    decreases n,
{
    if n <= 0 {
        m
    } else {
        taken_over(
            taken_over_all(m, ss, ts, n - 1),
            ss[n - 1].servers.pairs(),
            ts[n - 1]@,
            ss[n - 1].session_id,
            ts[n - 1]@.len() as int,
        )
    }
}

/// What a routed message gave.
#[derive(Debug, Clone)]
pub struct MessageResult {
    /// How the message was processed, as the router names it.
    pub processing_type: String,
    /// The servers it was routed to.
    pub routed_servers: Vec<String>,
    /// The reply recorded in the session.
    pub response: String,
}

/// `Routed to <n> server(s): <ids joined by ", "> (processing: <p>)`.
pub open spec fn routed_text(ids: Seq<Seq<char>>, processing: Seq<char>) -> Seq<char> {
    "Routed to "@ + decimal(ids.len()) + " server(s): "@ + join(ids, ", "@) + " (processing: "@ + processing
        + ")"@
}

/// The reply recorded for a message routed to `server_ids`.
pub fn routed_response(server_ids: &Vec<String>, processing: &str) -> (r: String)
    ensures
        r@ == routed_text(views(server_ids@), processing@),
{
    let mut t = string_from("Routed to ");
    t.append(decimal_string(server_ids.len() as u64).as_str());
    t.append(" server(s): ");
    t.append(join_strings(server_ids, ", ").as_str());
    t.append(" (processing: ");
    t.append(processing);
    t.append(")");
    assert(views(server_ids@).len() == server_ids@.len());
    t
}

/// `session` after one more message with `role` and `content`: the history
/// gains it at the end and nothing else changes but the update time.
pub open spec fn one_more_message(old: Session, new: Session, role: MessageRole, content: Seq<char>) -> bool {
    &&& new.message_history@.len() == old.message_history@.len() + 1
    &&& new.message_history@.subrange(0, old.message_history@.len() as int) == old.message_history@
    &&& new.message_history@.last().role == role
    &&& new.message_history@.last().content@ == content
    &&& new.message_history@.last().metadata is None
    &&& new.session_id == old.session_id
    &&& new.state == old.state
    &&& new.servers == old.servers
    &&& new.routing_table == old.routing_table
    &&& new.cache == old.cache
    &&& new.config == old.config
}

/// The agent: its settings, its session manager and the servers it has
/// registered, in registration order.
pub struct SeaAgent {
    config: SeaConfig,
    session_manager: SessionManager,
    server_runners: StrMap<ServerHolder>,
}

impl SeaAgent {
    /// The registered servers by id.
    pub closed spec fn runners(&self) -> Map<Seq<char>, ServerHolder> {
        self.server_runners@
    }

    /// The registered servers in registration order.
    pub closed spec fn runner_entries(&self) -> Seq<(Seq<char>, ServerHolder)> {
        self.server_runners.pairs()
    }

    /// The settings the agent was made with.
    pub closed spec fn settings(&self) -> SeaConfig {
        self.config
    }

    /// Server ids are distinct.
    pub closed spec fn wf(&self) -> bool {
        self.server_runners.wf()
    }

    /// The registered servers are those of the ordered entries, each id once.
    pub proof fn lemma_runners(&self)
        requires
            self.wf(),
        ensures
            self.runners() == map_of(self.runner_entries()),
            distinct_keys(self.runner_entries()),
    {
    }

    /// An agent with the given settings and no servers; its sessions are
    /// kept under the settings' session path.
    pub fn new(config: SeaConfig) -> (a: Self)
        ensures
            a.wf(),
            a.settings() == config,
            a.runner_entries() == Seq::<(Seq<char>, ServerHolder)>::empty(),
            a.runners() == Map::<Seq<char>, ServerHolder>::empty(),
            a.session_manager_spec().base() == config.session_store_path@,
    {
        let session_manager = SessionManager::new(config.session_store_path.as_str());
        SeaAgent { config, session_manager, server_runners: StrMap::new() }
    }

    /// The agent's session manager.
    pub closed spec fn session_manager_spec(&self) -> SessionManager {
        self.session_manager
    }

    /// The settings.
    pub fn config(&self) -> (r: &SeaConfig)
        ensures
            *r == self.settings(),
    {
        &self.config
    }

    /// The session manager.
    pub fn session_manager(&self) -> (r: &SessionManager)
        ensures
            *r == self.session_manager_spec(),
    {
        &self.session_manager
    }

    /// Every registered server, in registration order.
    pub fn list_servers(&self) -> (r: Vec<ServerInfo>)
        requires
            self.wf(),
        ensures
            r@.len() == self.runner_entries().len(),
            forall|i: int| 0 <= i < r@.len() ==> shows(#[trigger] r@[i], self.runner_entries()[i]),
    {
        let es = self.server_runners.entries();
        let mut out: Vec<ServerInfo> = Vec::new();
        let mut i: usize = 0;
        while i < es.len()
            invariant
                i <= es.len(),
                es@.map_values(|e: (String, ServerHolder)| (e.0@, e.1)) == self.runner_entries(),
                out@.len() == i,
                forall|j: int| 0 <= j < i ==> shows(#[trigger] out@[j], self.runner_entries()[j]),
            decreases es.len() - i,
        {
            let e = &es[i];
            out.push(ServerInfo {
                id: e.0.clone(),
                name: e.1.name.clone(),
                server_type: e.1.server_type.clone(),
                session_id: e.1.session_id,
                running: e.1.running,
            });
            i = i + 1;
        }
        out
    }

    /// The registered servers of one session, in registration order.
    pub fn list_session_servers(&self, session_id: SessionId) -> (r: Vec<ServerInfo>)
        requires
            self.wf(),
        ensures
            ({
                let sel = self.runner_entries().filter(
                    |e: (Seq<char>, ServerHolder)| e.1.session_id == session_id,
                );
                &&& r@.len() == sel.len()
                &&& forall|i: int| 0 <= i < r@.len() ==> shows(#[trigger] r@[i], sel[i])
            }),
    {
        let ghost pred = |e: (Seq<char>, ServerHolder)| e.1.session_id == session_id;
        let ghost all = self.runner_entries();
        let es = self.server_runners.entries();
        let mut out: Vec<ServerInfo> = Vec::new();
        let mut i: usize = 0;
        while i < es.len()
            invariant
                i <= es.len(),
                es@.map_values(|e: (String, ServerHolder)| (e.0@, e.1)) == all,
                pred == (|e: (Seq<char>, ServerHolder)| e.1.session_id == session_id),
                out@.len() == all.take(i as int).filter(pred).len(),
                forall|j: int|
                    0 <= j < out@.len() ==> shows(#[trigger] out@[j], all.take(i as int).filter(pred)[j]),
            decreases es.len() - i,
        {
            let e = &es[i];
            proof {
                assert(all.take(i + 1).drop_last() =~= all.take(i as int));
                assert(all.take(i + 1).last() == all[i as int]);
                assert(all[i as int] == (es@[i as int].0@, es@[i as int].1));
                reveal(Seq::filter);
                assert(all.take(i + 1).filter(pred) == if pred(all[i as int]) {
                    all.take(i as int).filter(pred).push(all[i as int])
                } else {
                    all.take(i as int).filter(pred)
                });
            }
            if e.1.session_id == session_id {
                out.push(ServerInfo {
                    id: e.0.clone(),
                    name: e.1.name.clone(),
                    server_type: e.1.server_type.clone(),
                    session_id: e.1.session_id,
                    running: e.1.running,
                });
            }
            i = i + 1;
        }
        assert(all.take(i as int) =~= all);
        out
    }

    /// Registers server `id` (see `register_result`).
    fn register_with_id(
        &mut self,
        session: &mut Session,
        server_type: &str,
        id: String,
        name: String,
        tools: Vec<String>,
    ) -> (r: Result<String, SeaError>)
        requires
            old(self).wf(),
            old(session).wf(),
        ensures
            final(self).wf(),
            final(session).wf(),
            old(session).routes_valid() ==> final(session).routes_valid(),
            final(self).settings() == old(self).settings(),
            final(self).session_manager_spec() == old(self).session_manager_spec(),
            register_result(*old(self), *final(self), *old(session), *final(session), server_type@, id@, name@, tools, r),
    {
        let ghost s0 = *session;
        let mut metadata: StrMap<serde_json::Value> = StrMap::new();
        let _ = metadata.insert(string_from("server_type"), json_string(string_from(server_type)));
        proof {
            reveal_strlit("server_type");
            reveal_strlit("server_name");
            assert("server_type"@ != "server_name"@) by {
                assert("server_type"@[7] != "server_name"@[7]);
            }
        }
        let _ = metadata.insert(string_from("server_name"), json_string(name.clone()));
        let tool_names = tools.clone();
        assert(tool_names@ =~= tools@);
        let lifecycle = ServerLifecycle::new(&self.session_manager);
        match lifecycle.register_server_with_name(session, id.clone(), Some(name.clone()), tools, metadata) {
            Err(e) => {
                let m = e.message();
                return Err(SeaError::Server(m));
            },
            Ok(()) => {},
        }
        let ghost s1 = *session;
        let ghost tv = views(tool_names@);
        let mut i: usize = 0;
        while i < tool_names.len()
            invariant
                i <= tool_names.len(),
                tv == views(tool_names@),
                session.wf(),
                s0.routes_valid() ==> session.routes_valid(),
                s1.servers@.contains_key(id@),
                session.servers == s1.servers,
                same_but_servers_and_routes(s1, *session),
                session.routing_table@ == with_tool_routes(s0.routing_table@, tv.take(i as int), id@),
            decreases tool_names.len() - i,
        {
            let cap = capability_of(tool_names[i].as_str());
            let _ = lifecycle.add_route(session, cap.as_str(), id.clone());
            proof {
                assert(tv.take(i + 1).drop_last() =~= tv.take(i as int));
                assert(tv.take(i + 1).last() == tool_names@[i as int]@);
            }
            i = i + 1;
        }
        assert(tv.take(i as int) =~= tv);
        let sid = session.session_id;
        let _ = self.server_runners.insert(
            id.clone(),
            ServerHolder { server_type: string_from(server_type), name, session_id: sid, running: false },
        );
        Ok(id)
    }

    /// Registers a server of type `server_type` with the tools it offers in
    /// `session`: under `server_id`, or `<type>-` and the first eight
    /// characters of a random UUID; named `server_name`, or `<type>-server`.
    /// The session gains the server (Pending, with its type and name as
    /// metadata) and a route `capability:<tool>` for each tool; the agent
    /// records it as not running.  Returns the id.  Fails, changing nothing,
    /// when the session already has a server with that id.
    pub fn register_server_with_name(
        &mut self,
        session: &mut Session,
        server_type: &str,
        server_id: Option<String>,
        server_name: Option<String>,
        tools: Vec<String>,
    ) -> (r: Result<String, SeaError>)
        requires
            old(self).wf(),
            old(session).wf(),
        ensures
            final(self).wf(),
            final(session).wf(),
            old(session).routes_valid() ==> final(session).routes_valid(),
            final(self).settings() == old(self).settings(),
            final(self).session_manager_spec() == old(self).session_manager_spec(),
            ({
                let name = match server_name {
                    Some(n) => n@,
                    None => type_server_name(server_type@),
                };
                match server_id {
                    Some(id) => register_result(
                        *old(self),
                        *final(self),
                        *old(session),
                        *final(session),
                        server_type@,
                        id@,
                        name,
                        tools,
                        r,
                    ),
                    None => exists|u: u128|
                        register_result(
                            *old(self),
                            *final(self),
                            *old(session),
                            *final(session),
                            server_type@,
                            #[trigger] type_server_id(server_type@, u),
                            name,
                            tools,
                            r,
                        ),
                }
            }),
    {
        let id = match server_id {
            Some(id) => id,
            None => {
                let u = new_uuid();
                server_id_for_type(server_type, u)
            },
        };
        let name = match server_name {
            Some(n) => n,
            None => server_name_for_type(server_type),
        };
        self.register_with_id(session, server_type, id, name, tools)
    }

    /// `register_server_with_name` without a name: the server is named
    /// `<type>-server`.
    pub fn register_server(
        &mut self,
        session: &mut Session,
        server_type: &str,
        server_id: Option<String>,
        tools: Vec<String>,
    ) -> (r: Result<String, SeaError>)
        requires
            old(self).wf(),
            old(session).wf(),
        ensures
            final(self).wf(),
            final(session).wf(),
            old(session).routes_valid() ==> final(session).routes_valid(),
            final(self).settings() == old(self).settings(),
            final(self).session_manager_spec() == old(self).session_manager_spec(),
            match server_id {
                Some(id) => register_result(
                    *old(self),
                    *final(self),
                    *old(session),
                    *final(session),
                    server_type@,
                    id@,
                    type_server_name(server_type@),
                    tools,
                    r,
                ),
                None => exists|u: u128|
                    register_result(
                        *old(self),
                        *final(self),
                        *old(session),
                        *final(session),
                        server_type@,
                        #[trigger] type_server_id(server_type@, u),
                        type_server_name(server_type@),
                        tools,
                        r,
                    ),
            },
    {
        self.register_server_with_name(session, server_type, server_id, None, tools)
    }

    /// Takes over the servers a stored session lists, as after a restart.
    /// `server_types[i]` is the type of the session's `i`-th server (in the
    /// session's order) when its `server_type` metadata names one, and
    /// `None` otherwise; servers without a type are skipped.  Each server
    /// taken over is recorded as not running, under its id and name; one the
    /// session lists as Active goes back to Pending, since nothing runs it
    /// now.  Returns whether the session changed (it is then to be written
    /// back).
    pub fn restore_servers(&mut self, session: &mut Session, server_types: &Vec<Option<String>>) -> (changed:
        bool)
        requires
            old(self).wf(),
            old(session).wf(),
            server_types@.len() == old(session).servers.pairs().len(),
        ensures
            final(self).wf(),
            final(session).wf(),
            old(session).routes_valid() ==> final(session).routes_valid(),
            final(self).settings() == old(self).settings(),
            final(self).session_manager_spec() == old(self).session_manager_spec(),
            same_but_servers(*old(session), *final(session)),
            final(session).servers.pairs().len() == old(session).servers.pairs().len(),
            forall|i: int|
                0 <= i < server_types@.len() ==> #[trigger] final(session).servers.pairs()[i]
                    == restored_entry(old(session).servers.pairs()[i], server_types@[i]),
            changed == exists|i: int|
                0 <= i < server_types@.len() && #[trigger] resets(
                    old(session).servers.pairs()[i],
                    server_types@[i],
                ),
            !changed ==> *final(session) == *old(session),
            final(self).runners() == taken_over(
                old(self).runners(),
                old(session).servers.pairs(),
                server_types@,
                old(session).session_id,
                server_types@.len() as int,
            ),
    {
        let ghost s0 = *session;
        let ghost es = s0.servers.pairs();
        let ghost ts = server_types@;
        let ghost r0 = self.runners();
        let sid = session.session_id;
        let n = session.servers.len();
        let mut changed = false;
        let mut i: usize = 0;
        while i < n
            invariant
                i <= n,
                n == es.len(),
                ts == server_types@,
                ts.len() == n,
                es == s0.servers.pairs(),
                sid == s0.session_id,
                self.wf(),
                self.settings() == old(self).settings(),
                self.session_manager_spec() == old(self).session_manager_spec(),
                self.runners() == taken_over(r0, es, ts, sid, i as int),
                session.servers.wf(),
                session.servers@.dom() == s0.servers@.dom(),
                same_but_servers(s0, *session),
                session.updated_at == s0.updated_at,
                session.servers.pairs().len() == n,
                forall|j: int| 0 <= j < i ==> #[trigger] session.servers.pairs()[j] == restored_entry(es[j], ts[j]),
                forall|j: int| i <= j < n ==> #[trigger] session.servers.pairs()[j] == es[j],
                changed == exists|j: int| 0 <= j < i && #[trigger] resets(es[j], ts[j]),
                !changed ==> *session == s0,
            decreases n - i,
        {
            match &server_types[i] {
                Some(t) => {
                    let st = {
                        let ev = session.servers.entries();
                        assert(ev@.map_values(
                            |e: (String, crate::sessions::models::ServerInfo)| (e.0@, e.1),
                        )[i as int] == es[i as int]);
                        ev[i].1.status
                    };
                    if st == ServerStatus::Active {
                        let ghost before = session.servers;
                        let info = session.servers.value_at_mut(i);
                        info.status = ServerStatus::Pending;
                        proof {
                            StrMap::lemma_set_at(&before, &session.servers, i as int, *info);
                            assert(session.servers@.dom() =~= before@.dom());
                        }
                        changed = true;
                        assert(resets(es[i as int], ts[i as int]));
                    }
                    let (id, name) = {
                        let ev = session.servers.entries();
                        assert(ev@.map_values(
                            |e: (String, crate::sessions::models::ServerInfo)| (e.0@, e.1),
                        )[i as int] == session.servers.pairs()[i as int]);
                        (ev[i].0.clone(), ev[i].1.name.clone())
                    };
                    let _ = self.server_runners.insert(
                        id,
                        ServerHolder { server_type: t.clone(), name, session_id: sid, running: false },
                    );
                },
                None => {},
            }
            proof {
                assert forall|j: int| 0 <= j < i + 1 implies #[trigger] session.servers.pairs()[j]
                    == restored_entry(es[j], ts[j]) by {}
                if !resets(es[i as int], ts[i as int]) {
                    assert forall|j: int| 0 <= j < i + 1 && #[trigger] resets(es[j], ts[j]) implies j < i by {}
                }
            }
            i = i + 1;
        }
        if changed {
            session.touch();
        }
        changed
    }

    /// The last step of sending a message to `session`, whose text was
    /// recorded as a user message before it went to the router.  `routed` is
    /// what the router gave: the servers the message went to and how it was
    /// processed, or the routing error's message.  A routed message is
    /// answered with `Routed to <n> server(s): <ids> (processing: <p>)`,
    /// recorded as the assistant's message; a routing error is recorded as a
    /// system message `Routing error: <message>` and returned as a router
    /// error.
    pub fn finish_message(&self, session: &mut Session, routed: Result<(Vec<String>, String), String>) -> (r:
        Result<MessageResult, SeaError>)
        ensures
            match routed {
                Ok(x) => {
                    &&& r matches Ok(m)
                    &&& m.routed_servers == x.0
                    &&& m.processing_type == x.1
                    &&& m.response@ == routed_text(views(x.0@), x.1@)
                    &&& one_more_message(*old(session), *final(session), MessageRole::Assistant, m.response@)
                },
                Err(e) => {
                    &&& r == Err::<MessageResult, SeaError>(SeaError::Router(e))
                    &&& one_more_message(
                        *old(session),
                        *final(session),
                        MessageRole::System,
                        "Routing error: "@ + e@,
                    )
                },
            },
    {
        match routed {
            Ok((ids, processing)) => {
                let response = routed_response(&ids, processing.as_str());
                let _ = self.session_manager.add_message(session, MessageRole::Assistant, response.clone());
                Ok(MessageResult { processing_type: processing, routed_servers: ids, response })
            },
            Err(e) => {
                let mut msg = string_from("Routing error: ");
                msg.append(e.as_str());
                let _ = self.session_manager.add_message(session, MessageRole::System, msg);
                Err(SeaError::Router(e))
            },
        }
    }

    /// Takes over the servers of every stored session, in order, as after a
    /// restart: `server_types[i]` gives the types of the servers of
    /// `sessions[i]` as for `restore_servers`.  Returns each session as it
    /// now is, with whether it changed (those are to be written back).
    pub fn restore_from_sessions(
        &mut self,
        sessions: Vec<Session>,
        server_types: &Vec<Vec<Option<String>>>,
    ) -> (r: Vec<(Session, bool)>)
        requires
            old(self).wf(),
            sessions@.len() == server_types@.len(),
            forall|i: int| 0 <= i < sessions@.len() ==> #[trigger] sessions@[i].wf(),
            forall|i: int|
                0 <= i < sessions@.len() ==> #[trigger] server_types@[i]@.len()
                    == sessions@[i].servers.pairs().len(),
        ensures
            final(self).wf(),
            final(self).settings() == old(self).settings(),
            final(self).session_manager_spec() == old(self).session_manager_spec(),
            r@.len() == sessions@.len(),
            forall|i: int|
                0 <= i < r@.len() ==> restored_session(
                    sessions@[i],
                    #[trigger] r@[i].0,
                    server_types@[i]@,
                    r@[i].1,
                ),
            final(self).runners() == taken_over_all(
                old(self).runners(),
                sessions@,
                server_types@,
                sessions@.len() as int,
            ),
    {
        let ghost input = sessions@;
        let ghost r0 = self.runners();
        let n = sessions.len();
        let mut rest = sessions;
        let mut out: Vec<(Session, bool)> = Vec::new();
        let mut k: usize = 0;
        while rest.len() > 0
            invariant
                k + rest@.len() == n,
                n == input.len(),
                n == server_types@.len(),
                rest@ == input.subrange(k as int, n as int),
                forall|i: int| 0 <= i < n ==> #[trigger] input[i].wf(),
                forall|i: int|
                    0 <= i < n ==> #[trigger] server_types@[i]@.len() == input[i].servers.pairs().len(),
                self.wf(),
                self.settings() == old(self).settings(),
                self.session_manager_spec() == old(self).session_manager_spec(),
                out@.len() == k,
                forall|i: int|
                    0 <= i < k ==> restored_session(input[i], #[trigger] out@[i].0, server_types@[i]@, out@[i].1),
                self.runners() == taken_over_all(r0, input, server_types@, k as int),
            decreases rest@.len(),
        {
            let mut session = rest.remove(0);
            assert(session == input[k as int]);
            let changed = self.restore_servers(&mut session, &server_types[k]);
            out.push((session, changed));
            assert(restored_session(input[k as int], out@[k as int].0, server_types@[k as int]@, out@[k as int].1));
            k = k + 1;
        }
        out
    }

    /// Marks server `id` running (`true`) or stopped.
    fn set_running(&mut self, id: &str, running: bool)
        requires
            old(self).wf(),
            old(self).runners().contains_key(id@),
        ensures
            final(self).wf(),
            final(self).settings() == old(self).settings(),
            final(self).session_manager_spec() == old(self).session_manager_spec(),
            final(self).runners() == old(self).runners().insert(
                id@,
                ServerHolder { running, ..old(self).runners()[id@] },
            ),
    {
        let ghost before = self.server_runners;
        match self.server_runners.find(id) {
            Some(i) => {
                let h = self.server_runners.value_at_mut(i);
                h.running = running;
                proof {
                    StrMap::lemma_set_at(&before, &self.server_runners, i as int, *h);
                }
            },
            None => {},
        }
    }

    /// Starts server `server_id`: it must be registered and not running; it
    /// is then marked running and activated (Pending → Active) in `session`,
    /// the session it is registered in.  A failed activation leaves it marked
    /// running and is reported as a server error with the lifecycle's
    /// message.
    pub fn start_server(&mut self, session: &mut Session, server_id: &str) -> (r: Result<(), SeaError>)
        requires
            old(self).wf(),
            old(session).wf(),
            old(self).runners().contains_key(server_id@) ==> old(self).runners()[server_id@].session_id
                == old(session).session_id,
        ensures
            final(self).wf(),
            final(session).wf(),
            old(session).routes_valid() ==> final(session).routes_valid(),
            final(self).settings() == old(self).settings(),
            final(self).session_manager_spec() == old(self).session_manager_spec(),
            match r {
                Err(SeaError::NotFound(m)) => {
                    &&& !old(self).runners().contains_key(server_id@)
                    &&& m@ == not_found_text(server_id@)
                    &&& final(self).runners() == old(self).runners()
                    &&& *final(session) == *old(session)
                },
                Err(SeaError::InvalidOperation(m)) => {
                    &&& old(self).runners().contains_key(server_id@)
                    &&& old(self).runners()[server_id@].running
                    &&& m@ == already_running_text(server_id@)
                    &&& final(self).runners() == old(self).runners()
                    &&& *final(session) == *old(session)
                },
                Ok(()) => {
                    &&& old(self).runners().contains_key(server_id@)
                    &&& !old(self).runners()[server_id@].running
                    &&& final(self).runners() == old(self).runners().insert(
                        server_id@,
                        ServerHolder { running: true, ..old(self).runners()[server_id@] },
                    )
                    &&& status_step(
                        *old(session),
                        *final(session),
                        server_id@,
                        ServerStatus::Pending,
                        ServerStatus::Active,
                        None,
                        seq!['a', 'c', 't', 'i', 'v', 'a', 't', 'e'],
                        Ok(()),
                    )
                },
                Err(SeaError::Server(m)) => {
                    &&& old(self).runners().contains_key(server_id@)
                    &&& !old(self).runners()[server_id@].running
                    &&& final(self).runners() == old(self).runners().insert(
                        server_id@,
                        ServerHolder { running: true, ..old(self).runners()[server_id@] },
                    )
                    &&& exists|e: LifecycleError|
                        lifecycle_error_text(e) == m@ && status_step(
                            *old(session),
                            *final(session),
                            server_id@,
                            ServerStatus::Pending,
                            ServerStatus::Active,
                            None,
                            seq!['a', 'c', 't', 'i', 'v', 'a', 't', 'e'],
                            Err(e),
                        )
                },
                Err(_) => false,
            },
    {
        let running = match self.server_runners.get(server_id) {
            None => {
                return Err(SeaError::NotFound(server_quote(server_id, "' not found")));
            },
            Some(h) => h.running,
        };
        if running {
            return Err(SeaError::InvalidOperation(server_quote(server_id, "' is already running")));
        }
        self.set_running(server_id, true);
        let lifecycle = ServerLifecycle::new(&self.session_manager);
        match lifecycle.activate_server(session, server_id) {
            Ok(()) => Ok(()),
            Err(e) => {
                let m = e.message();
                assert(lifecycle_error_text(e) == m@);
                Err(SeaError::Server(m))
            },
        }
    }

    /// Stops server `server_id`: it must be registered and running; it is
    /// then marked stopped and set draining (Active → Draining, from the
    /// current time) in `session`, the session it is registered in.  A
    /// failed drain leaves it marked stopped and is reported as a server
    /// error with the lifecycle's message.
    pub fn stop_server(&mut self, session: &mut Session, server_id: &str) -> (r: Result<(), SeaError>)
        requires
            old(self).wf(),
            old(session).wf(),
            old(self).runners().contains_key(server_id@) ==> old(self).runners()[server_id@].session_id
                == old(session).session_id,
        ensures
            final(self).wf(),
            final(session).wf(),
            old(session).routes_valid() ==> final(session).routes_valid(),
            final(self).settings() == old(self).settings(),
            final(self).session_manager_spec() == old(self).session_manager_spec(),
            match r {
                Err(SeaError::NotFound(m)) => {
                    &&& !old(self).runners().contains_key(server_id@)
                    &&& m@ == not_found_text(server_id@)
                    &&& final(self).runners() == old(self).runners()
                    &&& *final(session) == *old(session)
                },
                Err(SeaError::InvalidOperation(m)) => {
                    &&& old(self).runners().contains_key(server_id@)
                    &&& !old(self).runners()[server_id@].running
                    &&& m@ == not_running_text(server_id@)
                    &&& final(self).runners() == old(self).runners()
                    &&& *final(session) == *old(session)
                },
                Ok(()) => {
                    &&& old(self).runners().contains_key(server_id@)
                    &&& old(self).runners()[server_id@].running
                    &&& final(self).runners() == old(self).runners().insert(
                        server_id@,
                        ServerHolder { running: false, ..old(self).runners()[server_id@] },
                    )
                    &&& exists|t: Timestamp|
                        status_step(
                            *old(session),
                            *final(session),
                            server_id@,
                            ServerStatus::Active,
                            ServerStatus::Draining,
                            Some(t),
                            seq!['d', 'r', 'a', 'i', 'n'],
                            Ok(()),
                        )
                },
                Err(SeaError::Server(m)) => {
                    &&& old(self).runners().contains_key(server_id@)
                    &&& old(self).runners()[server_id@].running
                    &&& final(self).runners() == old(self).runners().insert(
                        server_id@,
                        ServerHolder { running: false, ..old(self).runners()[server_id@] },
                    )
                    &&& exists|e: LifecycleError, t: Timestamp|
                        lifecycle_error_text(e) == m@ && status_step(
                            *old(session),
                            *final(session),
                            server_id@,
                            ServerStatus::Active,
                            ServerStatus::Draining,
                            Some(t),
                            seq!['d', 'r', 'a', 'i', 'n'],
                            Err(e),
                        )
                },
                Err(_) => false,
            },
    {
        let running = match self.server_runners.get(server_id) {
            None => {
                return Err(SeaError::NotFound(server_quote(server_id, "' not found")));
            },
            Some(h) => h.running,
        };
        if !running {
            return Err(SeaError::InvalidOperation(server_quote(server_id, "' is not running")));
        }
        self.set_running(server_id, false);
        let lifecycle = ServerLifecycle::new(&self.session_manager);
        let t = now();
        let ghost before = *session;
        match lifecycle.drain_server_at(session, server_id, t) {
            Ok(()) => {
                assert(status_step(
                    before,
                    *session,
                    server_id@,
                    ServerStatus::Active,
                    ServerStatus::Draining,
                    Some(t),
                    seq!['d', 'r', 'a', 'i', 'n'],
                    Ok(()),
                ));
                Ok(())
            },
            Err(e) => {
                let m = e.message();
                assert(lifecycle_error_text(e) == m@ && status_step(
                    before,
                    *session,
                    server_id@,
                    ServerStatus::Active,
                    ServerStatus::Draining,
                    Some(t),
                    seq!['d', 'r', 'a', 'i', 'n'],
                    Err(e),
                ));
                Err(SeaError::Server(m))
            },
        }
    }

    /// The ids of the running servers, in registration order: what a
    /// shutdown stops.
    pub fn running_servers(&self) -> (r: Vec<String>)
        requires
            self.wf(),
        ensures
            ({
                let sel = self.runner_entries().filter(|e: (Seq<char>, ServerHolder)| e.1.running);
                &&& r@.len() == sel.len()
                &&& forall|i: int| 0 <= i < r@.len() ==> #[trigger] r@[i]@ == sel[i].0
            }),
    {
        let ghost pred = |e: (Seq<char>, ServerHolder)| e.1.running;
        let ghost all = self.runner_entries();
        let es = self.server_runners.entries();
        let mut out: Vec<String> = Vec::new();
        let mut i: usize = 0;
        while i < es.len()
            invariant
                i <= es.len(),
                es@.map_values(|e: (String, ServerHolder)| (e.0@, e.1)) == all,
                pred == (|e: (Seq<char>, ServerHolder)| e.1.running),
                out@.len() == all.take(i as int).filter(pred).len(),
                forall|j: int|
                    0 <= j < out@.len() ==> #[trigger] out@[j]@ == all.take(i as int).filter(pred)[j].0,
            decreases es.len() - i,
        {
            proof {
                assert(all.take(i + 1).drop_last() =~= all.take(i as int));
                assert(all.take(i + 1).last() == all[i as int]);
                assert(all[i as int] == (es@[i as int].0@, es@[i as int].1));
                reveal(Seq::filter);
                assert(all.take(i + 1).filter(pred) == if pred(all[i as int]) {
                    all.take(i as int).filter(pred).push(all[i as int])
                } else {
                    all.take(i as int).filter(pred)
                });
            }
            if es[i].1.running {
                out.push(es[i].0.clone());
            }
            i = i + 1;
        }
        assert(all.take(i as int) =~= all);
        out
    }
}

/// Starting a server and then stopping it leaves the agent's record of its
/// servers as it was.
pub proof fn law_start_then_stop(
    m0: Map<Seq<char>, ServerHolder>,
    m1: Map<Seq<char>, ServerHolder>,
    m2: Map<Seq<char>, ServerHolder>,
    id: Seq<char>,
)
    requires
        m0.contains_key(id),
        !m0[id].running,
        m1 == m0.insert(id, ServerHolder { running: true, ..m0[id] }),
        m2 == m1.insert(id, ServerHolder { running: false, ..m1[id] }),
    ensures
        m2 == m0,
{
    assert(m2 =~= m0);
}

/// Taking a server over never leaves it Active: a server with a type that
/// was Active is Pending afterwards, and any other keeps its status; nothing
/// but the status changes.
pub proof fn law_taken_over_not_active(e: (Seq<char>, crate::sessions::models::ServerInfo), t: Option<String>)
    requires
        t is Some,
    ensures
        restored_entry(e, t).1.status != ServerStatus::Active,
        e.1.status != ServerStatus::Active ==> restored_entry(e, t) == e,
        restored_entry(e, t).0 == e.0,
        restored_entry(e, t).1.name == e.1.name,
        restored_entry(e, t).1.tools == e.1.tools,
{
}

/// Two shown servers agree: same id, name, type, session and state.
pub open spec fn same_info(a: ServerInfo, b: ServerInfo) -> bool {
    &&& a.id@ == b.id@
    &&& a.name@ == b.name@
    &&& a.server_type@ == b.server_type@
    &&& a.session_id == b.session_id
    &&& a.running == b.running
}

/// Filtering the shown servers by session shows the servers filtered by
/// session.
proof fn lemma_filter_shows(es: Seq<(Seq<char>, ServerHolder)>, all: Seq<ServerInfo>, sid: SessionId)
    requires
        all.len() == es.len(),
        forall|i: int| 0 <= i < es.len() ==> shows(#[trigger] all[i], es[i]),
    ensures
        ({
            let ef = es.filter(|e: (Seq<char>, ServerHolder)| e.1.session_id == sid);
            let af = all.filter(|x: ServerInfo| x.session_id == sid);
            &&& af.len() == ef.len()
            &&& forall|i: int| 0 <= i < af.len() ==> shows(#[trigger] af[i], ef[i])
        }),
    decreases es.len(),
{
    reveal(Seq::filter);
    let pe = |e: (Seq<char>, ServerHolder)| e.1.session_id == sid;
    let pa = |x: ServerInfo| x.session_id == sid;
    if es.len() > 0 {
        let es0 = es.drop_last();
        let all0 = all.drop_last();
        assert forall|i: int| 0 <= i < es0.len() implies shows(#[trigger] all0[i], es0[i]) by {
            assert(shows(all[i], es[i]));
        }
        lemma_filter_shows(es0, all0, sid);
        assert(shows(all[es.len() - 1], es[es.len() - 1]));
    }
}

/// What one session lists are exactly the servers of the whole listing that
/// belong to that session, in the same order, each id once: `all` is what
/// `list_servers` gave and `mine` what `list_session_servers(sid)` gave, of
/// the same agent whose entries are `es`.
pub proof fn law_session_servers_filter_all(
    es: Seq<(Seq<char>, ServerHolder)>,
    all: Seq<ServerInfo>,
    mine: Seq<ServerInfo>,
    sid: SessionId,
)
    requires
        distinct_keys(es),
        all.len() == es.len(),
        forall|i: int| 0 <= i < all.len() ==> shows(#[trigger] all[i], es[i]),
        ({
            let sel = es.filter(|e: (Seq<char>, ServerHolder)| e.1.session_id == sid);
            &&& mine.len() == sel.len()
            &&& forall|i: int| 0 <= i < mine.len() ==> shows(#[trigger] mine[i], sel[i])
        }),
    ensures
        ({
            let af = all.filter(|x: ServerInfo| x.session_id == sid);
            &&& mine.len() == af.len()
            &&& forall|i: int| 0 <= i < mine.len() ==> same_info(#[trigger] mine[i], af[i])
            &&& forall|i: int, j: int| 0 <= i < j < mine.len() ==> #[trigger] mine[i].id@ != #[trigger] mine[j].id@
        }),
{
    lemma_filter_shows(es, all, sid);
    let ef = es.filter(|e: (Seq<char>, ServerHolder)| e.1.session_id == sid);
    let af = all.filter(|x: ServerInfo| x.session_id == sid);
    assert forall|i: int| 0 <= i < mine.len() implies same_info(#[trigger] mine[i], af[i]) by {
        assert(shows(mine[i], ef[i]));
        assert(shows(af[i], ef[i]));
    }
    assert forall|i: int, j: int| 0 <= i < j < mine.len() implies #[trigger] mine[i].id@ != #[trigger] mine[j].id@ by {
        assert(shows(mine[i], ef[i]));
        assert(shows(mine[j], ef[j]));
        lemma_filter_distinct(es, sid, i, j);
    }
}

/// The entries of one session keep the entries' distinct ids.
proof fn lemma_filter_distinct(es: Seq<(Seq<char>, ServerHolder)>, sid: SessionId, i: int, j: int)
    requires
        distinct_keys(es),
        0 <= i < j < es.filter(|e: (Seq<char>, ServerHolder)| e.1.session_id == sid).len(),
    ensures
        es.filter(|e: (Seq<char>, ServerHolder)| e.1.session_id == sid)[i].0 != es.filter(
            |e: (Seq<char>, ServerHolder)| e.1.session_id == sid,
        )[j].0,
    decreases es.len(),
{
    reveal(Seq::filter);
    let pe = |e: (Seq<char>, ServerHolder)| e.1.session_id == sid;
    let es0 = es.drop_last();
    let ef = es.filter(pe);
    let ef0 = es0.filter(pe);
    assert(distinct_keys(es0)) by {
        assert forall|a: int, b: int| 0 <= a < es0.len() && 0 <= b < es0.len() && a != b implies #[trigger] es0[a].0 != #[trigger] es0[b].0 by {
            assert(es0[a] == es[a]);
            assert(es0[b] == es[b]);
        }
    }
    if j < ef0.len() {
        assert(ef[i] == ef0[i]);
        assert(ef[j] == ef0[j]);
        lemma_filter_distinct(es0, sid, i, j);
    } else {
        assert(ef[j] == es.last());
        assert(ef[i] == ef0[i]);
        lemma_filter_member(es0, sid, i);
        let k = choose|k: int| 0 <= k < es0.len() && ef0[i] == es0[k];
        assert(es[k] == es0[k]);
        assert(es[k].0 != es[es.len() - 1].0);
    }
}

/// Every entry of one session is an entry of `es`.
proof fn lemma_filter_member(es: Seq<(Seq<char>, ServerHolder)>, sid: SessionId, i: int)
    requires
        0 <= i < es.filter(|e: (Seq<char>, ServerHolder)| e.1.session_id == sid).len(),
    ensures
        exists|k: int|
            0 <= k < es.len() && es.filter(|e: (Seq<char>, ServerHolder)| e.1.session_id == sid)[i]
                == #[trigger] es[k],
    decreases es.len(),
{
    reveal(Seq::filter);
    let pe = |e: (Seq<char>, ServerHolder)| e.1.session_id == sid;
    let es0 = es.drop_last();
    let ef = es.filter(pe);
    let ef0 = es0.filter(pe);
    if i < ef0.len() {
        lemma_filter_member(es0, sid, i);
        let k = choose|k: int| 0 <= k < es0.len() && ef0[i] == #[trigger] es0[k];
        assert(ef[i] == ef0[i]);
        assert(es[k] == es0[k]);
    } else {
        assert(ef[i] == es[es.len() - 1]);
    }
}

} // verus!
