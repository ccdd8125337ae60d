//! The gateway between the user interface and the agents.
//!
//! A gateway holds:
//! - agent definitions: reusable agent templates;
//! - sessions: conversations with their message history;
//! - agent instances: agents running in a session;
//! - global memory: text shared by every session, offered to prompts.
//!
//! It keeps track of the current session and of the current agent instance,
//! which always belongs to the current session.  Every instance belongs to
//! exactly one existing session, and a session lists exactly the instances
//! that belong to it.  Files and LLM calls are made by the caller: the
//! gateway records what happened as events and hands out what to send.
pub mod config;
pub mod event;
pub mod message;

pub use config::GatewayConfig;
pub use event::GatewayEvent;
pub use message::format_context;

use crate::agent::{
    AgentDefinition, AgentDefinitionId, AgentDefinitionInfo, AgentInput, AgentInstance,
    AgentInstanceId, AgentInstanceInfo, AgentOutput, OutputType, system_prompt_of, token_usage_of,
};
use crate::config::{Config, ConfigManager};
use crate::llm::{ChatMessage, ChatResponse, LlmClientConfig};
use crate::logger::{LogLevel, Logger};
use crate::prompt::PromptContext;
use crate::session::{
    MessageRole, Session, SessionId, SessionInfo, SessionManager, SessionMessage, json_file_path,
    role_text,
};
use crate::session::agent_messages as agent_messages_of;
use crate::sessions::manager::{join_path, uuid_string};
use crate::sessions::models::{new_uuid, now};
use crate::strmap::{StrMap, keys_of};
use crate::text::{chars_of, join, push_all, string_from, string_of};
use message::context_lines;
use vstd::prelude::*;

verus! {

/// Why a gateway refused a request.
#[derive(Debug, Clone, PartialEq, Eq)]
pub enum GatewayError {
    DefinitionLimitReached,
    SessionLimitReached,
    AgentLimitReached,
    /// The session asked for does not exist.
    SessionNotFound(String),
    /// A session the gateway refers to is gone.
    MissingSession,
    NoActiveSession,
    NoActiveAgentInstance,
    DefinitionNotFound,
    /// The agent instance asked for does not exist.
    InstanceNotFound(String),
    /// An agent instance the gateway refers to is gone.
    MissingInstance,
    InstanceNotInCurrentSession,
    /// A freshly generated id is already taken.
    DuplicateId,
}

/// The message of an error.
pub open spec fn error_text(e: GatewayError) -> Seq<char> {
    match e {
        GatewayError::DefinitionLimitReached => "Maximum number of agent definitions reached"@,
        GatewayError::SessionLimitReached => "Maximum number of sessions reached"@,
        GatewayError::AgentLimitReached => "Maximum number of agents per session reached"@,
        GatewayError::SessionNotFound(id) => "Session not found: "@ + id@,
        GatewayError::MissingSession => "Session not found"@,
        GatewayError::NoActiveSession => "No active session"@,
        GatewayError::NoActiveAgentInstance => "No active agent instance"@,
        GatewayError::DefinitionNotFound => "Agent definition not found"@,
        GatewayError::InstanceNotFound(id) => "Agent instance not found: "@ + id@,
        GatewayError::MissingInstance => "Agent instance not found"@,
        GatewayError::InstanceNotInCurrentSession => "Agent instance does not belong to current session"@,
        GatewayError::DuplicateId => "Generated id is already in use"@,
    }
}

impl GatewayError {
    /// The error's message.
    pub fn message(&self) -> (r: String)
        ensures
            r@ == error_text(*self),
    {
        match self {
            GatewayError::DefinitionLimitReached => string_from("Maximum number of agent definitions reached"),
            GatewayError::SessionLimitReached => string_from("Maximum number of sessions reached"),
            GatewayError::AgentLimitReached => string_from("Maximum number of agents per session reached"),
            GatewayError::SessionNotFound(id) => {
                let mut v = chars_of("Session not found: ");
                push_all(&mut v, &chars_of(id.as_str()));
                string_of(&v)
            },
            GatewayError::MissingSession => string_from("Session not found"),
            GatewayError::NoActiveSession => string_from("No active session"),
            GatewayError::NoActiveAgentInstance => string_from("No active agent instance"),
            GatewayError::DefinitionNotFound => string_from("Agent definition not found"),
            GatewayError::InstanceNotFound(id) => {
                let mut v = chars_of("Agent instance not found: ");
                push_all(&mut v, &chars_of(id.as_str()));
                string_of(&v)
            },
            GatewayError::MissingInstance => string_from("Agent instance not found"),
            GatewayError::InstanceNotInCurrentSession => string_from(
                "Agent instance does not belong to current session",
            ),
            GatewayError::DuplicateId => string_from("Generated id is already in use"),
        }
    }
}

/// Changes to an agent definition; absent fields stay as they are.
#[derive(Debug, Clone)]
pub struct AgentDefinitionUpdates {
    pub name: Option<String>,
    pub system_prompt: Option<String>,
    pub llm_config: Option<LlmClientConfig>,
}

impl Default for AgentDefinitionUpdates {
    /// No changes.
    fn default() -> (u: Self)
        ensures
            u.name is None,
            u.system_prompt is None,
            u.llm_config is None,
    {
        AgentDefinitionUpdates { name: None, system_prompt: None, llm_config: None }
    }
}

/// Routes messages between the user interface and the agents.
pub struct Gateway {
    agent_definitions: StrMap<AgentDefinition>,
    agent_definition_dir: String,
    sessions: StrMap<Session>,
    current_session_id: Option<SessionId>,
    agent_instances: StrMap<AgentInstance>,
    current_agent_instance_id: Option<AgentInstanceId>,
    config_manager: ConfigManager,
    gateway_config: GatewayConfig,
    logger: Logger,
    session_manager: SessionManager,
    global_memory: Option<String>,
    events: Vec<GatewayEvent>,
}

/// An optional string by its characters.
pub open spec fn opt_view(o: Option<String>) -> Option<Seq<char>> {
    match o {
        Some(s) => Some(s@),
        None => None,
    }
}

impl Gateway {
    /// Agent definitions by id.
    pub closed spec fn definitions(&self) -> Map<Seq<char>, AgentDefinition> {
        self.agent_definitions@
    }

    /// Definition ids in the order they were added.
    pub closed spec fn definition_order(&self) -> Seq<Seq<char>> {
        keys_of(self.agent_definitions.pairs())
    }

    /// Sessions by id.
    pub closed spec fn sessions_map(&self) -> Map<Seq<char>, Session> {
        self.sessions@
    }

    /// Session ids in the order they were added.
    pub closed spec fn session_order(&self) -> Seq<Seq<char>> {
        keys_of(self.sessions.pairs())
    }

    /// Agent instances by id.
    pub closed spec fn instances(&self) -> Map<Seq<char>, AgentInstance> {
        self.agent_instances@
    }

    pub closed spec fn current_session_spec(&self) -> Option<Seq<char>> {
        opt_view(self.current_session_id)
    }

    pub closed spec fn current_instance_spec(&self) -> Option<Seq<char>> {
        opt_view(self.current_agent_instance_id)
    }

    /// The global memory.
    pub closed spec fn memory(&self) -> Option<Seq<char>> {
        opt_view(self.global_memory)
    }

    pub closed spec fn limits(&self) -> GatewayConfig {
        self.gateway_config
    }

    /// Events recorded and not yet taken, oldest first.
    pub closed spec fn events_spec(&self) -> Seq<GatewayEvent> {
        self.events@
    }

    /// The configuration manager.
    pub closed spec fn manager_spec(&self) -> ConfigManager {
        self.config_manager
    }

    pub closed spec fn logger_spec(&self) -> Logger {
        self.logger
    }

    pub closed spec fn session_manager_spec(&self) -> SessionManager {
        self.session_manager
    }

    /// Where definition files are kept.
    pub closed spec fn definition_dir(&self) -> Seq<char> {
        self.agent_definition_dir@
    }

    pub closed spec fn storage_ok(&self) -> bool {
        &&& self.agent_definitions.wf()
        &&& self.sessions.wf()
        &&& self.agent_instances.wf()
    }

    /// The gateway's invariant: every session is well formed; every instance
    /// belongs to an existing session that lists it; every instance a session
    /// lists exists and belongs to it; the current session exists; the
    /// current instance exists and belongs to the current session.
    pub open spec fn wf(&self) -> bool {
        &&& self.storage_ok()
        &&& self.sessions_map().dom().finite()
        &&& self.instances().dom().finite()
        &&& forall|s: Seq<char>| #[trigger]
            self.sessions_map().contains_key(s) ==> self.sessions_map()[s].wf()
        &&& forall|i: Seq<char>| #[trigger]
            self.instances().contains_key(i) ==> {
                let a = self.instances()[i];
                &&& a.id_spec() == i
                &&& self.sessions_map().contains_key(a.session_spec())
                &&& self.sessions_map()[a.session_spec()].instances().contains(i)
            }
        &&& forall|s: Seq<char>, j: int|
            #![trigger self.sessions_map()[s].instances()[j]]
            self.sessions_map().contains_key(s) && 0 <= j < self.sessions_map()[s].instances().len()
                ==> {
                let i = self.sessions_map()[s].instances()[j];
                &&& self.instances().contains_key(i)
                &&& self.instances()[i].session_spec() == s
            }
        &&& (self.current_session_spec() matches Some(s) ==> self.sessions_map().contains_key(s))
        &&& (self.current_instance_spec() matches Some(i) ==> {
            &&& self.current_session_spec() is Some
            &&& self.instances().contains_key(i)
            &&& self.instances()[i].session_spec() == self.current_session_spec().unwrap()
        })
    }

    /// Everything but the events is as in `o`.
    pub open spec fn same_state(&self, o: &Gateway) -> bool {
        &&& self.definitions() == o.definitions()
        &&& self.definition_order() == o.definition_order()
        &&& self.sessions_map() == o.sessions_map()
        &&& self.session_order() == o.session_order()
        &&& self.instances() == o.instances()
        &&& self.current_session_spec() == o.current_session_spec()
        &&& self.current_instance_spec() == o.current_instance_spec()
        &&& self.memory() == o.memory()
        &&& self.limits() == o.limits()
        &&& self.manager_spec() == o.manager_spec()
        &&& self.definition_dir() == o.definition_dir()
    }

    /// A gateway with no definitions, sessions or instances.  Definitions
    /// kept on disk are handed in by the caller afterwards.
    pub fn new(
        config_manager: ConfigManager,
        logger: Logger,
        agent_definition_dir: String,
        session_manager: SessionManager,
    ) -> (g: Self)
        ensures
            g.wf(),
            g.definitions().len() == 0,
            g.sessions_map().len() == 0,
            g.instances().len() == 0,
            g.definition_order().len() == 0,
            g.session_order().len() == 0,
            g.current_session_spec() is None,
            g.current_instance_spec() is None,
            g.memory() is None,
            g.limits() == (GatewayConfig { max_sessions: 10, max_agents_per_session: 5, max_agent_definitions: 50 }),
            g.events_spec().len() == 0,
            g.manager_spec() == config_manager,
            g.logger_spec() == logger,
            g.session_manager_spec() == session_manager,
            g.definition_dir() == agent_definition_dir@,
    {
        let g = Gateway {
            agent_definitions: StrMap::new(),
            agent_definition_dir,
            sessions: StrMap::new(),
            current_session_id: None,
            agent_instances: StrMap::new(),
            current_agent_instance_id: None,
            config_manager,
            gateway_config: GatewayConfig::default(),
            logger,
            session_manager,
            global_memory: None,
            events: Vec::new(),
        };
        assert(g.definition_order() =~= Seq::<Seq<char>>::empty());
        assert(g.session_order() =~= Seq::<Seq<char>>::empty());
        proof {
            g.sessions.lemma_len();
            g.agent_instances.lemma_len();
        }
        g
    }

    /// The gateway with other limits.
    pub fn with_gateway_config(self, config: GatewayConfig) -> (g: Self)
        requires
            self.wf(),
        ensures
            g.wf(),
            g.limits() == config,
            g.definitions() == self.definitions(),
            g.definition_order() == self.definition_order(),
            g.sessions_map() == self.sessions_map(),
            g.session_order() == self.session_order(),
            g.instances() == self.instances(),
            g.current_session_spec() == self.current_session_spec(),
            g.current_instance_spec() == self.current_instance_spec(),
            g.memory() == self.memory(),
            g.manager_spec() == self.manager_spec(),
            g.definition_dir() == self.definition_dir(),
            g.events_spec() == self.events_spec(),
    {
        let mut g = self;
        g.gateway_config = config;
        g
    }

    /// Takes the recorded events, oldest first.
    pub fn take_events(&mut self) -> (r: Vec<GatewayEvent>)
        requires
            old(self).wf(),
        ensures
            final(self).wf(),
            final(self).same_state(old(self)),
            r@ == old(self).events_spec(),
            final(self).events_spec().len() == 0,
    {
        let mut taken: Vec<GatewayEvent> = Vec::new();
        std::mem::swap(&mut taken, &mut self.events);
        taken
    }

    // ==================== agent definitions ====================

    /// The file a definition is kept in: `<dir>/<id>.json`.
    pub fn agent_definition_path(&self, id: &str) -> (p: String)
        ensures
            p@ == join_path(self.definition_dir(), id@ + seq!['.', 'j', 's', 'o', 'n']),
    {
        json_file_path(self.agent_definition_dir.as_str(), id)
    }

    /// Whether a shipped definition file is a template (it holds a
    /// `"_comment"` field) rather than a definition to import.
    pub fn is_definition_template(json: &str) -> (b: bool)
        ensures
            b == crate::text::has_substring(json@, "\"_comment\""@),
    {
        crate::text::contains_text(json, "\"_comment\"")
    }

    /// Adds a definition read from disk, replacing one with the same id.
    pub fn load_agent_definition(&mut self, definition: AgentDefinition)
        requires
            old(self).wf(),
        ensures
            final(self).wf(),
            final(self).definitions() == old(self).definitions().insert(definition.id@, definition),
            final(self).sessions_map() == old(self).sessions_map(),
            final(self).session_order() == old(self).session_order(),
            final(self).instances() == old(self).instances(),
            final(self).current_session_spec() == old(self).current_session_spec(),
            final(self).current_instance_spec() == old(self).current_instance_spec(),
            final(self).memory() == old(self).memory(),
            final(self).limits() == old(self).limits(),
            final(self).manager_spec() == old(self).manager_spec(),
            final(self).definition_dir() == old(self).definition_dir(),
            final(self).events_spec() == old(self).events_spec(),
    {
        let id = definition.id.clone();
        let _ = self.agent_definitions.insert(id, definition);
    }

    /// Adds a definition shipped with the program unless one with its id is
    /// already known; says whether it was added (and should be saved).
    pub fn import_agent_definition(&mut self, definition: AgentDefinition) -> (added: bool)
        requires
            old(self).wf(),
        ensures
            final(self).wf(),
            added == !old(self).definitions().contains_key(definition.id@),
            final(self).definitions() == if added {
                old(self).definitions().insert(definition.id@, definition)
            } else {
                old(self).definitions()
            },
            final(self).sessions_map() == old(self).sessions_map(),
            final(self).session_order() == old(self).session_order(),
            final(self).instances() == old(self).instances(),
            final(self).current_session_spec() == old(self).current_session_spec(),
            final(self).current_instance_spec() == old(self).current_instance_spec(),
            final(self).memory() == old(self).memory(),
            final(self).limits() == old(self).limits(),
            final(self).manager_spec() == old(self).manager_spec(),
            final(self).definition_dir() == old(self).definition_dir(),
            final(self).events_spec() == old(self).events_spec(),
    {
        if self.agent_definitions.contains_key(definition.id.as_str()) {
            return false;
        }
        let id = definition.id.clone();
        let _ = self.agent_definitions.insert(id, definition);
        true
    }

    /// Creates a definition with a plain system prompt and no LLM settings
    /// of its own (instances then use the program's settings).  Fails when
    /// the limit of definitions is reached.
    pub fn create_agent_definition(&mut self, name: String, system_prompt: Option<String>) -> (r:
        Result<AgentDefinitionId, GatewayError>)
        requires
            old(self).wf(),
        ensures
            final(self).wf(),
            final(self).sessions_map() == old(self).sessions_map(),
            final(self).session_order() == old(self).session_order(),
            final(self).instances() == old(self).instances(),
            final(self).current_session_spec() == old(self).current_session_spec(),
            final(self).current_instance_spec() == old(self).current_instance_spec(),
            final(self).memory() == old(self).memory(),
            final(self).limits() == old(self).limits(),
            final(self).manager_spec() == old(self).manager_spec(),
            r is Err <==> old(self).definitions().len() >= old(self).limits().max_agent_definitions,
            match r {
                Ok(id) => {
                    let d = final(self).definitions()[id@];
                    &&& final(self).definitions() == old(self).definitions().insert(id@, d)
                    &&& d.id == id
                    &&& d.name == name
                    &&& d.system_prompt == system_prompt
                    &&& d.structured_prompt is None
                    &&& d.prompt_template is None
                    &&& d.llm_config is None
                    &&& final(self).events_spec() == old(self).events_spec().push(
                        GatewayEvent::AgentDefinitionCreated { id, name },
                    )
                },
                Err(e) => {
                    &&& e == GatewayError::DefinitionLimitReached
                    &&& final(self).definitions() == old(self).definitions()
                    &&& final(self).events_spec() == old(self).events_spec()
                },
            },
    {
        proof {
            self.agent_definitions.lemma_len();
        }
        if self.agent_definitions.len() >= self.gateway_config.max_agent_definitions {
            return Err(GatewayError::DefinitionLimitReached);
        }
        let event_name = name.clone();
        let definition = AgentDefinition::new(name, system_prompt, None);
        let id = definition.id.clone();
        let event_id = definition.id.clone();
        let _ = self.agent_definitions.insert(definition.id.clone(), definition);
        self.events.push(GatewayEvent::AgentDefinitionCreated { id: event_id, name: event_name });
        Ok(id)
    }

    /// The definition with id `id`.
    pub fn get_agent_definition(&self, id: &str) -> (r: Option<&AgentDefinition>)
        requires
            self.wf(),
        ensures
            match r {
                Some(d) => self.definitions().contains_key(id@) && *d == self.definitions()[id@],
                None => !self.definitions().contains_key(id@),
            },
    {
        self.agent_definitions.get(id)
    }

    /// A summary of every definition, in the order they were added.
    pub fn list_agent_definitions(&self) -> (r: Vec<AgentDefinitionInfo>)
        requires
            self.wf(),
        ensures
            r@.len() == self.definition_order().len(),
            forall|k: int|
                0 <= k < r@.len() ==> {
                    let d = self.definitions()[self.definition_order()[k]];
                    &&& (#[trigger] r@[k]).id@ == d.id@
                    &&& r@[k].name@ == d.name@
                    &&& opt_view(r@[k].description) == opt_view(d.description)
                    &&& r@[k].has_system_prompt == d.system_prompt is Some
                },
    {
        let entries = self.agent_definitions.entries();
        let ghost ps = self.agent_definitions.pairs();
        proof {
            self.agent_definitions.lemma_keys_distinct();
        }
        let mut r: Vec<AgentDefinitionInfo> = Vec::new();
        let mut k: usize = 0;
        while k < entries.len()
            invariant
                k <= entries.len(),
                ps == self.agent_definitions.pairs(),
                entries@.map_values(|e: (String, AgentDefinition)| (e.0@, e.1)) == ps,
                self.agent_definitions.wf(),
                r@.len() == k,
                forall|j: int|
                    0 <= j < k ==> {
                        let d = self.definitions()[self.definition_order()[j]];
                        &&& (#[trigger] r@[j]).id@ == d.id@
                        &&& r@[j].name@ == d.name@
                        &&& opt_view(r@[j].description) == opt_view(d.description)
                        &&& r@[j].has_system_prompt == d.system_prompt is Some
                    },
            decreases entries.len() - k,
        {
            let d = &entries[k].1;
            proof {
                assert(ps[k as int].1 == *d);
                assert(self.definition_order()[k as int] == ps[k as int].0);
                crate::strmap::lemma_key_pos(ps, ps[k as int].0, k as int);
                assert(self.definitions()[ps[k as int].0] == *d);
            }
            let description = match &d.description {
                Some(s) => Some(s.clone()),
                None => None,
            };
            r.push(
                AgentDefinitionInfo {
                    id: d.id.clone(),
                    name: d.name.clone(),
                    description,
                    has_system_prompt: d.system_prompt.is_some(),
                },
            );
            k = k + 1;
        }
        r
    }

    /// Removes definition `id`, if present (its instances keep running).
    pub fn delete_agent_definition(&mut self, id: &str) -> (r: Result<(), GatewayError>)
        requires
            old(self).wf(),
        ensures
            final(self).wf(),
            r is Ok,
            final(self).definitions() == old(self).definitions().remove(id@),
            final(self).sessions_map() == old(self).sessions_map(),
            final(self).session_order() == old(self).session_order(),
            final(self).instances() == old(self).instances(),
            final(self).current_session_spec() == old(self).current_session_spec(),
            final(self).current_instance_spec() == old(self).current_instance_spec(),
            final(self).memory() == old(self).memory(),
            final(self).limits() == old(self).limits(),
            final(self).manager_spec() == old(self).manager_spec(),
            if old(self).definitions().contains_key(id@) {
                &&& one_more(final(self).events_spec(), old(self).events_spec())
                &&& final(self).events_spec().last() matches GatewayEvent::AgentDefinitionDeleted { id: e }
                    && e@ == id@
            } else {
                final(self).events_spec() == old(self).events_spec()
            },
    {
        if self.agent_definitions.remove(id).is_some() {
            let event_id = string_from(id);
            self.events.push(GatewayEvent::AgentDefinitionDeleted { id: event_id });
            assert(self.events@.drop_last() =~= old(self).events@);
        }
        Ok(())
    }

    /// Applies `updates` to definition `id` and stamps it as updated.
    pub fn update_agent_definition(&mut self, id: &str, updates: AgentDefinitionUpdates) -> (r:
        Result<(), GatewayError>)
        requires
            old(self).wf(),
        ensures
            final(self).wf(),
            r is Err <==> !old(self).definitions().contains_key(id@),
            match r {
                Ok(_) => {
                    let o = old(self).definitions()[id@];
                    let d = final(self).definitions()[id@];
                    &&& final(self).definitions() == old(self).definitions().insert(id@, d)
                    &&& d.id == o.id
                    &&& d.name == match updates.name {
                        Some(n) => n,
                        None => o.name,
                    }
                    &&& d.system_prompt == match updates.system_prompt {
                        Some(p) => Some(p),
                        None => o.system_prompt,
                    }
                    &&& d.llm_config == match updates.llm_config {
                        Some(c) => Some(c),
                        None => o.llm_config,
                    }
                    &&& d.description == o.description
                    &&& d.structured_prompt == o.structured_prompt
                    &&& d.prompt_template == o.prompt_template
                    &&& d.created_at == o.created_at
                },
                Err(e) => e == GatewayError::DefinitionNotFound && final(self).definitions()
                    == old(self).definitions(),
            },
            final(self).sessions_map() == old(self).sessions_map(),
            final(self).session_order() == old(self).session_order(),
            final(self).instances() == old(self).instances(),
            final(self).current_session_spec() == old(self).current_session_spec(),
            final(self).current_instance_spec() == old(self).current_instance_spec(),
            final(self).memory() == old(self).memory(),
            final(self).limits() == old(self).limits(),
            final(self).manager_spec() == old(self).manager_spec(),
            final(self).events_spec() == old(self).events_spec(),
    {
        match self.agent_definitions.find(id) {
            None => Err(GatewayError::DefinitionNotFound),
            Some(i) => {
                let ghost before = self.agent_definitions;
                let d = self.agent_definitions.value_at_mut(i);
                if let Some(name) = updates.name {
                    d.name = name;
                }
                if let Some(prompt) = updates.system_prompt {
                    d.system_prompt = Some(prompt);
                }
                if let Some(config) = updates.llm_config {
                    d.llm_config = Some(config);
                }
                d.updated_at = now();
                proof {
                    StrMap::lemma_set_at(&before, &self.agent_definitions, i as int, self.agent_definitions.pairs()[i as int].1);
                }
                Ok(())
            },
        }
    }

    /// How many definitions there are.
    pub fn agent_definition_count(&self) -> (n: usize)
        requires
            self.wf(),
        ensures
            n == self.definitions().len(),
    {
        proof {
            self.agent_definitions.lemma_len();
        }
        self.agent_definitions.len()
    }

    // ==================== sessions ====================

    /// Session ids are listed once each, and the listed ids are the sessions.
    pub proof fn lemma_session_order(&self)
        requires
            self.wf(),
        ensures
            self.session_order().no_duplicates(),
            self.session_order().to_set() == self.sessions_map().dom(),
            self.session_order().len() == self.sessions_map().len(),
    {
        self.sessions.lemma_keys_distinct();
        self.sessions.lemma_len();
        assert(self.session_order().len() == self.sessions.pairs().len());
    }

    /// In a consistent gateway, the current agent instance (if any) runs in
    /// the current session, which lists it; and an instance listed by a
    /// session is that session's.
    pub proof fn law_current_instance_in_current_session(&self)
        requires
            self.wf(),
        ensures
            self.current_instance_spec() matches Some(i) ==> {
                let c = self.current_session_spec().unwrap();
                &&& self.sessions_map().contains_key(c)
                &&& self.instances().contains_key(i)
                &&& self.instances()[i].session_spec() == c
                &&& self.sessions_map()[c].instances().contains(i)
            },
            forall|s: Seq<char>, i: Seq<char>|
                self.sessions_map().contains_key(s) && #[trigger] self.sessions_map()[s].instances().contains(i)
                    ==> self.instances().contains_key(i) && #[trigger] self.instances()[i].session_spec() == s,
    {
        assert forall|s: Seq<char>, i: Seq<char>|
            self.sessions_map().contains_key(s) && #[trigger] self.sessions_map()[s].instances().contains(i)
                implies self.instances().contains_key(i) && #[trigger] self.instances()[i].session_spec() == s by {
            let j = choose|j: int| 0 <= j < self.sessions_map()[s].instances().len()
                && self.sessions_map()[s].instances()[j] == i;
            assert(self.sessions_map()[s].instances()[j] == i);
        }
    }

    /// Creates a session named `name`; it becomes the current session when
    /// there is none.  Fails when the limit of sessions is reached.
    pub fn create_session(&mut self, name: String) -> (r: Result<SessionId, GatewayError>)
        requires
            old(self).wf(),
        ensures
            final(self).wf(),
            final(self).definitions() == old(self).definitions(),
            final(self).definition_order() == old(self).definition_order(),
            final(self).instances() == old(self).instances(),
            final(self).current_instance_spec() == old(self).current_instance_spec(),
            final(self).memory() == old(self).memory(),
            final(self).limits() == old(self).limits(),
            final(self).manager_spec() == old(self).manager_spec(),
            (r matches Err(GatewayError::SessionLimitReached)) <==> old(self).sessions_map().len()
                >= old(self).limits().max_sessions,
            match r {
                Ok(id) => {
                    let s = final(self).sessions_map()[id@];
                    &&& !old(self).sessions_map().contains_key(id@)
                    &&& final(self).sessions_map() == old(self).sessions_map().insert(id@, s)
                    &&& final(self).session_order() == old(self).session_order().push(id@)
                    &&& s.id == id
                    &&& s.name == name
                    &&& s.messages@.len() == 0
                    &&& s.instances().len() == 0
                    &&& s.session_overview is None
                    &&& s.session_summary is None
                    &&& final(self).current_session_spec() == match old(self).current_session_spec() {
                        Some(c) => Some(c),
                        None => Some(id@),
                    }
                    &&& one_more(final(self).events_spec(), old(self).events_spec())
                    &&& final(self).events_spec().last() == (GatewayEvent::SessionCreated { id, name })
                },
                Err(e) => {
                    &&& (e == GatewayError::SessionLimitReached || e == GatewayError::DuplicateId)
                    &&& final(self).same_state(old(self))
                    &&& final(self).events_spec() == old(self).events_spec()
                },
            },
    {
        proof {
            self.sessions.lemma_len();
        }
        if self.sessions.len() >= self.gateway_config.max_sessions {
            return Err(GatewayError::SessionLimitReached);
        }
        let event_name = name.clone();
        let session = Session::new(name);
        if self.sessions.contains_key(session.id.as_str()) {
            return Err(GatewayError::DuplicateId);
        }
        let id = session.id.clone();
        let event_id = session.id.clone();
        let key = session.id.clone();
        let ghost before = *self;
        let ghost sv = session;
        let _ = self.sessions.insert(key, session);
        proof {
            assert(keys_of(self.sessions.pairs()) =~= keys_of(before.sessions.pairs()).push(id@));
            assert(self.sessions_map() == before.sessions_map().insert(id@, sv));
            assert forall|i: Seq<char>| #[trigger] self.instances().contains_key(i) implies {
                let a = self.instances()[i];
                &&& a.id_spec() == i
                &&& self.sessions_map().contains_key(a.session_spec())
                &&& self.sessions_map()[a.session_spec()].instances().contains(i)
            } by {
                assert(before.instances().contains_key(i));
                let a = before.instances()[i];
                assert(before.sessions_map().contains_key(a.session_spec()));
                assert(a.session_spec() != id@);
            }
            assert forall|s: Seq<char>, j: int|
                self.sessions_map().contains_key(s) && 0 <= j < self.sessions_map()[s].instances().len()
                implies {
                let i = #[trigger] self.sessions_map()[s].instances()[j];
                &&& self.instances().contains_key(i)
                &&& self.instances()[i].session_spec() == s
            } by {
                if s != id@ {
                    assert(before.sessions_map()[s] == self.sessions_map()[s]);
                    assert(before.sessions_map()[s].instances()[j] == self.sessions_map()[s].instances()[j]);
                }
            }
            self.sessions.lemma_len();
        }
        if self.current_session_id.is_none() {
            self.current_session_id = Some(id.clone());
        }
        let ghost before_event = self.events@;
        self.events.push(GatewayEvent::SessionCreated { id: event_id, name: event_name });
        assert(self.events@.drop_last() =~= before_event);
        Ok(id)
    }

    /// Makes session `id` current, with its first agent instance (if any)
    /// as the current instance.
    pub fn switch_session(&mut self, id: &str) -> (r: Result<(), GatewayError>)
        requires
            old(self).wf(),
        ensures
            final(self).wf(),
            final(self).definitions() == old(self).definitions(),
            final(self).definition_order() == old(self).definition_order(),
            final(self).sessions_map() == old(self).sessions_map(),
            final(self).session_order() == old(self).session_order(),
            final(self).instances() == old(self).instances(),
            final(self).memory() == old(self).memory(),
            final(self).limits() == old(self).limits(),
            final(self).manager_spec() == old(self).manager_spec(),
            r is Err <==> !old(self).sessions_map().contains_key(id@),
            match r {
                Ok(_) => {
                    &&& final(self).current_session_spec() == Some(id@)
                    &&& final(self).current_instance_spec() == first_of(
                        old(self).sessions_map()[id@].instances(),
                    )
                    &&& one_more(final(self).events_spec(), old(self).events_spec())
                    &&& final(self).events_spec().last() matches GatewayEvent::SessionSwitched { id: e }
                        && e@ == id@
                },
                Err(e) => {
                    &&& e matches GatewayError::SessionNotFound(x) && x@ == id@
                    &&& final(self).same_state(old(self))
                    &&& final(self).events_spec() == old(self).events_spec()
                },
            },
    {
        let first = match self.sessions.get(id) {
            None => {
                return Err(GatewayError::SessionNotFound(string_from(id)));
            },
            Some(session) => {
                let ids = session.agent_instance_ids();
                if ids.len() > 0 {
                    Some(ids[0].clone())
                } else {
                    None
                }
            },
        };
        proof {
            if first is Some {
                let s = self.sessions_map()[id@];
                assert(s.instances()[0] == first.unwrap()@);
            }
        }
        self.current_session_id = Some(string_from(id));
        self.current_agent_instance_id = first;
        let ghost before_event = self.events@;
        self.events.push(GatewayEvent::SessionSwitched { id: string_from(id) });
        assert(self.events@.drop_last() =~= before_event);
        Ok(())
    }

    /// Whether session `id` exists.
    pub fn has_session(&self, id: &str) -> (b: bool)
        requires
            self.wf(),
        ensures
            b == self.sessions_map().contains_key(id@),
    {
        self.sessions.contains_key(id)
    }

    /// Deletes session `id` and its agent instances.  When it was the
    /// current session, the first remaining session (if any) becomes
    /// current, with its first instance.  The session's file is removed by
    /// the caller.
    pub fn delete_session(&mut self, id: &str) -> (r: Result<(), GatewayError>)
        requires
            old(self).wf(),
        ensures
            final(self).wf(),
            r is Ok,
            final(self).definitions() == old(self).definitions(),
            final(self).definition_order() == old(self).definition_order(),
            final(self).memory() == old(self).memory(),
            final(self).limits() == old(self).limits(),
            final(self).manager_spec() == old(self).manager_spec(),
            old(self).sessions_map().contains_key(id@) ==> {
                &&& final(self).sessions_map() == old(self).sessions_map().remove(id@)
                &&& exists|p: int|
                    0 <= p < old(self).session_order().len() && old(self).session_order()[p] == id@
                        && final(self).session_order() == old(self).session_order().remove(p)
                &&& final(self).instances() == old(self).instances().remove_keys(
                    old(self).sessions_map()[id@].instances().to_set(),
                )
                &&& if old(self).current_session_spec() == Some(id@) {
                    &&& final(self).current_session_spec() == first_of(final(self).session_order())
                    &&& final(self).current_instance_spec() == match final(self).current_session_spec() {
                        Some(c) => first_of(final(self).sessions_map()[c].instances()),
                        None => None,
                    }
                } else {
                    &&& final(self).current_session_spec() == old(self).current_session_spec()
                    &&& final(self).current_instance_spec() == old(self).current_instance_spec()
                }
                &&& one_more(final(self).events_spec(), old(self).events_spec())
                &&& final(self).events_spec().last() matches GatewayEvent::SessionDeleted { id: e }
                    && e@ == id@
            },
            !old(self).sessions_map().contains_key(id@) ==> {
                &&& final(self).same_state(old(self))
                &&& final(self).events_spec() == old(self).events_spec()
            },
    {
        let ghost g0 = *self;
        let ghost pos = crate::strmap::key_pos(self.sessions.pairs(), id@);
        let removed = self.sessions.remove(id);
        let session = match removed {
            None => {
                return Ok(());
            },
            Some(s) => s,
        };
        proof {
            assert(self.sessions.pairs() == g0.sessions.pairs().remove(pos));
            assert(self.session_order() =~= g0.session_order().remove(pos));
            assert(g0.session_order()[pos] == id@);
        }
        self.agent_instances.remove_all(&session.agent_instance_ids);
        let ghost gone = g0.sessions_map()[id@].instances().to_set();
        proof {
            assert(session == g0.sessions_map()[id@]);
            assert(session.agent_instance_ids@.map_values(|k: String| k@) == session.instances());
            let s1 = self.sessions_map();
            let i1 = self.instances();
            // an instance of another session was not removed
            assert forall|i: Seq<char>| #[trigger] i1.contains_key(i) implies g0.instances()[i].session_spec()
                != id@ by {
                if g0.instances()[i].session_spec() == id@ {
                    assert(g0.sessions_map()[id@].instances().contains(i));
                    assert(gone.contains(i));
                }
            }
            assert forall|i: Seq<char>| #[trigger] i1.contains_key(i) implies {
                let a = i1[i];
                &&& a.id_spec() == i
                &&& s1.contains_key(a.session_spec())
                &&& s1[a.session_spec()].instances().contains(i)
            } by {
                assert(g0.instances().contains_key(i));
                assert(g0.instances()[i].session_spec() != id@);
            }
            assert forall|s: Seq<char>, j: int|
                s1.contains_key(s) && 0 <= j < s1[s].instances().len() implies {
                let i = #[trigger] s1[s].instances()[j];
                &&& i1.contains_key(i)
                &&& i1[i].session_spec() == s
            } by {
                let i = s1[s].instances()[j];
                assert(s != id@);
                assert(s1[s] == g0.sessions_map()[s]);
                assert(g0.sessions_map()[s].instances()[j] == i);
                if gone.contains(i) {
                    let k = choose|k: int| 0 <= k < g0.sessions_map()[id@].instances().len()
                        && g0.sessions_map()[id@].instances()[k] == i;
                    assert(g0.instances()[g0.sessions_map()[id@].instances()[k]].session_spec() == id@);
                }
            }
            self.sessions.lemma_len();
            self.agent_instances.lemma_len();
        }
        let is_current = match &self.current_session_id {
            Some(c) => crate::text::str_eq(c.as_str(), id),
            None => false,
        };
        if is_current {
            let next = self.sessions.first_key();
            proof {
                self.sessions.lemma_keys_distinct();
                if next is Some {
                    assert(self.session_order()[0] == next.unwrap()@);
                    assert(self.session_order().to_set().contains(next.unwrap()@));
                }
            }
            let first = match &next {
                Some(n) => match self.sessions.get(n.as_str()) {
                    Some(s) => {
                        let ids = s.agent_instance_ids();
                        if ids.len() > 0 {
                            Some(ids[0].clone())
                        } else {
                            None
                        }
                    },
                    None => None,
                },
                None => None,
            };
            proof {
                if first is Some {
                    let c = next.unwrap()@;
                    assert(self.sessions_map()[c].instances()[0] == first.unwrap()@);
                }
            }
            self.current_session_id = next;
            self.current_agent_instance_id = first;
        } else {
            proof {
                if let Some(i) = g0.current_instance_spec() {
                    assert(g0.instances()[i].session_spec() == g0.current_session_spec().unwrap());
                    if gone.contains(i) {
                        let k = choose|k: int| 0 <= k < g0.sessions_map()[id@].instances().len()
                            && g0.sessions_map()[id@].instances()[k] == i;
                        assert(g0.instances()[g0.sessions_map()[id@].instances()[k]].session_spec() == id@);
                    }
                }
            }
        }
        let ghost before_event = self.events@;
        self.events.push(GatewayEvent::SessionDeleted { id: string_from(id) });
        assert(self.events@.drop_last() =~= before_event);
        Ok(())
    }

    /// The current session.
    pub fn current_session(&self) -> (r: Option<&Session>)
        requires
            self.wf(),
        ensures
            match r {
                Some(s) => self.current_session_spec() matches Some(c) && *s == self.sessions_map()[c],
                None => self.current_session_spec() is None,
            },
    {
        match &self.current_session_id {
            Some(c) => self.sessions.get(c.as_str()),
            None => None,
        }
    }

    /// The current session's id.
    pub fn current_session_id(&self) -> (r: Option<&str>)
        ensures
            match r {
                Some(c) => self.current_session_spec() == Some(c@),
                None => self.current_session_spec() is None,
            },
    {
        match &self.current_session_id {
            Some(c) => Some(c.as_str()),
            None => None,
        }
    }

    /// A summary of every session, in the order they were added.
    pub fn list_sessions(&self) -> (r: Vec<SessionInfo>)
        requires
            self.wf(),
        ensures
            r@.len() == self.session_order().len(),
            forall|k: int|
                0 <= k < r@.len() ==> {
                    let s = self.sessions_map()[self.session_order()[k]];
                    &&& (#[trigger] r@[k]).id@ == s.id@
                    &&& r@[k].name@ == s.name@
                    &&& r@[k].created_at == s.created_at
                    &&& r@[k].updated_at == s.updated_at
                    &&& r@[k].message_count == s.messages@.len()
                    &&& r@[k].agent_count == s.instances().len()
                },
    {
        let entries = self.sessions.entries();
        let ghost ps = self.sessions.pairs();
        let mut r: Vec<SessionInfo> = Vec::new();
        let mut k: usize = 0;
        while k < entries.len()
            invariant
                k <= entries.len(),
                ps == self.sessions.pairs(),
                entries@.map_values(|e: (String, Session)| (e.0@, e.1)) == ps,
                self.sessions.wf(),
                r@.len() == k,
                forall|j: int|
                    0 <= j < k ==> {
                        let s = self.sessions_map()[self.session_order()[j]];
                        &&& (#[trigger] r@[j]).id@ == s.id@
                        &&& r@[j].name@ == s.name@
                        &&& r@[j].created_at == s.created_at
                        &&& r@[j].updated_at == s.updated_at
                        &&& r@[j].message_count == s.messages@.len()
                        &&& r@[j].agent_count == s.instances().len()
                    },
            decreases entries.len() - k,
        {
            let s = &entries[k].1;
            proof {
                assert(ps[k as int].1 == *s);
                assert(self.session_order()[k as int] == ps[k as int].0);
                crate::strmap::lemma_key_pos(ps, ps[k as int].0, k as int);
            }
            r.push(SessionInfo::of(s));
            k = k + 1;
        }
        r
    }

    /// How many sessions there are.
    pub fn session_count(&self) -> (n: usize)
        requires
            self.wf(),
        ensures
            n == self.sessions_map().len(),
    {
        proof {
            self.sessions.lemma_len();
        }
        self.sessions.len()
    }

    // ==================== agent instances ====================

    /// Runs definition `definition_id` as a new agent instance in the
    /// current session, with the definition's LLM settings or else the
    /// program's.  The first instance of the gateway becomes the current one.
    pub fn instantiate_agent(&mut self, definition_id: &str) -> (r: Result<AgentInstanceId, GatewayError>)
        requires
            old(self).wf(),
        ensures
            final(self).wf(),
            final(self).definitions() == old(self).definitions(),
            final(self).definition_order() == old(self).definition_order(),
            final(self).session_order() == old(self).session_order(),
            final(self).current_session_spec() == old(self).current_session_spec(),
            final(self).memory() == old(self).memory(),
            final(self).limits() == old(self).limits(),
            final(self).manager_spec() == old(self).manager_spec(),
            (r matches Err(GatewayError::NoActiveSession)) <==> old(self).current_session_spec() is None,
            (r matches Err(GatewayError::AgentLimitReached)) <==> (old(self).current_session_spec() matches Some(
                c,
            ) && old(self).sessions_map()[c].instances().len() >= old(self).limits().max_agents_per_session),
            (r matches Err(GatewayError::DefinitionNotFound)) <==> (old(self).current_session_spec() matches Some(
                c,
            ) && old(self).sessions_map()[c].instances().len() < old(self).limits().max_agents_per_session
                && !old(self).definitions().contains_key(definition_id@)),
            match r {
                Ok(iid) => {
                    let c = old(self).current_session_spec().unwrap();
                    let a = final(self).instances()[iid@];
                    let d = old(self).definitions()[definition_id@];
                    let s = final(self).sessions_map()[c];
                    &&& !old(self).instances().contains_key(iid@)
                    &&& final(self).instances() == old(self).instances().insert(iid@, a)
                    &&& a.id_spec() == iid@
                    &&& a.definition_spec() == definition_id@
                    &&& a.session_spec() == c
                    &&& a.active_spec()
                    &&& llm_settings_for(a.config_spec(), d, old(self).manager_spec().settings())
                    &&& final(self).sessions_map() == old(self).sessions_map().insert(c, s)
                    &&& s.instances() == old(self).sessions_map()[c].instances().push(iid@)
                    &&& s.messages == old(self).sessions_map()[c].messages
                    &&& s.id == old(self).sessions_map()[c].id
                    &&& final(self).current_instance_spec() == match old(self).current_instance_spec() {
                        Some(x) => Some(x),
                        None => Some(iid@),
                    }
                    &&& one_more(final(self).events_spec(), old(self).events_spec())
                    &&& final(self).events_spec().last() matches GatewayEvent::AgentInstanceCreated {
                        id: ei,
                        definition_id: ed,
                        session_id: es,
                    } && ei == iid && ed@ == definition_id@ && es@ == c
                },
                Err(e) => {
                    &&& (e == GatewayError::NoActiveSession || e == GatewayError::AgentLimitReached || e
                        == GatewayError::DefinitionNotFound || e == GatewayError::DuplicateId)
                    &&& final(self).same_state(old(self))
                    &&& final(self).events_spec() == old(self).events_spec()
                },
            },
    {
        let ghost g0 = *self;
        let session_id = match &self.current_session_id {
            Some(c) => c.clone(),
            None => {
                return Err(GatewayError::NoActiveSession);
            },
        };
        let pos = match self.sessions.find(session_id.as_str()) {
            Some(p) => p,
            None => {
                return Err(GatewayError::NoActiveSession);
            },
        };
        let ents = self.sessions.entries();
        let count = ents[pos].1.agent_count();
        proof {
            crate::strmap::lemma_key_pos(self.sessions.pairs(), session_id@, pos as int);
            assert(ents@[pos as int].1 == self.sessions.pairs()[pos as int].1);
            assert(ents@[pos as int].1 == self.sessions_map()[session_id@]);
        }
        if count >= self.gateway_config.max_agents_per_session {
            return Err(GatewayError::AgentLimitReached);
        }
        let llm_config = match self.agent_definitions.get(definition_id) {
            None => {
                return Err(GatewayError::DefinitionNotFound);
            },
            Some(d) => match &d.llm_config {
                Some(c) => c.duplicate(),
                None => self.config_manager.config().llm.client_config(),
            },
        };
        let instance_id = uuid_string(new_uuid());
        if self.agent_instances.contains_key(instance_id.as_str()) {
            return Err(GatewayError::DuplicateId);
        }
        let instance = AgentInstance::new(
            instance_id.clone(),
            string_from(definition_id),
            session_id.clone(),
            llm_config,
        );
        let ghost iv = instance;
        let _ = self.agent_instances.insert(instance_id.clone(), instance);
        let ghost s_before = self.sessions;
        let ghost old_session = self.sessions.pairs()[pos as int].1;
        proof {
            assert(!old_session.instances().contains(instance_id@)) by {
                if old_session.instances().contains(instance_id@) {
                    let j = choose|j: int| 0 <= j < old_session.instances().len()
                        && old_session.instances()[j] == instance_id@;
                    assert(g0.instances().contains_key(old_session.instances()[j]));
                }
            }
        }
        let session = self.sessions.value_at_mut(pos);
        session.add_agent_instance(instance_id.clone());
        proof {
            let ns = self.sessions.pairs()[pos as int].1;
            StrMap::lemma_set_at(&s_before, &self.sessions, pos as int, ns);
            let s1 = self.sessions_map();
            let i1 = self.instances();
            let c = session_id@;
            assert(s1 == g0.sessions_map().insert(c, ns));
            assert(i1 == g0.instances().insert(instance_id@, iv));
            assert(ns.instances() == old_session.instances().push(instance_id@));
            assert forall|x: Seq<char>| #[trigger] s1.contains_key(x) implies s1[x].wf() by {
                if x != c {
                    assert(g0.sessions_map().contains_key(x));
                }
            }
            assert forall|i: Seq<char>| #[trigger] i1.contains_key(i) implies {
                let a = i1[i];
                &&& a.id_spec() == i
                &&& s1.contains_key(a.session_spec())
                &&& s1[a.session_spec()].instances().contains(i)
            } by {
                if i == instance_id@ {
                    assert(ns.instances()[old_session.instances().len() as int] == i);
                } else {
                    let a = g0.instances()[i];
                    assert(g0.sessions_map()[a.session_spec()].instances().contains(i));
                    if a.session_spec() == c {
                        let j = choose|j: int| 0 <= j < old_session.instances().len()
                            && old_session.instances()[j] == i;
                        assert(ns.instances()[j] == i);
                    }
                }
            }
            assert forall|x: Seq<char>, j: int|
                s1.contains_key(x) && 0 <= j < s1[x].instances().len() implies {
                let i = #[trigger] s1[x].instances()[j];
                &&& i1.contains_key(i)
                &&& i1[i].session_spec() == x
            } by {
                if x == c {
                    if j < old_session.instances().len() {
                        assert(ns.instances()[j] == old_session.instances()[j]);
                        assert(g0.sessions_map()[c].instances()[j] == old_session.instances()[j]);
                    }
                } else {
                    assert(g0.sessions_map()[x].instances()[j] == s1[x].instances()[j]);
                }
            }
            self.sessions.lemma_len();
            self.agent_instances.lemma_len();
        }
        if self.current_agent_instance_id.is_none() {
            self.current_agent_instance_id = Some(instance_id.clone());
        }
        let ghost before_event = self.events@;
        self.events.push(
            GatewayEvent::AgentInstanceCreated {
                id: instance_id.clone(),
                definition_id: string_from(definition_id),
                session_id,
            },
        );
        assert(self.events@.drop_last() =~= before_event);
        Ok(instance_id)
    }

    /// Makes agent instance `id`, which must belong to the current session,
    /// the current instance.
    pub fn switch_agent_instance(&mut self, id: &str) -> (r: Result<(), GatewayError>)
        requires
            old(self).wf(),
        ensures
            final(self).wf(),
            final(self).definitions() == old(self).definitions(),
            final(self).definition_order() == old(self).definition_order(),
            final(self).sessions_map() == old(self).sessions_map(),
            final(self).session_order() == old(self).session_order(),
            final(self).instances() == old(self).instances(),
            final(self).current_session_spec() == old(self).current_session_spec(),
            final(self).memory() == old(self).memory(),
            final(self).limits() == old(self).limits(),
            final(self).manager_spec() == old(self).manager_spec(),
            (r matches Err(GatewayError::InstanceNotFound(x))) <==> !old(self).instances().contains_key(id@),
            (r matches Err(GatewayError::InstanceNotInCurrentSession)) <==> (old(self).instances().contains_key(
                id@,
            ) && old(self).current_session_spec() != Some(old(self).instances()[id@].session_spec())),
            match r {
                Ok(_) => {
                    &&& final(self).current_instance_spec() == Some(id@)
                    &&& one_more(final(self).events_spec(), old(self).events_spec())
                    &&& final(self).events_spec().last() matches GatewayEvent::AgentInstanceSwitched { id: e }
                        && e@ == id@
                },
                Err(e) => {
                    &&& (e matches GatewayError::InstanceNotFound(x) ==> x@ == id@)
                    &&& final(self).current_instance_spec() == old(self).current_instance_spec()
                    &&& final(self).events_spec() == old(self).events_spec()
                },
            },
    {
        let belongs = match self.agent_instances.get(id) {
            None => {
                return Err(GatewayError::InstanceNotFound(string_from(id)));
            },
            Some(instance) => match &self.current_session_id {
                Some(c) => crate::text::str_eq(c.as_str(), instance.session_id()),
                None => false,
            },
        };
        if !belongs {
            return Err(GatewayError::InstanceNotInCurrentSession);
        }
        self.current_agent_instance_id = Some(string_from(id));
        let ghost before_event = self.events@;
        self.events.push(GatewayEvent::AgentInstanceSwitched { id: string_from(id) });
        assert(self.events@.drop_last() =~= before_event);
        Ok(())
    }

    /// Deletes agent instance `id`, if present, from its session.  When it
    /// was the current instance, the first remaining instance of that session
    /// (if any) becomes current.
    pub fn delete_agent_instance(&mut self, id: &str) -> (r: Result<(), GatewayError>)
        requires
            old(self).wf(),
        ensures
            final(self).wf(),
            r is Ok,
            final(self).definitions() == old(self).definitions(),
            final(self).definition_order() == old(self).definition_order(),
            final(self).session_order() == old(self).session_order(),
            final(self).current_session_spec() == old(self).current_session_spec(),
            final(self).memory() == old(self).memory(),
            final(self).limits() == old(self).limits(),
            final(self).manager_spec() == old(self).manager_spec(),
            old(self).instances().contains_key(id@) ==> {
                let c = old(self).instances()[id@].session_spec();
                let s = final(self).sessions_map()[c];
                &&& final(self).instances() == old(self).instances().remove(id@)
                &&& final(self).sessions_map() == old(self).sessions_map().insert(c, s)
                &&& s.instances() == old(self).sessions_map()[c].instances().remove(
                    old(self).sessions_map()[c].instances().index_of(id@),
                )
                &&& s.messages == old(self).sessions_map()[c].messages
                &&& s.id == old(self).sessions_map()[c].id
                &&& final(self).current_instance_spec() == if old(self).current_instance_spec() == Some(id@) {
                    first_of(s.instances())
                } else {
                    old(self).current_instance_spec()
                }
                &&& one_more(final(self).events_spec(), old(self).events_spec())
                &&& final(self).events_spec().last() matches GatewayEvent::AgentInstanceDeleted { id: e }
                    && e@ == id@
            },
            !old(self).instances().contains_key(id@) ==> {
                &&& final(self).same_state(old(self))
                &&& final(self).events_spec() == old(self).events_spec()
            },
    {
        let ghost g0 = *self;
        let instance = match self.agent_instances.remove(id) {
            None => {
                return Ok(());
            },
            Some(a) => a,
        };
        let session_id = string_from(instance.session_id());
        let ghost c = session_id@;
        let ghost old_session = g0.sessions_map()[c];
        let pos = match self.sessions.find(session_id.as_str()) {
            Some(p) => p,
            None => {
                proof {
                    assert(false);
                }
                return Ok(());
            },
        };
        proof {
            crate::strmap::lemma_key_pos(self.sessions.pairs(), c, pos as int);
        }
        let ghost s_before = self.sessions;
        let session = self.sessions.value_at_mut(pos);
        let _ = session.remove_agent_instance(id);
        proof {
            let ns = self.sessions.pairs()[pos as int].1;
            StrMap::lemma_set_at(&s_before, &self.sessions, pos as int, ns);
            assert(old_session.instances().contains(id@));
            let s1 = self.sessions_map();
            let i1 = self.instances();
            assert forall|x: Seq<char>| #[trigger] s1.contains_key(x) implies s1[x].wf() by {
                if x != c {
                    assert(g0.sessions_map().contains_key(x));
                }
            }
            assert forall|i: Seq<char>| #[trigger] i1.contains_key(i) implies {
                let a = i1[i];
                &&& a.id_spec() == i
                &&& s1.contains_key(a.session_spec())
                &&& s1[a.session_spec()].instances().contains(i)
            } by {
                let a = g0.instances()[i];
                assert(g0.sessions_map()[a.session_spec()].instances().contains(i));
                if a.session_spec() == c {
                    assert(ns.instances().contains(i));
                }
            }
            assert forall|x: Seq<char>, j: int|
                s1.contains_key(x) && 0 <= j < s1[x].instances().len() implies {
                let i = #[trigger] s1[x].instances()[j];
                &&& i1.contains_key(i)
                &&& i1[i].session_spec() == x
            } by {
                let i = s1[x].instances()[j];
                if x == c {
                    assert(ns.instances().contains(i));
                    assert(old_session.instances().contains(i));
                    let jj = choose|jj: int| 0 <= jj < old_session.instances().len()
                        && old_session.instances()[jj] == i;
                    assert(g0.sessions_map()[c].instances()[jj] == i);
                    assert(i != id@);
                } else {
                    assert(g0.sessions_map()[x].instances()[j] == i);
                    assert(g0.instances()[i].session_spec() == x);
                }
            }
            self.sessions.lemma_len();
            self.agent_instances.lemma_len();
        }
        let was_current = match &self.current_agent_instance_id {
            Some(x) => crate::text::str_eq(x.as_str(), id),
            None => false,
        };
        if was_current {
            let ents = self.sessions.entries();
            let first = {
                let ids = ents[pos].1.agent_instance_ids();
                if ids.len() > 0 {
                    Some(ids[0].clone())
                } else {
                    None
                }
            };
            proof {
                let ns = self.sessions.pairs()[pos as int].1;
                assert(ents@[pos as int].1 == ns);
                assert(self.sessions_map()[c] == ns);
                if first is Some {
                    assert(ns.instances()[0] == first.unwrap()@);
                }
            }
            self.current_agent_instance_id = first;
        } else {
            proof {
                if let Some(x) = g0.current_instance_spec() {
                    assert(x != id@);
                }
            }
        }
        let ghost before_event = self.events@;
        self.events.push(GatewayEvent::AgentInstanceDeleted { id: string_from(id) });
        assert(self.events@.drop_last() =~= before_event);
        Ok(())
    }

    /// The current agent instance.
    pub fn current_agent_instance(&self) -> (r: Option<&AgentInstance>)
        requires
            self.wf(),
        ensures
            match r {
                Some(a) => self.current_instance_spec() matches Some(i) && *a == self.instances()[i],
                None => self.current_instance_spec() is None,
            },
    {
        match &self.current_agent_instance_id {
            Some(i) => self.agent_instances.get(i.as_str()),
            None => None,
        }
    }

    /// The current agent instance's id.
    pub fn current_agent_instance_id(&self) -> (r: Option<&str>)
        ensures
            match r {
                Some(i) => self.current_instance_spec() == Some(i@),
                None => self.current_instance_spec() is None,
            },
    {
        match &self.current_agent_instance_id {
            Some(i) => Some(i.as_str()),
            None => None,
        }
    }

    /// How many agent instances the current session has (0 without one).
    pub fn agent_instance_count(&self) -> (n: usize)
        requires
            self.wf(),
        ensures
            n == match self.current_session_spec() {
                Some(c) => self.sessions_map()[c].instances().len(),
                None => 0,
            },
    {
        match self.current_session() {
            Some(s) => s.agent_count(),
            None => 0,
        }
    }

    /// Whether the current session has an agent instance.
    pub fn has_agent_instances(&self) -> (b: bool)
        requires
            self.wf(),
        ensures
            b == (self.current_session_spec() matches Some(c) && self.sessions_map()[c].instances().len()
                > 0),
    {
        match self.current_session() {
            Some(s) => s.agent_count() > 0,
            None => false,
        }
    }

    /// A summary of each agent instance of the current session, in the
    /// session's order: its definition's name (empty when the definition is
    /// gone) and whether it is the current instance.
    pub fn list_agent_instances(&self) -> (r: Vec<AgentInstanceInfo>)
        requires
            self.wf(),
        ensures
            match self.current_session_spec() {
                None => r@.len() == 0,
                Some(c) => {
                    let ids = self.sessions_map()[c].instances();
                    &&& r@.len() == ids.len()
                    &&& forall|k: int|
                        0 <= k < r@.len() ==> {
                            let a = self.instances()[ids[k]];
                            &&& (#[trigger] r@[k]).id@ == ids[k]
                            &&& r@[k].definition_id@ == a.definition_spec()
                            &&& r@[k].definition_name@ == if self.definitions().contains_key(
                                a.definition_spec(),
                            ) {
                                self.definitions()[a.definition_spec()].name@
                            } else {
                                Seq::<char>::empty()
                            }
                            &&& r@[k].is_current == (self.current_instance_spec() == Some(ids[k]))
                        }
                },
            },
    {
        let mut r: Vec<AgentInstanceInfo> = Vec::new();
        let session = match self.current_session() {
            Some(s) => s,
            None => {
                return r;
            },
        };
        let ghost c = self.current_session_spec().unwrap();
        let ghost ids = session.instances();
        let ids_vec = session.agent_instance_ids();
        let mut k: usize = 0;
        while k < ids_vec.len()
            invariant
                k <= ids_vec.len(),
                self.wf(),
                self.current_session_spec() == Some(c),
                self.sessions_map().contains_key(c),
                ids == self.sessions_map()[c].instances(),
                crate::text::views(ids_vec@) == ids,
                r@.len() == k,
                forall|j: int|
                    0 <= j < k ==> {
                        let a = self.instances()[ids[j]];
                        &&& (#[trigger] r@[j]).id@ == ids[j]
                        &&& r@[j].definition_id@ == a.definition_spec()
                        &&& r@[j].definition_name@ == if self.definitions().contains_key(
                            a.definition_spec(),
                        ) {
                            self.definitions()[a.definition_spec()].name@
                        } else {
                            Seq::<char>::empty()
                        }
                        &&& r@[j].is_current == (self.current_instance_spec() == Some(ids[j]))
                    },
            decreases ids_vec.len() - k,
        {
            let iid = &ids_vec[k];
            assert(ids[k as int] == iid@);
            let instance = match self.agent_instances.get(iid.as_str()) {
                Some(a) => a,
                None => {
                    proof {
                        assert(self.instances().contains_key(self.sessions_map()[c].instances()[k as int]));
                    }
                    return r;
                },
            };
            let definition_name = match self.agent_definitions.get(instance.definition_id()) {
                Some(d) => d.name.clone(),
                None => String::new(),
            };
            let is_current = match &self.current_agent_instance_id {
                Some(x) => crate::text::str_eq(x.as_str(), iid.as_str()),
                None => false,
            };
            r.push(
                AgentInstanceInfo {
                    id: iid.clone(),
                    definition_id: string_from(instance.definition_id()),
                    definition_name,
                    is_current,
                },
            );
            k = k + 1;
        }
        r
    }

    // ==================== messages ====================

    /// The current instance's definition, when there is one, can build its
    /// system prompt.
    pub open spec fn can_send(&self) -> bool {
        match self.current_instance_spec() {
            Some(i) => self.instances().contains_key(i) && self.definitions().contains_key(
                self.instances()[i].definition_spec(),
            ) ==> self.definitions()[self.instances()[i].definition_spec()].prompt_ok(),
            None => true,
        }
    }

    /// Whether `can_send` holds.
    pub fn check_can_send(&self) -> (b: bool)
        requires
            self.wf(),
        ensures
            b == self.can_send(),
    {
        let instance = match self.current_agent_instance() {
            Some(a) => a,
            None => {
                return true;
            },
        };
        match self.agent_definitions.get(instance.definition_id()) {
            Some(d) => d.can_build_system_prompt(),
            None => true,
        }
    }

    /// Records the user's message in the current session and prepares the
    /// request for the current agent instance: the definition's system prompt,
    /// built with the session's overview, summary, the global memory and the
    /// instance's part of the conversation, followed by the session's
    /// messages.  The caller sends it and hands the reply to
    /// `finish_message`.
    pub fn begin_message(&mut self, input: AgentInput) -> (r: Result<PendingMessage, GatewayError>)
        requires
            old(self).wf(),
            old(self).can_send(),
        ensures
            final(self).wf(),
            final(self).definitions() == old(self).definitions(),
            final(self).definition_order() == old(self).definition_order(),
            final(self).session_order() == old(self).session_order(),
            final(self).instances() == old(self).instances(),
            final(self).current_session_spec() == old(self).current_session_spec(),
            final(self).current_instance_spec() == old(self).current_instance_spec(),
            final(self).memory() == old(self).memory(),
            final(self).limits() == old(self).limits(),
            final(self).manager_spec() == old(self).manager_spec(),
            final(self).events_spec() == old(self).events_spec(),
            (r matches Err(GatewayError::NoActiveAgentInstance)) <==> old(self).current_instance_spec() is None,
            r matches Err(e) ==> (e == GatewayError::NoActiveAgentInstance || e == GatewayError::DefinitionNotFound),
            r matches Err(GatewayError::NoActiveAgentInstance) ==> final(self).sessions_map() == old(self).sessions_map(),
            old(self).current_instance_spec() matches Some(i) ==> {
                let c = old(self).current_session_spec().unwrap();
                let a = old(self).instances()[i];
                let s = final(self).sessions_map()[c];
                let o = old(self).sessions_map()[c];
                &&& final(self).sessions_map() == old(self).sessions_map().insert(c, s)
                &&& s.messages@.len() == o.messages@.len() + 1
                &&& s.messages@.drop_last() == o.messages@
                &&& s.messages@.last().role == MessageRole::User
                &&& s.messages@.last().content@ == input.content@
                &&& (s.messages@.last().agent_instance_id matches Some(x) && x@ == i)
                &&& s.instances() == o.instances()
                &&& s.id == o.id
                &&& s.session_overview == o.session_overview
                &&& s.session_summary == o.session_summary
                &&& (r matches Err(GatewayError::DefinitionNotFound)) <==> !old(self).definitions().contains_key(
                    a.definition_spec(),
                )
                &&& r matches Ok(p) ==> {
                    let d = old(self).definitions()[a.definition_spec()];
                    let sp = system_prompt_of(d, context_vars(s, old(self).memory(), i));
                    &&& p.instance_id@ == i
                    &&& p.session_id@ == c
                    &&& p.content_preview@ == input.content@.take(min_int(50, input.content@.len() as int))
                    &&& p.llm_config.same_as(&a.config_spec())
                    &&& p.messages@.map_values(|m: ChatMessage| chat_view(m)) == request_view(sp, s.messages@)
                }
            },
    {
        let ghost g0 = *self;
        let instance_id = match &self.current_agent_instance_id {
            Some(i) => i.clone(),
            None => {
                return Err(GatewayError::NoActiveAgentInstance);
            },
        };
        let ghost i = instance_id@;
        let session_id = match &self.current_session_id {
            Some(c) => c.clone(),
            None => {
                proof {
                    assert(false);
                }
                return Err(GatewayError::NoActiveAgentInstance);
            },
        };
        let ghost c = session_id@;
        let content_chars = chars_of(input.content.as_str());
        let n: usize = if content_chars.len() < 50 {
            content_chars.len()
        } else {
            50
        };
        let content_preview = string_of(&crate::text::slice(&content_chars, 0, n));
        proof {
            assert(content_chars@.subrange(0, n as int) =~= input.content@.take(min_int(50, input.content@.len() as int)));
        }
        let pos = match self.sessions.find(session_id.as_str()) {
            Some(p) => p,
            None => {
                proof {
                    assert(false);
                }
                return Err(GatewayError::NoActiveAgentInstance);
            },
        };
        proof {
            crate::strmap::lemma_key_pos(self.sessions.pairs(), c, pos as int);
        }
        let ghost s_before = self.sessions;
        let session = self.sessions.value_at_mut(pos);
        session.add_user_message(input.content.as_str(), Some(instance_id.clone()));
        proof {
            let ns = self.sessions.pairs()[pos as int].1;
            StrMap::lemma_set_at(&s_before, &self.sessions, pos as int, ns);
            assert(ns.messages@.drop_last() =~= g0.sessions_map()[c].messages@);
            self.lemma_wf_after_session_update(&g0, c);
        }
        let ents = self.sessions.entries();
        let session = &ents[pos].1;
        proof {
            assert(*session == self.sessions_map()[c]);
        }
        let mut ctx = PromptContext::new();
        if let Some(o) = session.get_session_overview() {
            ctx.insert(string_from("session_overview"), o.clone());
        }
        if let Some(m) = session.get_session_summary() {
            ctx.insert(string_from("session_summary"), m.clone());
        }
        if let Some(g) = &self.global_memory {
            ctx.insert(string_from("global_memory"), g.clone());
        }
        let agent_messages = session.get_agent_context(instance_id.as_str());
        if agent_messages.len() > 0 {
            let text = format_context(agent_messages.as_slice());
            proof {
                let am = agent_messages_of(session.messages@, i);
                assert(context_lines(agent_messages@) =~= am.map_values(|m: SessionMessage| session_context_line(m)));
            }
            ctx.insert(string_from("context"), text);
        }
        proof {
            assert(ctx@ =~= context_vars(*session, g0.memory(), i));
        }
        let messages = session.to_chat_messages();
        let instance = match self.agent_instances.get(instance_id.as_str()) {
            Some(a) => a,
            None => {
                proof {
                    assert(false);
                }
                return Err(GatewayError::NoActiveAgentInstance);
            },
        };
        let definition = match self.agent_definitions.get(instance.definition_id()) {
            Some(d) => d,
            None => {
                return Err(GatewayError::DefinitionNotFound);
            },
        };
        let ghost sp = system_prompt_of(*definition, ctx@);
        let full = instance.prepare_messages(messages, &ctx, definition);
        proof {
            let ms = session.messages@;
            let fv = full@.map_values(|m: ChatMessage| chat_view(m));
            if sp.len() == 0 {
                assert(fv =~= session_chat(ms));
            } else {
                assert(fv =~= seq![("system"@, sp)] + session_chat(ms)) by {
                    assert forall|k: int| 0 <= k < fv.len() implies #[trigger] fv[k] == (seq![("system"@, sp)] + session_chat(ms))[k] by {
                        if k > 0 {
                            assert(full@.subrange(1, full@.len() as int)[k - 1] == full@[k]);
                        }
                    }
                }
            }
        }
        let llm_config = instance.llm_config().duplicate();
        Ok(PendingMessage { instance_id, session_id, content_preview, messages: full, llm_config })
    }

    /// A change to session `c` that keeps its instance list keeps the
    /// gateway's invariant.
    proof fn lemma_wf_after_session_update(&self, g0: &Gateway, c: Seq<char>)
        requires
            g0.wf(),
            self.storage_ok(),
            g0.sessions_map().contains_key(c),
            self.sessions_map() == g0.sessions_map().insert(c, self.sessions_map()[c]),
            self.sessions_map()[c].agent_instance_ids == g0.sessions_map()[c].agent_instance_ids,
            self.instances() == g0.instances(),
            self.current_session_spec() == g0.current_session_spec(),
            self.current_instance_spec() == g0.current_instance_spec(),
        ensures
            self.wf(),
    {
        let s1 = self.sessions_map();
        assert(s1[c].instances() == g0.sessions_map()[c].instances());
        assert forall|x: Seq<char>| #[trigger] s1.contains_key(x) implies s1[x].wf() by {
            if x != c {
                assert(g0.sessions_map().contains_key(x));
            }
        }
        assert forall|i: Seq<char>| #[trigger] self.instances().contains_key(i) implies {
            let a = self.instances()[i];
            &&& a.id_spec() == i
            &&& s1.contains_key(a.session_spec())
            &&& s1[a.session_spec()].instances().contains(i)
        } by {
            let a = g0.instances()[i];
            assert(g0.sessions_map()[a.session_spec()].instances().contains(i));
        }
        assert forall|x: Seq<char>, j: int|
            s1.contains_key(x) && 0 <= j < s1[x].instances().len() implies {
            let i = #[trigger] s1[x].instances()[j];
            &&& self.instances().contains_key(i)
            &&& self.instances()[i].session_spec() == x
        } by {
            assert(g0.sessions_map()[x].instances()[j] == s1[x].instances()[j]);
        }
        self.sessions.lemma_len();
        self.agent_instances.lemma_len();
    }

    /// Completes a message begun with `begin_message` with the LLM's reply
    /// (or the error text of a failed request): the agent's output is
    /// recorded as an assistant message of the session, and the sent and
    /// received messages as events.
    pub fn finish_message(&mut self, pending: PendingMessage, reply: Result<ChatResponse, String>) -> (r:
        Result<AgentOutput, GatewayError>)
        requires
            old(self).wf(),
        ensures
            final(self).wf(),
            final(self).definitions() == old(self).definitions(),
            final(self).definition_order() == old(self).definition_order(),
            final(self).session_order() == old(self).session_order(),
            final(self).instances() == old(self).instances(),
            final(self).current_session_spec() == old(self).current_session_spec(),
            final(self).current_instance_spec() == old(self).current_instance_spec(),
            final(self).memory() == old(self).memory(),
            final(self).limits() == old(self).limits(),
            final(self).manager_spec() == old(self).manager_spec(),
            (r matches Err(GatewayError::MissingInstance)) <==> !old(self).instances().contains_key(
                pending.instance_id@,
            ),
            (r matches Err(GatewayError::MissingSession)) <==> (old(self).instances().contains_key(
                pending.instance_id@,
            ) && !old(self).sessions_map().contains_key(pending.session_id@)),
            r matches Err(e) ==> (e == GatewayError::MissingInstance || e == GatewayError::MissingSession),
            r is Err ==> final(self).sessions_map() == old(self).sessions_map() && final(self).events_spec()
                == old(self).events_spec(),
            r matches Ok(o) ==> {
                let c = pending.session_id@;
                let s = final(self).sessions_map()[c];
                let so = old(self).sessions_map()[c];
                &&& reply_output(o, reply)
                &&& final(self).sessions_map() == old(self).sessions_map().insert(c, s)
                &&& s.messages@.len() == so.messages@.len() + 1
                &&& s.messages@.drop_last() == so.messages@
                &&& s.messages@.last().role == MessageRole::Assistant
                &&& s.messages@.last().content@ == o.content@
                &&& (s.messages@.last().agent_instance_id matches Some(x) && x@ == pending.instance_id@)
                &&& s.instances() == so.instances()
                &&& s.id == so.id
                &&& final(self).events_spec().len() == old(self).events_spec().len() + 2
                &&& final(self).events_spec().subrange(0, old(self).events_spec().len() as int)
                    == old(self).events_spec()
                &&& final(self).events_spec()[old(self).events_spec().len() as int] == (GatewayEvent::MessageSent {
                    agent_instance_id: pending.instance_id,
                    content: pending.content_preview,
                })
                &&& final(self).events_spec().last() == (GatewayEvent::MessageReceived {
                    agent_instance_id: pending.instance_id,
                    output: o,
                })
            },
    {
        let ghost g0 = *self;
        let ipos = match self.agent_instances.find(pending.instance_id.as_str()) {
            Some(p) => p,
            None => {
                return Err(GatewayError::MissingInstance);
            },
        };
        let spos = match self.sessions.find(pending.session_id.as_str()) {
            Some(p) => p,
            None => {
                return Err(GatewayError::MissingSession);
            },
        };
        let ghost i_before = self.agent_instances;
        let instance = self.agent_instances.value_at_mut(ipos);
        let output = match reply {
            Ok(response) => instance.handle_success(response),
            Err(message) => instance.handle_error(message),
        };
        proof {
            let a = self.agent_instances.pairs()[ipos as int].1;
            StrMap::lemma_set_at(&i_before, &self.agent_instances, ipos as int, a);
            assert(self.agent_instances@ =~= i_before@);
            assert(self.agent_instances.pairs() =~= i_before.pairs());
            crate::strmap::lemma_key_pos(self.sessions.pairs(), pending.session_id@, spos as int);
        }
        let ghost s_before = self.sessions;
        let ghost c = pending.session_id@;
        let session = self.sessions.value_at_mut(spos);
        session.add_assistant_message(output.content.as_str(), Some(pending.instance_id.clone()));
        proof {
            let ns = self.sessions.pairs()[spos as int].1;
            StrMap::lemma_set_at(&s_before, &self.sessions, spos as int, ns);
            assert(ns.messages@.drop_last() =~= g0.sessions_map()[c].messages@);
            self.lemma_wf_after_session_update(&g0, c);
        }
        let ghost e0 = self.events@;
        let received = output.duplicate();
        let instance_id = pending.instance_id;
        self.events.push(
            GatewayEvent::MessageSent { agent_instance_id: instance_id.clone(), content: pending.content_preview },
        );
        self.events.push(GatewayEvent::MessageReceived { agent_instance_id: instance_id, output: received });
        assert(self.events@.subrange(0, e0.len() as int) =~= e0);
        Ok(output)
    }

    /// Empties the current session's history.
    pub fn clear_current_session_history(&mut self) -> (r: Result<(), GatewayError>)
        requires
            old(self).wf(),
        ensures
            final(self).wf(),
            final(self).definitions() == old(self).definitions(),
            final(self).definition_order() == old(self).definition_order(),
            final(self).session_order() == old(self).session_order(),
            final(self).instances() == old(self).instances(),
            final(self).current_session_spec() == old(self).current_session_spec(),
            final(self).current_instance_spec() == old(self).current_instance_spec(),
            final(self).memory() == old(self).memory(),
            final(self).limits() == old(self).limits(),
            final(self).manager_spec() == old(self).manager_spec(),
            final(self).events_spec() == old(self).events_spec(),
            (r matches Err(e) && e == GatewayError::NoActiveSession) <==> old(self).current_session_spec() is None,
            r is Err ==> final(self).sessions_map() == old(self).sessions_map(),
            r is Ok ==> {
                let c = old(self).current_session_spec().unwrap();
                let s = final(self).sessions_map()[c];
                &&& final(self).sessions_map() == old(self).sessions_map().insert(c, s)
                &&& s.messages@.len() == 0
                &&& s.instances() == old(self).sessions_map()[c].instances()
                &&& s.id == old(self).sessions_map()[c].id
            },
    {
        let ghost g0 = *self;
        let pos = match &self.current_session_id {
            None => {
                return Err(GatewayError::NoActiveSession);
            },
            Some(c) => match self.sessions.find(c.as_str()) {
                Some(p) => p,
                None => {
                    proof {
                        assert(false);
                    }
                    return Err(GatewayError::NoActiveSession);
                },
            },
        };
        let ghost c = g0.current_session_spec().unwrap();
        proof {
            crate::strmap::lemma_key_pos(self.sessions.pairs(), c, pos as int);
        }
        let ghost s_before = self.sessions;
        let session = self.sessions.value_at_mut(pos);
        session.clear_messages();
        proof {
            let ns = self.sessions.pairs()[pos as int].1;
            StrMap::lemma_set_at(&s_before, &self.sessions, pos as int, ns);
            self.lemma_wf_after_session_update(&g0, c);
        }
        Ok(())
    }

    /// How many messages the current session holds (0 without one).
    pub fn message_count(&self) -> (n: usize)
        requires
            self.wf(),
        ensures
            n == match self.current_session_spec() {
                Some(c) => self.sessions_map()[c].messages@.len(),
                None => 0,
            },
    {
        match self.current_session() {
            Some(s) => s.message_count(),
            None => 0,
        }
    }

    // ==================== settings ====================

    /// Gives every agent instance the program's current LLM settings.
    pub fn update_config(&mut self) -> (r: Result<(), GatewayError>)
        requires
            old(self).wf(),
        ensures
            final(self).wf(),
            r is Ok,
            final(self).definitions() == old(self).definitions(),
            final(self).definition_order() == old(self).definition_order(),
            final(self).sessions_map() == old(self).sessions_map(),
            final(self).session_order() == old(self).session_order(),
            final(self).current_session_spec() == old(self).current_session_spec(),
            final(self).current_instance_spec() == old(self).current_instance_spec(),
            final(self).memory() == old(self).memory(),
            final(self).limits() == old(self).limits(),
            final(self).manager_spec() == old(self).manager_spec(),
            final(self).events_spec() == old(self).events_spec(),
            final(self).instances().dom() == old(self).instances().dom(),
            forall|i: Seq<char>| #[trigger]
                final(self).instances().contains_key(i) ==> {
                    let a = final(self).instances()[i];
                    let o = old(self).instances()[i];
                    let c = old(self).manager_spec().settings().llm;
                    &&& a.id_spec() == o.id_spec()
                    &&& a.definition_spec() == o.definition_spec()
                    &&& a.session_spec() == o.session_spec()
                    &&& a.active_spec() == o.active_spec()
                    &&& a.config_spec().api_base@ == c.api_base@
                    &&& a.config_spec().api_key@ == c.api_key@
                    &&& a.config_spec().model@ == c.model@
                    &&& a.config_spec().max_tokens == c.max_tokens
                    &&& a.config_spec().temperature_bits == c.temperature_bits
                },
    {
        let ghost g0 = *self;
        let new_config = self.config_manager.config().llm.client_config();
        let n = self.agent_instances.len();
        let mut k: usize = 0;
        while k < n
            invariant
                k <= n,
                n == self.agent_instances.pairs().len(),
                self.agent_instances.wf(),
                self.sessions == g0.sessions,
                self.agent_definitions == g0.agent_definitions,
                self.agent_definition_dir == g0.agent_definition_dir,
                self.current_session_id == g0.current_session_id,
                self.current_agent_instance_id == g0.current_agent_instance_id,
                self.config_manager == g0.config_manager,
                self.gateway_config == g0.gateway_config,
                self.global_memory == g0.global_memory,
                self.events == g0.events,
                keys_of(self.agent_instances.pairs()) == keys_of(g0.agent_instances.pairs()),
                self.agent_instances@.dom() == g0.agent_instances@.dom(),
                new_config.api_base@ == g0.manager_spec().settings().llm.api_base@,
                new_config.api_key@ == g0.manager_spec().settings().llm.api_key@,
                new_config.model@ == g0.manager_spec().settings().llm.model@,
                new_config.max_tokens == g0.manager_spec().settings().llm.max_tokens,
                new_config.temperature_bits == g0.manager_spec().settings().llm.temperature_bits,
                forall|j: int|
                    0 <= j < n ==> {
                        let a = #[trigger] self.agent_instances.pairs()[j].1;
                        let o = g0.agent_instances.pairs()[j].1;
                        &&& a.id_spec() == o.id_spec()
                        &&& a.definition_spec() == o.definition_spec()
                        &&& a.session_spec() == o.session_spec()
                        &&& a.active_spec() == o.active_spec()
                        &&& j < k ==> a.config_spec().same_as(&new_config)
                        &&& j >= k ==> a == o
                    },
            decreases n - k,
        {
            let ghost before = self.agent_instances;
            let instance = self.agent_instances.value_at_mut(k);
            instance.update_llm_config(new_config.duplicate());
            proof {
                let a = self.agent_instances.pairs()[k as int].1;
                StrMap::lemma_set_at(&before, &self.agent_instances, k as int, a);
                assert forall|j: int| 0 <= j < n implies #[trigger] self.agent_instances.pairs()[j].1 == if j == k {
                    a
                } else {
                    before.pairs()[j].1
                } by {}
                assert(keys_of(self.agent_instances.pairs()) =~= keys_of(before.pairs()));
            }
            k = k + 1;
        }
        proof {
            let ps = self.agent_instances.pairs();
            let ps0 = g0.agent_instances.pairs();
            assert forall|i: Seq<char>| #[trigger] self.instances().contains_key(i) implies {
                let a = self.instances()[i];
                let o = g0.instances()[i];
                &&& a.id_spec() == o.id_spec()
                &&& a.definition_spec() == o.definition_spec()
                &&& a.session_spec() == o.session_spec()
                &&& a.active_spec() == o.active_spec()
                &&& a.config_spec().same_as(&new_config)
            } by {
                let j = crate::strmap::key_pos(ps, i);
                assert(ps[j].0 == i);
                assert(keys_of(ps)[j] == keys_of(ps0)[j]);
                crate::strmap::lemma_key_pos(ps0, i, j);
            }
            let i1 = self.instances();
            let s1 = self.sessions_map();
            assert forall|i: Seq<char>| #[trigger] i1.contains_key(i) implies {
                let a = i1[i];
                &&& a.id_spec() == i
                &&& s1.contains_key(a.session_spec())
                &&& s1[a.session_spec()].instances().contains(i)
            } by {
                assert(i1.dom().contains(i));
                assert(g0.instances().dom().contains(i));
                assert(i1[i].id_spec() == g0.instances()[i].id_spec());
                assert(i1[i].session_spec() == g0.instances()[i].session_spec());
            }
            assert forall|x: Seq<char>, j: int|
                s1.contains_key(x) && 0 <= j < s1[x].instances().len() implies {
                let i = #[trigger] s1[x].instances()[j];
                &&& i1.contains_key(i)
                &&& i1[i].session_spec() == x
            } by {
                let i = s1[x].instances()[j];
                assert(g0.sessions_map()[x].instances()[j] == i);
                assert(g0.instances().dom().contains(i));
                assert(i1.dom().contains(i));
                assert(i1[i].session_spec() == g0.instances()[i].session_spec());
            }
            self.agent_instances.lemma_len();
        }
        Ok(())
    }

    /// The configuration manager.
    pub fn config_manager(&self) -> (c: &ConfigManager)
        ensures
            *c == self.manager_spec(),
    {
        &self.config_manager
    }

    /// The configuration manager, for changing settings.
    pub fn config_manager_mut(&mut self) -> (c: &mut ConfigManager)
        ensures
            *c == old(self).manager_spec(),
            final(self).manager_spec() == *final(c),
            final(self).definitions() == old(self).definitions(),
            final(self).definition_order() == old(self).definition_order(),
            final(self).sessions_map() == old(self).sessions_map(),
            final(self).session_order() == old(self).session_order(),
            final(self).instances() == old(self).instances(),
            final(self).current_session_spec() == old(self).current_session_spec(),
            final(self).current_instance_spec() == old(self).current_instance_spec(),
            final(self).memory() == old(self).memory(),
            final(self).limits() == old(self).limits(),
            final(self).events_spec() == old(self).events_spec(),
            final(self).storage_ok() == old(self).storage_ok(),
    {
        &mut self.config_manager
    }

    /// The logger.
    pub fn logger(&self) -> (l: &Logger)
        ensures
            *l == self.logger_spec(),
    {
        &self.logger
    }

    /// Changes the level of the logger that every part of the program logs
    /// through; nothing else changes.
    pub fn set_log_level(&mut self, level: LogLevel)
        requires
            old(self).wf(),
        ensures
            final(self).wf(),
            final(self).logger_spec().lvl() == level,
            final(self).logger_spec().dir() == old(self).logger_spec().dir(),
            final(self).logger_spec().file() == old(self).logger_spec().file(),
            final(self).manager_spec() == old(self).manager_spec(),
            final(self).session_manager_spec() == old(self).session_manager_spec(),
            final(self).definitions() == old(self).definitions(),
            final(self).definition_order() == old(self).definition_order(),
            final(self).sessions_map() == old(self).sessions_map(),
            final(self).session_order() == old(self).session_order(),
            final(self).instances() == old(self).instances(),
            final(self).current_session_spec() == old(self).current_session_spec(),
            final(self).current_instance_spec() == old(self).current_instance_spec(),
            final(self).memory() == old(self).memory(),
            final(self).limits() == old(self).limits(),
            final(self).events_spec() == old(self).events_spec(),
            final(self).storage_ok() == old(self).storage_ok(),
    {
        self.logger.set_level(level);
    }

    /// The session manager.
    pub fn session_manager(&self) -> (m: &SessionManager)
        ensures
            *m == self.session_manager_spec(),
    {
        &self.session_manager
    }

    // ==================== global memory ====================

    /// Sets the global memory.
    pub fn set_global_memory(&mut self, memory: String)
        requires
            old(self).wf(),
        ensures
            final(self).wf(),
            final(self).memory() == Some(memory@),
            final(self).definitions() == old(self).definitions(),
            final(self).sessions_map() == old(self).sessions_map(),
            final(self).instances() == old(self).instances(),
            final(self).current_session_spec() == old(self).current_session_spec(),
            final(self).current_instance_spec() == old(self).current_instance_spec(),
            final(self).events_spec() == old(self).events_spec(),
    {
        self.global_memory = Some(memory);
    }

    /// The global memory.
    pub fn get_global_memory(&self) -> (r: Option<&String>)
        ensures
            match r {
                Some(m) => self.memory() == Some(m@),
                None => self.memory() is None,
            },
    {
        self.global_memory.as_ref()
    }

    /// Appends `content` to the global memory on a new line (or sets it
    /// when there is none).
    pub fn append_global_memory(&mut self, content: &str)
        requires
            old(self).wf(),
        ensures
            final(self).wf(),
            final(self).memory() == Some(match old(self).memory() {
                Some(m) => m + seq!['\n'] + content@,
                None => content@,
            }),
            final(self).definitions() == old(self).definitions(),
            final(self).sessions_map() == old(self).sessions_map(),
            final(self).instances() == old(self).instances(),
            final(self).current_session_spec() == old(self).current_session_spec(),
            final(self).current_instance_spec() == old(self).current_instance_spec(),
            final(self).events_spec() == old(self).events_spec(),
    {
        let next = match &self.global_memory {
            Some(m) => {
                let mut v = chars_of(m.as_str());
                v.push('\n');
                push_all(&mut v, &chars_of(content));
                string_of(&v)
            },
            None => string_from(content),
        };
        self.global_memory = Some(next);
    }

    /// Forgets the global memory.
    pub fn clear_global_memory(&mut self)
        requires
            old(self).wf(),
        ensures
            final(self).wf(),
            final(self).memory() is None,
            final(self).definitions() == old(self).definitions(),
            final(self).sessions_map() == old(self).sessions_map(),
            final(self).instances() == old(self).instances(),
            final(self).current_session_spec() == old(self).current_session_spec(),
            final(self).current_instance_spec() == old(self).current_instance_spec(),
            final(self).events_spec() == old(self).events_spec(),
    {
        self.global_memory = None;
    }

    // ==================== session overview and summary ====================

    /// Applies `change` (0: set the overview to `text`, 1: set the summary,
    /// 2: clear the summary) to the current session.
    fn change_current_session(&mut self, change: u8, text: Option<String>) -> (r: Result<(), GatewayError>)
        requires
            old(self).wf(),
            change < 3,
            change < 2 ==> text is Some,
        ensures
            final(self).wf(),
            final(self).definitions() == old(self).definitions(),
            final(self).definition_order() == old(self).definition_order(),
            final(self).session_order() == old(self).session_order(),
            final(self).instances() == old(self).instances(),
            final(self).current_session_spec() == old(self).current_session_spec(),
            final(self).current_instance_spec() == old(self).current_instance_spec(),
            final(self).memory() == old(self).memory(),
            final(self).limits() == old(self).limits(),
            final(self).manager_spec() == old(self).manager_spec(),
            final(self).events_spec() == old(self).events_spec(),
            (r is Err) <==> old(self).current_session_spec() is None,
            r matches Err(e) ==> e == GatewayError::NoActiveSession && final(self).sessions_map() == old(
                self,
            ).sessions_map(),
            r is Ok ==> {
                let c = old(self).current_session_spec().unwrap();
                let s = final(self).sessions_map()[c];
                let o = old(self).sessions_map()[c];
                &&& final(self).sessions_map() == old(self).sessions_map().insert(c, s)
                &&& s.messages == o.messages
                &&& s.instances() == o.instances()
                &&& s.id == o.id
                &&& s.session_overview == if change == 0 {
                    text
                } else {
                    o.session_overview
                }
                &&& s.session_summary == if change == 1 {
                    text
                } else if change == 2 {
                    None
                } else {
                    o.session_summary
                }
            },
    {
        let ghost g0 = *self;
        let pos = match &self.current_session_id {
            None => {
                return Err(GatewayError::NoActiveSession);
            },
            Some(c) => match self.sessions.find(c.as_str()) {
                Some(p) => p,
                None => {
                    proof {
                        assert(false);
                    }
                    return Err(GatewayError::NoActiveSession);
                },
            },
        };
        let ghost c = g0.current_session_spec().unwrap();
        proof {
            crate::strmap::lemma_key_pos(self.sessions.pairs(), c, pos as int);
        }
        let ghost s_before = self.sessions;
        let session = self.sessions.value_at_mut(pos);
        if change == 0 {
            session.set_session_overview(text.unwrap());
        } else if change == 1 {
            session.set_session_summary(text.unwrap());
        } else {
            session.clear_session_summary();
        }
        proof {
            let ns = self.sessions.pairs()[pos as int].1;
            StrMap::lemma_set_at(&s_before, &self.sessions, pos as int, ns);
            self.lemma_wf_after_session_update(&g0, c);
        }
        Ok(())
    }

    /// Sets the current session's overview.
    pub fn set_session_overview(&mut self, overview: String) -> (r: Result<(), GatewayError>)
        requires
            old(self).wf(),
        ensures
            final(self).wf(),
            final(self).instances() == old(self).instances(),
            final(self).current_session_spec() == old(self).current_session_spec(),
            final(self).current_instance_spec() == old(self).current_instance_spec(),
            final(self).events_spec() == old(self).events_spec(),
            (r is Err) <==> old(self).current_session_spec() is None,
            r matches Err(e) ==> e == GatewayError::NoActiveSession && final(self).sessions_map() == old(
                self,
            ).sessions_map(),
            r is Ok ==> {
                let c = old(self).current_session_spec().unwrap();
                let s = final(self).sessions_map()[c];
                let o = old(self).sessions_map()[c];
                &&& final(self).sessions_map() == old(self).sessions_map().insert(c, s)
                &&& s.session_overview == Some(overview)
                &&& s.session_summary == o.session_summary
                &&& s.messages == o.messages
                &&& s.instances() == o.instances()
            },
    {
        self.change_current_session(0, Some(overview))
    }

    /// Sets the current session's summary.
    pub fn set_session_summary(&mut self, summary: String) -> (r: Result<(), GatewayError>)
        requires
            old(self).wf(),
        ensures
            final(self).wf(),
            final(self).instances() == old(self).instances(),
            final(self).current_session_spec() == old(self).current_session_spec(),
            final(self).current_instance_spec() == old(self).current_instance_spec(),
            final(self).events_spec() == old(self).events_spec(),
            (r is Err) <==> old(self).current_session_spec() is None,
            r matches Err(e) ==> e == GatewayError::NoActiveSession && final(self).sessions_map() == old(
                self,
            ).sessions_map(),
            r is Ok ==> {
                let c = old(self).current_session_spec().unwrap();
                let s = final(self).sessions_map()[c];
                let o = old(self).sessions_map()[c];
                &&& final(self).sessions_map() == old(self).sessions_map().insert(c, s)
                &&& s.session_summary == Some(summary)
                &&& s.session_overview == o.session_overview
                &&& s.messages == o.messages
                &&& s.instances() == o.instances()
            },
    {
        self.change_current_session(1, Some(summary))
    }

    /// Drops the current session's summary.
    pub fn clear_session_summary(&mut self) -> (r: Result<(), GatewayError>)
        requires
            old(self).wf(),
        ensures
            final(self).wf(),
            final(self).instances() == old(self).instances(),
            final(self).current_session_spec() == old(self).current_session_spec(),
            final(self).current_instance_spec() == old(self).current_instance_spec(),
            final(self).events_spec() == old(self).events_spec(),
            (r is Err) <==> old(self).current_session_spec() is None,
            r matches Err(e) ==> e == GatewayError::NoActiveSession && final(self).sessions_map() == old(
                self,
            ).sessions_map(),
            r is Ok ==> {
                let c = old(self).current_session_spec().unwrap();
                let s = final(self).sessions_map()[c];
                let o = old(self).sessions_map()[c];
                &&& final(self).sessions_map() == old(self).sessions_map().insert(c, s)
                &&& s.session_summary is None
                &&& s.session_overview == o.session_overview
                &&& s.messages == o.messages
                &&& s.instances() == o.instances()
            },
    {
        self.change_current_session(2, None)
    }

    /// The current session's overview.
    pub fn get_session_overview(&self) -> (r: Option<&String>)
        requires
            self.wf(),
        ensures
            match self.current_session_spec() {
                Some(c) => match r {
                    Some(x) => self.sessions_map()[c].session_overview == Some(*x),
                    None => self.sessions_map()[c].session_overview is None,
                },
                None => r is None,
            },
    {
        match self.current_session() {
            Some(s) => s.get_session_overview(),
            None => None,
        }
    }

    /// The current session's summary.
    pub fn get_session_summary(&self) -> (r: Option<&String>)
        requires
            self.wf(),
        ensures
            match self.current_session_spec() {
                Some(c) => match r {
                    Some(x) => self.sessions_map()[c].session_summary == Some(*x),
                    None => self.sessions_map()[c].session_summary is None,
                },
                None => r is None,
            },
    {
        match self.current_session() {
            Some(s) => s.get_session_summary(),
            None => None,
        }
    }
}

/// What the caller sends for a message begun with `begin_message`.
#[derive(Debug, Clone)]
pub struct PendingMessage {
    pub instance_id: AgentInstanceId,
    pub session_id: SessionId,
    /// The first fifty characters of the user's message.
    pub content_preview: String,
    /// The request's messages.
    pub messages: Vec<ChatMessage>,
    /// The LLM settings of the agent instance.
    pub llm_config: LlmClientConfig,
}

pub open spec fn min_int(a: int, b: int) -> int {
    if a < b {
        a
    } else {
        b
    }
}

/// A chat message as (role, content).
pub open spec fn chat_view(m: ChatMessage) -> (Seq<char>, Seq<char>) {
    (m.role@, m.content@)
}

/// Session messages as (role, content) chat pairs.
pub open spec fn session_chat(ms: Seq<SessionMessage>) -> Seq<(Seq<char>, Seq<char>)> {
    ms.map_values(|m: SessionMessage| (role_text(m.role), m.content@))
}

/// The request for system prompt `sp` and session messages `ms`: the
/// system prompt first when it is not empty.
pub open spec fn request_view(sp: Seq<char>, ms: Seq<SessionMessage>) -> Seq<(Seq<char>, Seq<char>)> {
    if sp.len() == 0 {
        session_chat(ms)
    } else {
        seq![("system"@, sp)] + session_chat(ms)
    }
}

/// One line of conversation context: `role: content`.
pub open spec fn session_context_line(m: SessionMessage) -> Seq<char> {
    role_text(m.role) + seq![':', ' '] + m.content@
}

/// The prompt variables for agent instance `i` in session `s`: the
/// session's overview and summary, the global memory, and the instance's
/// messages as `context`, each where present.
pub open spec fn context_vars(s: Session, memory: Option<Seq<char>>, i: Seq<char>) -> Map<Seq<char>, Seq<char>> {
    let m0 = Map::<Seq<char>, Seq<char>>::empty();
    let m1 = match s.session_overview {
        Some(o) => m0.insert("session_overview"@, o@),
        None => m0,
    };
    let m2 = match s.session_summary {
        Some(x) => m1.insert("session_summary"@, x@),
        None => m1,
    };
    let m3 = match memory {
        Some(g) => m2.insert("global_memory"@, g),
        None => m2,
    };
    let am = agent_messages_of(s.messages@, i);
    if am.len() > 0 {
        m3.insert("context"@, join(am.map_values(|m: SessionMessage| session_context_line(m)), seq!['\n']))
    } else {
        m3
    }
}

/// The output an agent gives for a reply: the first choice with its token
/// usage; an error output for a reply without choices or a failed request.
pub open spec fn reply_output(o: AgentOutput, reply: Result<ChatResponse, String>) -> bool {
    match reply {
        Ok(response) => if response.choices@.len() > 0 {
            &&& o.content@ == response.choices@[0].message.content@
            &&& o.output_type == OutputType::Response
            &&& o.usage == match response.usage {
                Some(u) => Some(token_usage_of(u)),
                None => None,
            }
            &&& o.success
            &&& o.error is None
        } else {
            &&& o.content@.len() == 0
            &&& o.output_type == OutputType::Error
            &&& o.usage is None
            &&& !o.success
            &&& o.error matches Some(e) && e@ == "No response from LLM"@
        },
        Err(message) => {
            &&& o.content@.len() == 0
            &&& o.output_type == OutputType::Error
            &&& o.usage is None
            &&& !o.success
            &&& o.error == Some(message)
        },
    }
}

/// The LLM settings an instance of `d` gets: the definition's own, or
/// else the program's.
pub open spec fn llm_settings_for(x: LlmClientConfig, d: AgentDefinition, c: Config) -> bool {
    match d.llm_config {
        Some(dc) => x.same_as(&dc),
        None => {
            &&& x.api_base@ == c.llm.api_base@
            &&& x.api_key@ == c.llm.api_key@
            &&& x.model@ == c.llm.model@
            &&& x.max_tokens == c.llm.max_tokens
            &&& x.temperature_bits == c.llm.temperature_bits
        },
    }
}

/// The first element, if any.
pub open spec fn first_of(s: Seq<Seq<char>>) -> Option<Seq<char>> {
    if s.len() > 0 {
        Some(s[0])
    } else {
        None
    }
}

/// `new` is `old` with one more event at the end.
pub open spec fn one_more(new: Seq<GatewayEvent>, old: Seq<GatewayEvent>) -> bool {
    new.len() == old.len() + 1 && new.drop_last() == old
}

} // verus!
