//! Agents.
//!
//! - `AgentDefinition`: a reusable agent template (name, prompts, LLM
//!   settings).
//! - `AgentInstance`: an agent running in a session.
//!
//! The system prompt of a definition is assembled from its structured prompt
//! (or, failing that, its plain system prompt as an `instruction` component)
//! with its template, `{{name}}` placeholders resolved at run time.
use crate::llm::{ChatMessage, ChatResponse, LlmClientConfig, Usage};
use crate::prompt::{
    PromptBuilder, PromptContext, PromptTemplate, StructuredPrompt, TemplateSpec, assemble, buildable,
    default_template,
};
use crate::session::SessionId;
use crate::sessions::manager::uuid_string;
use crate::sessions::models::{Timestamp, new_uuid, now};
use crate::strmap::insert_entry;
use crate::text::string_from;
use vstd::prelude::*;
use vstd::string::*;

verus! {

/// Agent definition id.
pub type AgentDefinitionId = String;

/// Agent instance id.
pub type AgentInstanceId = String;

/// The key under which a plain system prompt is assembled.
pub open spec fn instruction_key() -> Seq<char> {
    seq!['i', 'n', 's', 't', 'r', 'u', 'c', 't', 'i', 'o', 'n']
}

/// A reusable agent template.
#[derive(Debug)]
pub struct AgentDefinition {
    pub id: AgentDefinitionId,
    pub name: String,
    pub description: Option<String>,
    /// Plain system prompt, used when there is no structured prompt.
    pub system_prompt: Option<String>,
    /// Ordered prompt components.
    pub structured_prompt: Option<StructuredPrompt>,
    /// How components are assembled (default template when absent).
    pub prompt_template: Option<PromptTemplate>,
    /// LLM settings (the program's settings when absent).
    pub llm_config: Option<LlmClientConfig>,
    pub created_at: Timestamp,
    pub updated_at: Timestamp,
}

/// The template a definition assembles its prompt with.
pub open spec fn effective_template(d: AgentDefinition) -> TemplateSpec {
    match d.prompt_template {
        Some(t) => t@,
        None => default_template(),
    }
}

/// The components a definition's prompt is assembled from.
pub open spec fn prompt_entries(d: AgentDefinition) -> Seq<(Seq<char>, Seq<char>)> {
    match d.structured_prompt {
        Some(p) => p@,
        None => match d.system_prompt {
            Some(s) => seq![(instruction_key(), s@)],
            None => seq![],
        },
    }
}

/// The system prompt of a definition for the runtime variables `vars`.
pub open spec fn system_prompt_of(d: AgentDefinition, vars: Map<Seq<char>, Seq<char>>) -> Seq<char> {
    let t = effective_template(d);
    if d.structured_prompt is None && d.system_prompt is None {
        seq![]
    } else {
        assemble(t, t.include_titles, prompt_entries(d), vars)
    }
}

impl AgentDefinition {
    /// The definition's prompt components are well formed and every enabled
    /// one can be resolved.
    pub open spec fn prompt_ok(&self) -> bool {
        &&& (self.structured_prompt matches Some(p) ==> p.wf())
        &&& buildable(effective_template(*self), prompt_entries(*self))
    }

    /// A definition with a plain system prompt and a fresh id.
    pub fn new(name: String, system_prompt: Option<String>, llm_config: Option<LlmClientConfig>) -> (d:
        Self)
        ensures
            d.name == name,
            d.description is None,
            d.system_prompt == system_prompt,
            d.structured_prompt is None,
            d.prompt_template is None,
            d.llm_config == llm_config,
            d.created_at == d.updated_at,
    {
        let t = now();
        AgentDefinition {
            id: uuid_string(new_uuid()),
            name,
            description: None,
            system_prompt,
            structured_prompt: None,
            prompt_template: None,
            llm_config,
            created_at: t,
            updated_at: t,
        }
    }

    /// A definition with a structured prompt and a fresh id.
    pub fn with_structured_prompt(
        name: String,
        structured_prompt: StructuredPrompt,
        llm_config: Option<LlmClientConfig>,
    ) -> (d: Self)
        ensures
            d.name == name,
            d.description is None,
            d.system_prompt is None,
            d.structured_prompt == Some(structured_prompt),
            d.prompt_template is None,
            d.llm_config == llm_config,
            d.created_at == d.updated_at,
    {
        let t = now();
        AgentDefinition {
            id: uuid_string(new_uuid()),
            name,
            description: None,
            system_prompt: None,
            structured_prompt: Some(structured_prompt),
            prompt_template: None,
            llm_config,
            created_at: t,
            updated_at: t,
        }
    }

    /// The definition with a description.
    pub fn with_description(self, description: String) -> (d: Self)
        ensures
            d == (AgentDefinition { description: Some(description), ..self }),
    {
        AgentDefinition { description: Some(description), ..self }
    }

    /// Sets the plain system prompt.
    pub fn set_system_prompt(&mut self, prompt: String)
        ensures
            final(self).system_prompt == Some(prompt),
            final(self).structured_prompt == old(self).structured_prompt,
            final(self).prompt_template == old(self).prompt_template,
            final(self).llm_config == old(self).llm_config,
            final(self).id == old(self).id,
            final(self).name == old(self).name,
    {
        self.system_prompt = Some(prompt);
        self.updated_at = now();
    }

    /// Sets the structured prompt and drops the plain one.
    pub fn set_structured_prompt(&mut self, prompt: StructuredPrompt)
        ensures
            final(self).structured_prompt == Some(prompt),
            final(self).system_prompt is None,
            final(self).prompt_template == old(self).prompt_template,
            final(self).llm_config == old(self).llm_config,
            final(self).id == old(self).id,
            final(self).name == old(self).name,
    {
        self.structured_prompt = Some(prompt);
        self.system_prompt = None;
        self.updated_at = now();
    }

    /// Sets the template.
    pub fn set_prompt_template(&mut self, template: PromptTemplate)
        ensures
            final(self).prompt_template == Some(template),
            final(self).structured_prompt == old(self).structured_prompt,
            final(self).system_prompt == old(self).system_prompt,
            final(self).llm_config == old(self).llm_config,
            final(self).id == old(self).id,
            final(self).name == old(self).name,
    {
        self.prompt_template = Some(template);
        self.updated_at = now();
    }

    /// Sets (or clears) the LLM settings.
    pub fn set_llm_config(&mut self, config: Option<LlmClientConfig>)
        ensures
            final(self).llm_config == config,
            final(self).structured_prompt == old(self).structured_prompt,
            final(self).system_prompt == old(self).system_prompt,
            final(self).prompt_template == old(self).prompt_template,
            final(self).id == old(self).id,
            final(self).name == old(self).name,
    {
        self.llm_config = config;
        self.updated_at = now();
    }

    /// The structured prompt, if any.
    pub fn get_structured_prompt(&self) -> (r: Option<&StructuredPrompt>)
        ensures
            r == match &self.structured_prompt {
                Some(p) => Some(p),
                None => None,
            },
    {
        self.structured_prompt.as_ref()
    }

    /// The template the prompt is assembled with.
    pub fn get_prompt_template(&self) -> (t: PromptTemplate)
        ensures
            t@ == effective_template(*self),
    {
        match &self.prompt_template {
            Some(t) => t.duplicate(),
            None => PromptTemplate::new(),
        }
    }

    /// Whether the system prompt can be built (see `prompt_ok`).
    pub fn can_build_system_prompt(&self) -> (b: bool)
        ensures
            b == self.prompt_ok(),
    {
        let template = self.get_prompt_template();
        let builder = PromptBuilder::with_template(template);
        match &self.structured_prompt {
            Some(prompt) => builder.can_build(prompt),
            None => match &self.system_prompt {
                Some(sp) => {
                    let key = string_from("instruction");
                    proof {
                        reveal_strlit("instruction");
                        assert(key@ =~= instruction_key());
                    }
                    let prompt = StructuredPrompt::new().with(key, sp.clone());
                    assert(prompt@ =~= seq![(instruction_key(), sp@)]);
                    builder.can_build(&prompt)
                },
                None => {
                    assert(prompt_entries(*self) =~= Seq::<(Seq<char>, Seq<char>)>::empty());
                    true
                },
            },
        }
    }

    /// The system prompt for the runtime variables of `context`.
    pub fn build_system_prompt(&self, context: &PromptContext) -> (r: String)
        requires
            context.wf(),
            self.prompt_ok(),
        ensures
            r@ == system_prompt_of(*self, context@),
    {
        match &self.structured_prompt {
            Some(prompt) => {
                let template = self.get_prompt_template();
                let builder = PromptBuilder::with_template(template);
                builder.build(prompt, context)
            },
            None => match &self.system_prompt {
                Some(sp) => {
                    let template = self.get_prompt_template();
                    let builder = PromptBuilder::with_template(template);
                    let key = string_from("instruction");
                    proof {
                        reveal_strlit("instruction");
                        assert(key@ =~= instruction_key());
                    }
                    let prompt = StructuredPrompt::new().with(key, sp.clone());
                    assert(prompt@ =~= seq![(instruction_key(), sp@)]);
                    builder.build(&prompt, context)
                },
                None => String::new(),
            },
        }
    }
}

/// An agent running in a session.  Its LLM client is built by the caller
/// from `llm_config`.
#[derive(Debug, Clone)]
pub struct AgentInstance {
    id: AgentInstanceId,
    definition_id: AgentDefinitionId,
    session_id: SessionId,
    llm_config: LlmClientConfig,
    active: bool,
}

impl AgentInstance {
    pub closed spec fn id_spec(&self) -> Seq<char> {
        self.id@
    }

    pub closed spec fn definition_spec(&self) -> Seq<char> {
        self.definition_id@
    }

    pub closed spec fn session_spec(&self) -> Seq<char> {
        self.session_id@
    }

    pub closed spec fn config_spec(&self) -> LlmClientConfig {
        self.llm_config
    }

    pub closed spec fn active_spec(&self) -> bool {
        self.active
    }

    /// An active instance.
    pub fn new(
        id: AgentInstanceId,
        definition_id: AgentDefinitionId,
        session_id: SessionId,
        llm_config: LlmClientConfig,
    ) -> (a: Self)
        ensures
            a.id_spec() == id@,
            a.definition_spec() == definition_id@,
            a.session_spec() == session_id@,
            a.config_spec() == llm_config,
            a.active_spec(),
    {
        AgentInstance { id, definition_id, session_id, llm_config, active: true }
    }

    /// The instance id.
    pub fn id(&self) -> (r: &str)
        ensures
            r@ == self.id_spec(),
    {
        self.id.as_str()
    }

    /// The definition the instance runs.
    pub fn definition_id(&self) -> (r: &str)
        ensures
            r@ == self.definition_spec(),
    {
        self.definition_id.as_str()
    }

    /// The session the instance belongs to.
    pub fn session_id(&self) -> (r: &str)
        ensures
            r@ == self.session_spec(),
    {
        self.session_id.as_str()
    }

    /// The LLM settings.
    pub fn llm_config(&self) -> (c: &LlmClientConfig)
        ensures
            *c == self.config_spec(),
    {
        &self.llm_config
    }

    /// Whether the instance is active.
    pub fn is_active(&self) -> (b: bool)
        ensures
            b == self.active_spec(),
    {
        self.active
    }

    /// Stops the instance.
    pub fn deactivate(&mut self)
        ensures
            !final(self).active_spec(),
            final(self).id_spec() == old(self).id_spec(),
            final(self).definition_spec() == old(self).definition_spec(),
            final(self).session_spec() == old(self).session_spec(),
            final(self).config_spec() == old(self).config_spec(),
    {
        self.active = false;
    }

    /// Starts the instance.
    pub fn activate(&mut self)
        ensures
            final(self).active_spec(),
            final(self).id_spec() == old(self).id_spec(),
            final(self).definition_spec() == old(self).definition_spec(),
            final(self).session_spec() == old(self).session_spec(),
            final(self).config_spec() == old(self).config_spec(),
    {
        self.active = true;
    }

    /// Replaces the LLM settings.
    pub fn update_llm_config(&mut self, config: LlmClientConfig)
        ensures
            final(self).config_spec() == config,
            final(self).id_spec() == old(self).id_spec(),
            final(self).definition_spec() == old(self).definition_spec(),
            final(self).session_spec() == old(self).session_spec(),
            final(self).active_spec() == old(self).active_spec(),
    {
        self.llm_config = config;
    }

    /// The messages sent to the LLM: the definition's system prompt (when it
    /// is not empty) followed by the session's messages.
    pub fn prepare_messages(
        &self,
        messages: Vec<ChatMessage>,
        context: &PromptContext,
        definition: &AgentDefinition,
    ) -> (r: Vec<ChatMessage>)
        requires
            context.wf(),
            definition.prompt_ok(),
        ensures
            ({
                let sp = system_prompt_of(*definition, context@);
                if sp.len() == 0 {
                    r@ == messages@
                } else {
                    &&& r@.len() == messages@.len() + 1
                    &&& r@[0].role@ == "system"@
                    &&& r@[0].content@ == sp
                    &&& r@.subrange(1, r@.len() as int) == messages@
                }
            }),
    {
        let system_prompt = definition.build_system_prompt(context);
        if system_prompt.as_str().unicode_len() == 0 {
            return messages;
        }
        assert(system_prompt@.len() > 0);
        let mut full: Vec<ChatMessage> = Vec::new();
        full.push(ChatMessage::system(system_prompt.as_str()));
        let mut rest = messages;
        let ghost ms = rest@;
        full.append(&mut rest);
        assert(full@.subrange(1, full@.len() as int) =~= ms);
        full
    }

    /// The output for a reply: the first choice's content and the token
    /// usage; a reply without choices is an error.
    pub fn handle_success(&mut self, response: ChatResponse) -> (o: AgentOutput)
        ensures
            *final(self) == *old(self),
            response.choices@.len() > 0 ==> {
                &&& o.content@ == response.choices@[0].message.content@
                &&& o.output_type == OutputType::Response
                &&& o.usage == match response.usage {
                    Some(u) => Some(token_usage_of(u)),
                    None => None,
                }
                &&& o.success
                &&& o.error is None
            },
            response.choices@.len() == 0 ==> {
                &&& o.content@.len() == 0
                &&& o.output_type == OutputType::Error
                &&& o.usage is None
                &&& !o.success
                &&& o.error matches Some(e) && e@ == "No response from LLM"@
            },
    {
        if response.choices.len() > 0 {
            let content = response.choices[0].message.content.clone();
            let usage = match response.usage {
                Some(u) => Some(TokenUsage::from(u)),
                None => None,
            };
            AgentOutput { content, output_type: OutputType::Response, usage, success: true, error: None }
        } else {
            self.handle_error(string_from("No response from LLM"))
        }
    }

    /// The output for a failed request.
    pub fn handle_error(&mut self, message: String) -> (o: AgentOutput)
        ensures
            *final(self) == *old(self),
            o.content@.len() == 0,
            o.output_type == OutputType::Error,
            o.usage is None,
            !o.success,
            o.error == Some(message),
    {
        let o = AgentOutput {
            content: String::new(),
            output_type: OutputType::Error,
            usage: None,
            success: false,
            error: Some(message),
        };
        o
    }
}

/// Input to an agent.
#[derive(Debug)]
pub struct AgentInput {
    pub content: String,
    pub metadata: Option<InputMetadata>,
}

/// Where an input came from.
#[derive(Debug)]
pub struct InputMetadata {
    pub source: String,
    pub timestamp: Option<Timestamp>,
    pub extra: Option<serde_json::Value>,
}

impl Default for InputMetadata {
    /// From the command line, now.
    fn default() -> (m: Self)
        ensures
            m.source@ == "cli"@,
            m.timestamp is Some,
            m.extra is None,
    {
        InputMetadata { source: string_from("cli"), timestamp: Some(now()), extra: None }
    }
}

/// Output of an agent.
#[derive(Debug, Clone)]
pub struct AgentOutput {
    pub content: String,
    pub output_type: OutputType,
    pub usage: Option<TokenUsage>,
    pub success: bool,
    pub error: Option<String>,
}

impl AgentOutput {
    /// An output with the same content, kind, usage and error.
    pub fn duplicate(&self) -> (o: Self)
        ensures
            o == *self,
    {
        AgentOutput {
            content: self.content.clone(),
            output_type: self.output_type,
            usage: self.usage,
            success: self.success,
            error: match &self.error {
                Some(e) => Some(e.clone()),
                None => None,
            },
        }
    }
}

/// Kind of output.
#[derive(Debug, Clone, Copy, PartialEq, Eq, Structural)]
pub enum OutputType {
    Response,
    System,
    Error,
}

/// Tokens used.
#[derive(Debug, Clone, Copy, PartialEq, Eq, Structural)]
pub struct TokenUsage {
    pub prompt_tokens: u32,
    pub completion_tokens: u32,
    pub total_tokens: u32,
}

/// The token counts of an API usage record.
pub open spec fn token_usage_of(u: Usage) -> TokenUsage {
    TokenUsage {
        prompt_tokens: u.prompt_tokens,
        completion_tokens: u.completion_tokens,
        total_tokens: u.total_tokens,
    }
}

impl TokenUsage {
    /// The counts of `usage`.
    pub fn from(usage: Usage) -> (t: Self)
        ensures
            t == token_usage_of(usage),
    {
        TokenUsage {
            prompt_tokens: usage.prompt_tokens,
            completion_tokens: usage.completion_tokens,
            total_tokens: usage.total_tokens,
        }
    }
}

/// A definition's summary for listings.
#[derive(Debug, Clone)]
pub struct AgentDefinitionInfo {
    pub id: AgentDefinitionId,
    pub name: String,
    pub description: Option<String>,
    pub has_system_prompt: bool,
}

/// An instance's summary for listings.
#[derive(Debug, Clone)]
pub struct AgentInstanceInfo {
    pub id: AgentInstanceId,
    pub definition_id: AgentDefinitionId,
    pub definition_name: String,
    pub is_current: bool,
}

} // verus!
