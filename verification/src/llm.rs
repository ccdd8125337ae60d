//! Messages and requests of the chat-completions API, and how its replies
//! are judged.  The HTTP exchange itself is the caller's part.
//!
//! A temperature is held as the IEEE-754 bits of its `f32` value.
use crate::text::{decimal, decimal_string, string_from};
use vstd::prelude::*;
use vstd::string::*;

verus! {

/// The bits of the `f32` value 0.7.
pub const TEMPERATURE_0_7_BITS: u32 = 0x3F33_3333u32;

/// The bits of the `f32` value 0.1.
pub const TEMPERATURE_0_1_BITS: u32 = 0x3DCC_CCCDu32;

/// Settings of an LLM client.
#[derive(Debug, Clone)]
pub struct LlmClientConfig {
    pub api_base: String,
    pub api_key: String,
    pub model: String,
    pub max_tokens: u32,
    /// The bits of the `f32` temperature.
    pub temperature_bits: u32,
}

impl LlmClientConfig {
    /// Whether two configurations hold the same settings.
    pub open spec fn same_as(&self, o: &LlmClientConfig) -> bool {
        &&& self.api_base@ == o.api_base@
        &&& self.api_key@ == o.api_key@
        &&& self.model@ == o.model@
        &&& self.max_tokens == o.max_tokens
        &&& self.temperature_bits == o.temperature_bits
    }

    /// A configuration with the same settings.
    pub fn duplicate(&self) -> (c: Self)
        ensures
            c.same_as(self),
    {
        LlmClientConfig {
            api_base: self.api_base.clone(),
            api_key: self.api_key.clone(),
            model: self.model.clone(),
            max_tokens: self.max_tokens,
            temperature_bits: self.temperature_bits,
        }
    }
}

impl Default for LlmClientConfig {
    /// The OpenAI endpoint, no key, `gpt-4`, 4096 tokens, temperature 0.7.
    fn default() -> (c: Self)
        ensures
            c.api_base@ == "https://api.openai.com/v1"@,
            c.api_key@ == Seq::<char>::empty(),
            c.model@ == "gpt-4"@,
            c.max_tokens == 4096,
            c.temperature_bits == TEMPERATURE_0_7_BITS,
    {
        LlmClientConfig {
            api_base: string_from("https://api.openai.com/v1"),
            api_key: String::new(),
            model: string_from("gpt-4"),
            max_tokens: 4096,
            temperature_bits: TEMPERATURE_0_7_BITS,
        }
    }
}

/// One chat message.
#[derive(Debug, Clone)]
pub struct ChatMessage {
    pub role: String,
    pub content: String,
}

impl ChatMessage {
    /// A message with role `system`.
    pub fn system(content: &str) -> (m: Self)
        ensures
            m.role@ == "system"@,
            m.content@ == content@,
    {
        ChatMessage { role: string_from("system"), content: string_from(content) }
    }

    /// A message with role `user`.
    pub fn user(content: &str) -> (m: Self)
        ensures
            m.role@ == "user"@,
            m.content@ == content@,
    {
        ChatMessage { role: string_from("user"), content: string_from(content) }
    }

    /// A message with role `assistant`.
    pub fn assistant(content: &str) -> (m: Self)
        ensures
            m.role@ == "assistant"@,
            m.content@ == content@,
    {
        ChatMessage { role: string_from("assistant"), content: string_from(content) }
    }

    /// A message with the same role and content.
    pub fn duplicate(&self) -> (m: Self)
        ensures
            m.role@ == self.role@,
            m.content@ == self.content@,
    {
        ChatMessage { role: self.role.clone(), content: self.content.clone() }
    }
}

/// A chat-completions request.
#[derive(Debug, Clone)]
pub struct ChatRequest {
    pub model: String,
    pub messages: Vec<ChatMessage>,
    pub max_tokens: Option<u32>,
    /// The bits of the `f32` temperature.
    pub temperature_bits: Option<u32>,
}

/// A chat-completions reply.
#[derive(Debug, Clone)]
pub struct ChatResponse {
    pub id: String,
    pub object: String,
    pub created: i64,
    pub model: String,
    pub choices: Vec<ChatChoice>,
    pub usage: Option<Usage>,
}

/// One choice of a reply.
#[derive(Debug, Clone)]
pub struct ChatChoice {
    pub index: u32,
    pub message: ChatMessage,
    pub finish_reason: Option<String>,
}

/// Tokens used by a request.
#[derive(Debug, Clone, Copy, PartialEq, Eq, Structural)]
pub struct Usage {
    pub prompt_tokens: u32,
    pub completion_tokens: u32,
    pub total_tokens: u32,
}

/// An error reply of the API.
#[derive(Debug, Clone)]
pub struct ApiError {
    pub error: ApiErrorDetail,
}

/// The detail of an error reply.
#[derive(Debug, Clone)]
pub struct ApiErrorDetail {
    pub message: String,
    pub error_type: String,
    pub code: Option<String>,
}

/// The endpoint for chat completions under `api_base`.
pub fn chat_url(api_base: &str) -> (u: String)
    ensures
        u@ == api_base@ + "/chat/completions"@,
{
    let mut u = string_from(api_base);
    u.append("/chat/completions");
    u
}

/// The request that sends `messages` with the settings of `config`.
pub fn chat_request(config: &LlmClientConfig, messages: Vec<ChatMessage>) -> (r: ChatRequest)
    ensures
        r.model@ == config.model@,
        r.messages == messages,
        r.max_tokens == Some(config.max_tokens),
        r.temperature_bits == Some(config.temperature_bits),
{
    ChatRequest {
        model: config.model.clone(),
        messages,
        max_tokens: Some(config.max_tokens),
        temperature_bits: Some(config.temperature_bits),
    }
}

/// The request that probes a connection: one user message `Hello`, at most
/// 10 tokens, temperature 0.1.
pub fn probe_request(config: &LlmClientConfig) -> (r: ChatRequest)
    ensures
        r.model@ == config.model@,
        r.messages@.len() == 1,
        r.messages@[0].role@ == "user"@,
        r.messages@[0].content@ == "Hello"@,
        r.max_tokens == Some(10u32),
        r.temperature_bits == Some(TEMPERATURE_0_1_BITS),
{
    let mut messages: Vec<ChatMessage> = Vec::new();
    messages.push(ChatMessage::user("Hello"));
    ChatRequest {
        model: config.model.clone(),
        messages,
        max_tokens: Some(10),
        temperature_bits: Some(TEMPERATURE_0_1_BITS),
    }
}

/// Whether an HTTP status is an error reply.
pub fn is_error_status(status: u16) -> (b: bool)
    ensures
        b == (status >= 400),
{
    status >= 400
}

/// Whether a probe's HTTP status shows a working connection: success, or
/// 401 (the key is refused but the endpoint answers).
pub fn connection_ok(status: u16) -> (b: bool)
    ensures
        b == ((200 <= status <= 299) || status == 401),
{
    (200 <= status && status <= 299) || status == 401
}

/// `value[key]` of a JSON value (`Null` where there is no such member).
pub uninterp spec fn json_member(v: serde_json::Value, key: Seq<char>) -> serde_json::Value;

/// The string a JSON value holds, if it is a string.
pub uninterp spec fn json_as_str(v: serde_json::Value) -> Option<Seq<char>>;

/// The compact JSON text of a value.
pub uninterp spec fn json_text(v: serde_json::Value) -> Seq<char>;

/// `<serde_json::Value as Index<&str>>::index`.
#[verifier::external_body]
fn json_index<'a>(v: &'a serde_json::Value, key: &str) -> (r: &'a serde_json::Value)
    ensures
        *r == json_member(*v, key@),
{
    &v[key]
}

/// `serde_json::Value::as_str`.
#[verifier::external_body]
fn json_str(v: &serde_json::Value) -> (r: Option<&str>)
    ensures
        match r {
            Some(s) => json_as_str(*v) == Some(s@),
            None => json_as_str(*v) is None,
        },
{
    v.as_str()
}

/// `serde_json::Value::to_string`.
#[verifier::external_body]
fn json_to_string(v: &serde_json::Value) -> (r: String)
    ensures
        r@ == json_text(*v),
{
    v.to_string()
}

/// The message of an error reply: `error.message`, else `message`, else
/// `error` when it is a string, else the whole body as JSON.
pub open spec fn error_message_of(body: serde_json::Value) -> Seq<char> {
    let e = json_member(body, "error"@);
    match json_as_str(json_member(e, "message"@)) {
        Some(s) => s,
        None => match json_as_str(json_member(body, "message"@)) {
            Some(s) => s,
            None => match json_as_str(e) {
                Some(s) => s,
                None => json_text(body),
            },
        },
    }
}

/// The message of an error reply.
pub fn api_error_message(body: &serde_json::Value) -> (m: String)
    ensures
        m@ == error_message_of(*body),
{
    let e = json_index(body, "error");
    match json_str(json_index(e, "message")) {
        Some(s) => string_from(s),
        None => match json_str(json_index(body, "message")) {
            Some(s) => string_from(s),
            None => match json_str(e) {
                Some(s) => string_from(s),
                None => json_to_string(body),
            },
        },
    }
}

/// `API error (<status>): <message>`.
pub fn api_error_text(status: u16, message: &str) -> (t: String)
    ensures
        t@ == "API error ("@ + decimal(status as nat) + "): "@ + message@,
{
    let mut t = string_from("API error (");
    let n = decimal_string(status as u64);
    t.append(n.as_str());
    t.append("): ");
    t.append(message);
    t
}

/// The value `serde_json::from_str::<serde_json::Value>` reads from a text;
/// `None` where it fails.
pub uninterp spec fn json_parse(text: Seq<char>) -> Option<serde_json::Value>;

/// The member names of a JSON object in its order (`Value::as_object` and
/// `Map::keys`); `None` for a value that is not an object.
pub uninterp spec fn json_object_keys(v: serde_json::Value) -> Option<Seq<Seq<char>>>;

/// `serde_json::from_str::<serde_json::Value>`, its error dropped.
#[verifier::external_body]
fn parse_json(text: &str) -> (r: Option<serde_json::Value>)
    ensures
        r == json_parse(text@),
{
    serde_json::from_str(text).ok()
}

/// `{"raw": text}`: a JSON object (`serde_json::Map` with one `insert`) whose
/// only member `raw` is the string `text`.
#[verifier::external_body]
fn raw_object(text: String) -> (v: serde_json::Value)
    ensures
        json_object_keys(v) == Some(seq!["raw"@]),
        json_as_str(json_member(v, "raw"@)) == Some(text@),
{
    let mut m = serde_json::Map::new();
    m.insert("raw".to_string(), serde_json::Value::String(text));
    serde_json::Value::Object(m)
}

/// The body of a reply as JSON: the JSON the text holds, or, where it holds
/// none, an object whose only member `raw` is the text.
pub fn response_body(text: &str) -> (b: serde_json::Value)
    ensures
        json_parse(text@) matches Some(v) ==> b == v,
        json_parse(text@) is None ==> json_object_keys(b) == Some(seq!["raw"@]) && json_as_str(
            json_member(b, "raw"@),
        ) == Some(text@),
{
    match parse_json(text) {
        Some(v) => v,
        None => raw_object(string_from(text)),
    }
}

/// The error a reply with `status` and `body` stands for: none below 400,
/// else `API error (<status>): <message of the body>`.
pub fn reply_error(status: u16, body: &serde_json::Value) -> (r: Option<String>)
    ensures
        match r {
            None => status < 400,
            Some(t) => status >= 400 && t@ == "API error ("@ + decimal(status as nat) + "): "@
                + error_message_of(*body),
        },
{
    if is_error_status(status) {
        Some(api_error_text(status, api_error_message(body).as_str()))
    } else {
        None
    }
}

} // verus!
