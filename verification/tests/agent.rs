use self_evolving_agent::agent::{AgentDefinition, AgentInstance, OutputType, TokenUsage};
use self_evolving_agent::llm::{ChatChoice, ChatMessage, ChatResponse, LlmClientConfig, Usage};
use self_evolving_agent::prompt::{PromptContext, PromptTemplate, StructuredPrompt};

fn s(x: &str) -> String {
    x.to_string()
}

#[test]
fn test_agent_definition_creation() {
    let config = LlmClientConfig::default();
    let def = AgentDefinition::new(s("Test Agent"), Some(s("You are helpful.")), Some(config));

    assert_eq!(def.name, "Test Agent");
    assert!(def.system_prompt.is_some());
    assert!(def.llm_config.is_some());
}

#[test]
fn test_agent_definition_without_llm_config() {
    let def = AgentDefinition::new(s("Test Agent"), Some(s("You are helpful.")), None);

    assert_eq!(def.name, "Test Agent");
    assert!(def.llm_config.is_none());
}

#[test]
fn test_agent_definition_with_structured_prompt() {
    let prompt = StructuredPrompt::new().with(s("role"), s("你是一个助手")).with(s("instruction"), s("请使用中文"));

    let def = AgentDefinition::with_structured_prompt(s("Test Agent"), prompt, None);

    assert!(def.structured_prompt.is_some());
    let sp = def.structured_prompt.unwrap();
    assert_eq!(sp.len(), 2);
}

#[test]
fn test_agent_definition_build_system_prompt() {
    let prompt = StructuredPrompt::new()
        .with(s("role"), s("你是一个{{role_name}}"))
        .with(s("instruction"), s("请使用中文"));

    let def = AgentDefinition::with_structured_prompt(s("Test Agent"), prompt, None);

    let context = PromptContext::new().set(s("role_name"), s("翻译助手"));

    let system_prompt = def.build_system_prompt(&context);
    assert!(system_prompt.contains("你是一个翻译助手"));
    assert!(system_prompt.contains("请使用中文"));
}

#[test]
fn agent_plain_system_prompt_is_an_instruction() {
    let def = AgentDefinition::new(s("A"), Some(s("Be brief.")), None);
    assert_eq!(def.build_system_prompt(&PromptContext::new()), "## instruction\n\nBe brief.");
    let mut def2 = AgentDefinition::new(s("B"), Some(s("Be brief.")), None);
    def2.set_prompt_template(PromptTemplate::new().with_titles(false));
    assert_eq!(def2.build_system_prompt(&PromptContext::new()), "Be brief.");
    let none = AgentDefinition::new(s("C"), None, None);
    assert_eq!(none.build_system_prompt(&PromptContext::new()), "");
    assert!(none.can_build_system_prompt());
}

#[test]
fn agent_prepare_messages_adds_system_prompt() {
    let def = AgentDefinition::new(s("A"), Some(s("Be brief.")), None);
    let inst = AgentInstance::new(s("i1"), def.id.clone(), s("s1"), LlmClientConfig::default());
    let msgs = inst.prepare_messages(vec![ChatMessage::user("Hi")], &PromptContext::new(), &def);
    assert_eq!(msgs.len(), 2);
    assert_eq!(msgs[0].role, "system");
    assert_eq!(msgs[1].content, "Hi");
    let empty = AgentDefinition::new(s("B"), None, None);
    let msgs2 = inst.prepare_messages(vec![ChatMessage::user("Hi")], &PromptContext::new(), &empty);
    assert_eq!(msgs2.len(), 1);
}

fn response(contents: &[&str], usage: Option<Usage>) -> ChatResponse {
    ChatResponse {
        id: s("r"),
        object: s("chat.completion"),
        created: 0,
        model: s("gpt-4"),
        choices: contents
            .iter()
            .enumerate()
            .map(|(i, c)| ChatChoice { index: i as u32, message: ChatMessage::assistant(c), finish_reason: None })
            .collect(),
        usage,
    }
}

#[test]
fn agent_handles_replies() {
    let mut inst = AgentInstance::new(s("i1"), s("d1"), s("s1"), LlmClientConfig::default());
    let usage = Usage { prompt_tokens: 3, completion_tokens: 4, total_tokens: 7 };
    let out = inst.handle_success(response(&["first", "second"], Some(usage)));
    assert_eq!(out.content, "first");
    assert_eq!(out.output_type, OutputType::Response);
    assert_eq!(out.usage, Some(TokenUsage { prompt_tokens: 3, completion_tokens: 4, total_tokens: 7 }));
    assert!(out.success);

    let empty = inst.handle_success(response(&[], None));
    assert_eq!(empty.output_type, OutputType::Error);
    assert_eq!(empty.error, Some(s("No response from LLM")));
    assert!(!empty.success);

    let failed = inst.handle_error(s("timeout"));
    assert_eq!(failed.error, Some(s("timeout")));
    assert_eq!(failed.content, "");
}

#[test]
fn agent_instance_state() {
    let mut inst = AgentInstance::new(s("i1"), s("d1"), s("s1"), LlmClientConfig::default());
    assert!(inst.is_active());
    inst.deactivate();
    assert!(!inst.is_active());
    inst.activate();
    assert!(inst.is_active());
    assert_eq!(inst.id(), "i1");
    assert_eq!(inst.definition_id(), "d1");
    assert_eq!(inst.session_id(), "s1");
}
