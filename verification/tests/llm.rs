use self_evolving_agent::llm::{
    reply_error, response_body, api_error_message, api_error_text, chat_request, chat_url, connection_ok, is_error_status,
    probe_request, ChatMessage, LlmClientConfig, TEMPERATURE_0_1_BITS, TEMPERATURE_0_7_BITS,
};

#[test]
fn test_chat_message_creation() {
    let sys = ChatMessage::system("You are a helpful assistant.");
    assert_eq!(sys.role, "system");

    let user = ChatMessage::user("Hello");
    assert_eq!(user.role, "user");

    let assistant = ChatMessage::assistant("Hi there!");
    assert_eq!(assistant.role, "assistant");
}

#[test]
fn llm_default_config() {
    let c = LlmClientConfig::default();
    assert_eq!(c.api_base, "https://api.openai.com/v1");
    assert_eq!(c.model, "gpt-4");
    assert_eq!(c.max_tokens, 4096);
    assert_eq!(f32::from_bits(c.temperature_bits), 0.7f32);
    assert_eq!(TEMPERATURE_0_7_BITS, 0.7f32.to_bits());
    assert_eq!(TEMPERATURE_0_1_BITS, 0.1f32.to_bits());
}

#[test]
fn llm_request_building() {
    let c = LlmClientConfig::default();
    assert_eq!(chat_url(&c.api_base), "https://api.openai.com/v1/chat/completions");
    let r = chat_request(&c, vec![ChatMessage::user("Hello")]);
    assert_eq!(r.model, "gpt-4");
    assert_eq!(r.max_tokens, Some(4096));
    assert_eq!(r.messages.len(), 1);
    let p = probe_request(&c);
    assert_eq!(p.max_tokens, Some(10));
    assert_eq!(p.messages[0].content, "Hello");
}

#[test]
fn llm_statuses() {
    assert!(is_error_status(400));
    assert!(is_error_status(503));
    assert!(!is_error_status(200));
    assert!(connection_ok(200));
    assert!(connection_ok(401));
    assert!(!connection_ok(403));
    assert!(!connection_ok(500));
}

#[test]
fn llm_error_messages() {
    let nested: serde_json::Value = serde_json::from_str(r#"{"error": {"message": "bad key"}}"#).unwrap();
    assert_eq!(api_error_message(&nested), "bad key");
    let flat: serde_json::Value = serde_json::from_str(r#"{"message": "slow down"}"#).unwrap();
    assert_eq!(api_error_message(&flat), "slow down");
    let plain: serde_json::Value = serde_json::from_str(r#"{"error": "oops"}"#).unwrap();
    assert_eq!(api_error_message(&plain), "oops");
    let other: serde_json::Value = serde_json::from_str(r#"{"code": 7}"#).unwrap();
    assert_eq!(api_error_message(&other), "{\"code\":7}");
    assert_eq!(api_error_text(429, "slow down"), "API error (429): slow down");
}

#[test]
fn llm_reply_body_and_errors() {
    let b = response_body("{\"a\": 1}");
    assert_eq!(b["a"], serde_json::Value::from(1));
    let raw = response_body("not json");
    assert_eq!(raw.as_object().unwrap().len(), 1);
    assert_eq!(raw["raw"].as_str(), Some("not json"));
    assert_eq!(reply_error(200, &b), None);
    let err = response_body("{\"error\": {\"message\": \"bad key\"}}");
    assert_eq!(reply_error(401, &err), Some("API error (401): bad key".to_string()));
    assert_eq!(reply_error(500, &raw), Some("API error (500): {\"raw\":\"not json\"}".to_string()));
}
