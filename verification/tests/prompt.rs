use self_evolving_agent::prompt::{
    extract_variables, PromptBuilder, PromptContext, PromptTemplate, StructuredPrompt,
};

fn s(x: &str) -> String {
    x.to_string()
}

fn two_part_prompt() -> StructuredPrompt {
    StructuredPrompt::new().with(s("role"), s("你是一个助手")).with(s("instruction"), s("请使用中文"))
}

#[test]
fn test_structured_prompt_basic() {
    let prompt = two_part_prompt();

    assert_eq!(prompt.len(), 2);
    assert_eq!(prompt.get("role"), Some(&"你是一个助手".to_string()));
    assert_eq!(prompt.get("instruction"), Some(&"请使用中文".to_string()));
}

#[test]
fn test_structured_prompt_order_preserved() {
    let prompt = StructuredPrompt::new()
        .with(s("first"), s("第一个"))
        .with(s("second"), s("第二个"))
        .with(s("third"), s("第三个"));

    let keys = prompt.ordered_keys();
    assert_eq!(keys, vec![s("first"), s("second"), s("third")]);
}

#[test]
fn test_structured_prompt_json_order() {
    let json = r#"{"a": "1", "b": "2", "c": "3"}"#;
    let prompt = StructuredPrompt::from_json(json).unwrap();

    let keys = prompt.ordered_keys();
    assert_eq!(keys, vec![s("a"), s("b"), s("c")]);
}

#[test]
fn test_structured_prompt_json() {
    let prompt = two_part_prompt();

    let json = prompt.to_json().unwrap();
    let parsed = StructuredPrompt::from_json(&json).unwrap();

    assert_eq!(parsed.len(), 2);
    assert_eq!(parsed.get("role"), Some(&"你是一个助手".to_string()));
}

#[test]
fn test_prompt_context() {
    let ctx = PromptContext::new().set(s("name"), s("Alice")).set(s("role"), s("工程师"));

    assert_eq!(ctx.get("name"), Some(&"Alice".to_string()));
    assert_eq!(ctx.get("role"), Some(&"工程师".to_string()));
}

#[test]
fn test_prompt_builder_basic() {
    let prompt = two_part_prompt();

    let ctx = PromptContext::new();
    let builder = PromptBuilder::new();
    let result = builder.build(&prompt, &ctx);

    assert!(result.contains("role"));
    assert!(result.contains("你是一个助手"));
    assert!(result.contains("instruction"));
    assert!(result.contains("请使用中文"));
}

#[test]
fn test_prompt_builder_order() {
    let prompt = StructuredPrompt::new()
        .with(s("third"), s("第三个"))
        .with(s("first"), s("第一个"))
        .with(s("second"), s("第二个"));

    let builder = PromptBuilder::with_template(PromptTemplate::new().with_titles(false));
    let ctx = PromptContext::new();
    let result = builder.build(&prompt, &ctx);

    let third_pos = result.find("第三个").unwrap();
    let first_pos = result.find("第一个").unwrap();
    let second_pos = result.find("第二个").unwrap();

    assert!(third_pos < first_pos);
    assert!(first_pos < second_pos);
}

#[test]
fn test_prompt_builder_with_variables() {
    let prompt = StructuredPrompt::new()
        .with(s("role"), s("你是一个{{role_name}}"))
        .with(s("greeting"), s("你好，{{user_name}}！"));

    let ctx = PromptContext::new().set(s("role_name"), s("翻译助手")).set(s("user_name"), s("Alice"));

    let builder = PromptBuilder::with_template(PromptTemplate::new().with_titles(false));
    let result = builder.build(&prompt, &ctx);

    assert!(result.contains("你是一个翻译助手"));
    assert!(result.contains("你好，Alice！"));
}

#[test]
fn test_prompt_builder_missing_variable() {
    let prompt = StructuredPrompt::new().with(s("role"), s("你是一个{{role_name}}"));

    let ctx = PromptContext::new();

    let builder = PromptBuilder::with_template(PromptTemplate::new().with_titles(false));
    let result = builder.build(&prompt, &ctx);

    assert!(result.contains("你是一个{{role_name}}"));
}

#[test]
fn test_prompt_builder_disabled() {
    let prompt = two_part_prompt();

    let template = PromptTemplate::new().disable(s("instruction"));

    let builder = PromptBuilder::with_template(template);
    let ctx = PromptContext::new();
    let result = builder.build(&prompt, &ctx);

    assert!(result.contains("你是一个助手"));
    assert!(!result.contains("请使用中文"));
}

#[test]
fn test_extract_variables() {
    let text = "你是一个{{role}}，你好{{user}}！今天是{{date}}。";
    let vars = extract_variables(text);

    assert_eq!(vars.len(), 3);
    assert!(vars.contains(&"role".to_string()));
    assert!(vars.contains(&"user".to_string()));
    assert!(vars.contains(&"date".to_string()));
}

#[test]
fn test_extract_variables_with_function() {
    let text = "时间：{{get_time()}}，用户：{{user}}";
    let vars = extract_variables(text);

    assert_eq!(vars.len(), 2);
    assert!(vars.contains(&"get_time".to_string()));
    assert!(vars.contains(&"user".to_string()));
}

#[test]
fn test_prompt_builder_no_titles() {
    let prompt = two_part_prompt();

    let template = PromptTemplate::new().with_titles(false).with_separator(s("\n---\n"));

    let builder = PromptBuilder::with_template(template);
    let ctx = PromptContext::new();
    let result = builder.build(&prompt, &ctx);

    assert!(!result.contains("## role"));
    assert!(result.contains("你是一个助手"));
    assert!(result.contains("---"));
}

#[test]
fn prompt_build_exact_text() {
    let prompt = two_part_prompt();
    let result = PromptBuilder::new().build(&prompt, &PromptContext::new());
    assert_eq!(result, "## role\n\n你是一个助手\n\n## instruction\n\n请使用中文");
}

#[test]
fn prompt_build_skips_empty_components() {
    let prompt = StructuredPrompt::new().with(s("a"), s("")).with(s("b"), s("x"));
    let builder = PromptBuilder::with_template(PromptTemplate::new().with_titles(false));
    assert_eq!(builder.build(&prompt, &PromptContext::new()), "x");
}

#[test]
fn prompt_all_disabled_is_empty() {
    let prompt = two_part_prompt();
    let template = PromptTemplate::new().disable(s("role")).disable(s("instruction"));
    let builder = PromptBuilder::with_template(template);
    assert_eq!(builder.build(&prompt, &PromptContext::new()), "");
}

#[test]
fn prompt_function_placeholder() {
    let builder = PromptBuilder::new();
    let ctx = PromptContext::new();
    assert_eq!(builder.resolve_variables("t={{ now( x ) }}", &ctx), "t=[函数: now(x)]");
    assert_eq!(builder.resolve_function("now", &ctx), "[无效函数调用: now]");
}

#[test]
fn prompt_plain_text_resolves_to_itself() {
    let builder = PromptBuilder::new();
    let ctx = PromptContext::new().set(s("a"), s("b"));
    assert_eq!(builder.resolve_variables("no placeholders here", &ctx), "no placeholders here");
    assert_eq!(builder.resolve_variables("{{ a }} and {{b", &ctx), "b and {{b");
}

#[test]
fn prompt_set_keeps_position() {
    let mut prompt = StructuredPrompt::new().with(s("a"), s("1")).with(s("b"), s("2"));
    prompt.set(s("a"), s("3"));
    assert_eq!(prompt.ordered_keys(), vec![s("a"), s("b")]);
    assert_eq!(prompt.get("a"), Some(&s("3")));
    assert_eq!(prompt.remove("a"), Some(s("3")));
    assert_eq!(prompt.ordered_keys(), vec![s("b")]);
}

#[test]
fn prompt_invalid_json_is_error() {
    assert!(StructuredPrompt::from_json("[1, 2]").is_err());
    assert!(StructuredPrompt::from_json("{\"a\": 1}").is_err());
}

#[test]
fn prompt_context_merge_prefers_other() {
    let mut a = PromptContext::new().set(s("x"), s("1")).set(s("y"), s("2"));
    let b = PromptContext::new().set(s("y"), s("3"));
    a.merge(&b);
    assert_eq!(a.get("x"), Some(&s("1")));
    assert_eq!(a.get("y"), Some(&s("3")));
}

#[test]
fn prompt_can_build_rejects_non_ascii_call_end() {
    let builder = PromptBuilder::new();
    let good = StructuredPrompt::new().with(s("a"), s("{{f(x)}}"));
    let bad = StructuredPrompt::new().with(s("a"), s("{{f(é}}"));
    assert!(builder.can_build(&good));
    assert!(!builder.can_build(&bad));
}

#[test]
fn prompt_unknown_variable_stays_as_written() {
    let builder = PromptBuilder::new();
    let ctx = PromptContext::new();
    assert_eq!(builder.resolve_variables("A{{ x }}B", &ctx), "A{{ x }}B");
    let ctx = PromptContext::new().set(s("x"), s("1"));
    assert_eq!(builder.resolve_variables("A{{ x }}B{{  y}}", &ctx), "A1B{{  y}}");
}
