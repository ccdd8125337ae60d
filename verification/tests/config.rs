use self_evolving_agent::config::{Config, ConfigManager};

#[test]
fn test_default_config() {
    let config = Config::default();
    assert_eq!(config.llm.api_base, "https://api.openai.com/v1");
    assert_eq!(config.log.level, "info");
}

#[test]
fn config_updates_and_reset() {
    let mut m = ConfigManager::from_parts("/tmp/config.toml".to_string(), Config::default());
    m.update_llm_config(None, Some("k".to_string()), Some("m".to_string()));
    assert_eq!(m.config().llm.api_key, "k");
    assert_eq!(m.config().llm.model, "m");
    assert_eq!(m.config().llm.api_base, "https://api.openai.com/v1");
    m.update_log_config(Some("debug".to_string()), Some(true));
    assert_eq!(m.config().log.level, "debug");
    assert!(m.config().log.log_api_details);
    m.reset_to_default();
    assert_eq!(m.config().llm.model, "gpt-4");
    assert_eq!(m.config().session.max_history, 100);
    assert_eq!(m.config_path(), "/tmp/config.toml");
}
