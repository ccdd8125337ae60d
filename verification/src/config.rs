//! Application settings: the LLM endpoint, logging and sessions.  Reading
//! and writing the TOML file is the caller's part.
use crate::llm::{LlmClientConfig, TEMPERATURE_0_7_BITS};
use crate::logger::LogLevel;
use crate::text::string_from;
use vstd::prelude::*;

verus! {

/// All settings.
#[derive(Debug, Clone)]
pub struct Config {
    pub llm: LlmConfig,
    pub log: LogConfig,
    pub session: SessionConfig,
}

/// LLM endpoint settings.
#[derive(Debug, Clone)]
pub struct LlmConfig {
    pub api_base: String,
    pub api_key: String,
    pub model: String,
    pub max_tokens: u32,
    /// The bits of the `f32` temperature.
    pub temperature_bits: u32,
}

/// Logging settings.
#[derive(Debug, Clone)]
pub struct LogConfig {
    /// error, warning, info or debug.
    pub level: String,
    /// Whether whole API requests and replies are logged.
    pub log_api_details: bool,
}

/// Session settings.
#[derive(Debug, Clone, Copy, PartialEq, Eq, Structural)]
pub struct SessionConfig {
    pub auto_save: bool,
    pub max_history: usize,
}

impl LlmConfig {
    /// The OpenAI endpoint, no key, `gpt-4`, 4096 tokens, temperature 0.7.
    pub fn new() -> (c: Self)
        ensures
            c.api_base@ == "https://api.openai.com/v1"@,
            c.api_key@ == Seq::<char>::empty(),
            c.model@ == "gpt-4"@,
            c.max_tokens == 4096,
            c.temperature_bits == TEMPERATURE_0_7_BITS,
    {
        LlmConfig {
            api_base: string_from("https://api.openai.com/v1"),
            api_key: String::new(),
            model: string_from("gpt-4"),
            max_tokens: 4096,
            temperature_bits: TEMPERATURE_0_7_BITS,
        }
    }

    /// The client settings for this endpoint.
    pub fn client_config(&self) -> (c: LlmClientConfig)
        ensures
            c.api_base@ == self.api_base@,
            c.api_key@ == self.api_key@,
            c.model@ == self.model@,
            c.max_tokens == self.max_tokens,
            c.temperature_bits == self.temperature_bits,
    {
        LlmClientConfig {
            api_base: self.api_base.clone(),
            api_key: self.api_key.clone(),
            model: self.model.clone(),
            max_tokens: self.max_tokens,
            temperature_bits: self.temperature_bits,
        }
    }
}

impl Default for LlmConfig {
    fn default() -> (c: Self)
        ensures
            c.api_base@ == "https://api.openai.com/v1"@,
            c.api_key@ == Seq::<char>::empty(),
            c.model@ == "gpt-4"@,
            c.max_tokens == 4096,
            c.temperature_bits == TEMPERATURE_0_7_BITS,
    {
        LlmConfig::new()
    }
}

impl LogConfig {
    /// Level `info`, no API details.
    pub fn new() -> (c: Self)
        ensures
            c.level@ == "info"@,
            !c.log_api_details,
    {
        LogConfig { level: string_from("info"), log_api_details: false }
    }

    /// The level the configuration names.
    pub fn log_level(&self) -> (l: LogLevel)
        ensures
            l == if self.level@ == "error"@ {
                LogLevel::Error
            } else if self.level@ == "warning"@ {
                LogLevel::Warning
            } else if self.level@ == "debug"@ {
                LogLevel::Debug
            } else {
                LogLevel::Info
            },
    {
        LogLevel::from_config(self.level.as_str())
    }
}

impl Default for LogConfig {
    fn default() -> (c: Self)
        ensures
            c.level@ == "info"@,
            !c.log_api_details,
    {
        LogConfig::new()
    }
}

impl SessionConfig {
    /// Auto-save on, 100 messages of history.
    pub fn new() -> (c: Self)
        ensures
            c.auto_save,
            c.max_history == 100,
    {
        SessionConfig { auto_save: true, max_history: 100 }
    }
}

impl Default for SessionConfig {
    fn default() -> (c: Self)
        ensures
            c.auto_save,
            c.max_history == 100,
    {
        SessionConfig::new()
    }
}

impl Config {
    /// Whether these are the default settings.
    pub open spec fn is_default(&self) -> bool {
        &&& self.llm.api_base@ == "https://api.openai.com/v1"@
        &&& self.llm.api_key@ == Seq::<char>::empty()
        &&& self.llm.model@ == "gpt-4"@
        &&& self.llm.max_tokens == 4096
        &&& self.llm.temperature_bits == TEMPERATURE_0_7_BITS
        &&& self.log.level@ == "info"@
        &&& !self.log.log_api_details
        &&& self.session.auto_save
        &&& self.session.max_history == 100
    }

    /// The default settings.
    pub fn new() -> (c: Self)
        ensures
            c.is_default(),
    {
        Config { llm: LlmConfig::new(), log: LogConfig::new(), session: SessionConfig::new() }
    }
}

impl Default for Config {
    fn default() -> (c: Self)
        ensures
            c.is_default(),
    {
        Config::new()
    }
}

/// The settings and the file they are kept in.
#[derive(Debug, Clone)]
pub struct ConfigManager {
    config_path: String,
    config: Config,
}

impl ConfigManager {
    pub closed spec fn path(&self) -> Seq<char> {
        self.config_path@
    }

    pub closed spec fn settings(&self) -> Config {
        self.config
    }

    /// Settings `config`, kept in `config_path`.
    pub fn from_parts(config_path: String, config: Config) -> (m: Self)
        ensures
            m.path() == config_path@,
            m.settings() == config,
    {
        ConfigManager { config_path, config }
    }

    /// The settings.
    pub fn config(&self) -> (c: &Config)
        ensures
            *c == self.settings(),
    {
        &self.config
    }

    /// The settings, for changing them.
    pub fn config_mut(&mut self) -> (c: &mut Config)
        ensures
            *c == old(self).settings(),
            final(self).settings() == *final(c),
            final(self).path() == old(self).path(),
    {
        &mut self.config
    }

    /// Replaces the given endpoint settings; absent ones stay.
    pub fn update_llm_config(
        &mut self,
        api_base: Option<String>,
        api_key: Option<String>,
        model: Option<String>,
    )
        ensures
            final(self).path() == old(self).path(),
            final(self).settings().llm.api_base == match api_base {
                Some(b) => b,
                None => old(self).settings().llm.api_base,
            },
            final(self).settings().llm.api_key == match api_key {
                Some(k) => k,
                None => old(self).settings().llm.api_key,
            },
            final(self).settings().llm.model == match model {
                Some(m) => m,
                None => old(self).settings().llm.model,
            },
            final(self).settings().llm.max_tokens == old(self).settings().llm.max_tokens,
            final(self).settings().llm.temperature_bits == old(self).settings().llm.temperature_bits,
            final(self).settings().log == old(self).settings().log,
            final(self).settings().session == old(self).settings().session,
    {
        if let Some(b) = api_base {
            self.config.llm.api_base = b;
        }
        if let Some(k) = api_key {
            self.config.llm.api_key = k;
        }
        if let Some(m) = model {
            self.config.llm.model = m;
        }
    }

    /// Replaces the given logging settings; absent ones stay.
    pub fn update_log_config(&mut self, level: Option<String>, log_api_details: Option<bool>)
        ensures
            final(self).path() == old(self).path(),
            final(self).settings().log.level == match level {
                Some(l) => l,
                None => old(self).settings().log.level,
            },
            final(self).settings().log.log_api_details == match log_api_details {
                Some(d) => d,
                None => old(self).settings().log.log_api_details,
            },
            final(self).settings().llm == old(self).settings().llm,
            final(self).settings().session == old(self).settings().session,
    {
        if let Some(l) = level {
            self.config.log.level = l;
        }
        if let Some(d) = log_api_details {
            self.config.log.log_api_details = d;
        }
    }

    /// The file the settings are kept in.
    pub fn config_path(&self) -> (p: &String)
        ensures
            p@ == self.path(),
    {
        &self.config_path
    }

    /// Restores the default settings.
    pub fn reset_to_default(&mut self)
        ensures
            final(self).settings().is_default(),
            final(self).path() == old(self).path(),
    {
        self.config = Config::new();
    }
}

} // verus!
