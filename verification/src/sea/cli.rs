//! The `sea` command line: its arguments and what they decide.
use crate::sea::config::{SeaConfig, is_default_except_path};
use crate::sea::error::SeaError;
use crate::sea::theme::{ThemeType, parse_theme_type, theme_of};
use crate::sessions::manager::uuid_text;
use crate::text::{chars_of, push_all, str_eq, string_of};
use vstd::prelude::*;
use vstd::string::*;

verus! {

/// The arguments of `sea`.
#[derive(Debug, Clone)]
pub struct SeaCli {
    /// Settings file (empty: none given).
    pub config: String,
    /// Session directory; overrides every settings file.
    pub session_path: Option<String>,
    pub log_level: String,
    /// `default`, `dark` or `monochrome`.
    pub theme: String,
    pub command: SeaCommand,
}

/// The subcommands of `sea`.
#[derive(Debug, Clone)]
pub enum SeaCommand {
    Run { mock_classifier: bool, interactive: bool },
    Repl { session: Option<String> },
    Chat { quick: bool },
    Session(SessionAction),
    Server(ServerAction),
    Message(MessageAction),
    Config { output: String },
    Status { watch: bool },
    Guide { topic: Option<String> },
}

/// `sea session ...`
#[derive(Debug, Clone)]
pub enum SessionAction {
    Create { name: Option<String> },
    List,
    Show { session_id: String },
    Delete { session_id: String },
}

/// `sea server ...`
#[derive(Debug, Clone)]
pub enum ServerAction {
    Register { session: String, server_type: String, id: Option<String>, name: Option<String> },
    List { session: Option<String> },
    Start { server_id: String },
    Stop { server_id: String },
    Types,
}

/// `sea message ...`
#[derive(Debug, Clone)]
pub enum MessageAction {
    Send { session: String, content: String },
    History { session: String, limit: Option<usize>, offset: Option<usize> },
}

/// The help pages of `sea guide`.
#[derive(Debug, Clone, Copy, PartialEq, Eq, Structural)]
pub enum HelpTopic {
    Main,
    Session,
    Server,
    Message,
    Repl,
    Config,
    QuickStart,
    Troubleshooting,
}

/// The page `sea guide --topic` shows.
pub open spec fn help_topic_of(topic: Option<Seq<char>>) -> HelpTopic {
    match topic {
        Some(t) => if t == "session"@ {
            HelpTopic::Session
        } else if t == "server"@ {
            HelpTopic::Server
        } else if t == "message"@ {
            HelpTopic::Message
        } else if t == "repl"@ {
            HelpTopic::Repl
        } else if t == "config"@ {
            HelpTopic::Config
        } else if t == "quickstart"@ {
            HelpTopic::QuickStart
        } else if t == "troubleshoot"@ {
            HelpTopic::Troubleshooting
        } else {
            HelpTopic::Main
        },
        None => HelpTopic::Main,
    }
}

/// The help page for `topic`.
pub fn help_topic(topic: Option<&str>) -> (t: HelpTopic)
    ensures
        t == help_topic_of(
            match topic {
                Some(x) => Some(x@),
                None => None,
            },
        ),
{
    match topic {
        None => HelpTopic::Main,
        Some(x) => if str_eq(x, "session") {
            HelpTopic::Session
        } else if str_eq(x, "server") {
            HelpTopic::Server
        } else if str_eq(x, "message") {
            HelpTopic::Message
        } else if str_eq(x, "repl") {
            HelpTopic::Repl
        } else if str_eq(x, "config") {
            HelpTopic::Config
        } else if str_eq(x, "quickstart") {
            HelpTopic::QuickStart
        } else if str_eq(x, "troubleshoot") {
            HelpTopic::Troubleshooting
        } else {
            HelpTopic::Main
        },
    }
}

/// The value `uuid::Uuid::parse_str` reads from a text (simple, hyphenated,
/// braced or URN form); `None` where it fails.
pub uninterp spec fn uuid_parse(text: Seq<char>) -> Option<u128>;

/// `uuid::Uuid::parse_str`, the UUID taken as its 128-bit value.  A
/// hyphenated lowercase UUID text reads back as its value.
#[verifier::external_body]
pub(crate) fn parse_uuid(text: &str) -> (r: Option<u128>)
    ensures
        r == uuid_parse(text@),
        forall|x: u128| text@ == uuid_text(x) ==> r == Some(x),
{
    uuid::Uuid::parse_str(text).ok().map(|u| u.as_u128())
}

/// The error for a text that is not a session id.
pub open spec fn invalid_session_id(s: Seq<char>) -> Seq<char> {
    "Invalid session ID: "@ + s
}

/// Reads a session id (a UUID).
pub fn parse_session_id(s: &str) -> (r: Result<u128, SeaError>)
    ensures
        match r {
            Ok(id) => uuid_parse(s@) == Some(id),
            Err(e) => uuid_parse(s@) is None && (e matches SeaError::InvalidOperation(m) && m@
                == invalid_session_id(s@)),
        },
        forall|x: u128| s@ == uuid_text(x) ==> r == Ok::<u128, SeaError>(x),
{
    match parse_uuid(s) {
        Some(id) => Ok(id),
        None => {
            let mut v = chars_of("Invalid session ID: ");
            push_all(&mut v, &chars_of(s));
            Err(SeaError::InvalidOperation(string_of(&v)))
        },
    }
}

impl SeaCli {
    /// The theme named by `--theme`.
    pub fn parse_theme_type(&self) -> (t: ThemeType)
        ensures
            t == theme_of(self.theme@),
    {
        parse_theme_type(self.theme.as_str())
    }

    /// Whether a settings file was named with `--config`.
    pub fn has_config_file(&self) -> (b: bool)
        ensures
            b == (self.config@.len() > 0),
    {
        self.config.as_str().unicode_len() > 0
    }
}

/// The settings `sea` runs with, from what reading the files gave:
/// `explicit` is the settings file named with `--config` (absent when none
/// was named or it does not exist), `default_file` the settings file in the
/// user's configuration directory (absent when it does not exist); each
/// holds the parsed settings or the parse error.  A session path given on
/// the command line wins over both files; a broken named file is an error;
/// a broken default file is passed over.
pub fn resolve_config(
    session_path: Option<String>,
    explicit: Option<Result<SeaConfig, String>>,
    default_file: Option<Result<SeaConfig, String>>,
) -> (r: Result<SeaConfig, SeaError>)
    ensures
        match session_path {
            Some(p) => r matches Ok(c) && c.session_store_path == p && is_default_except_path(c),
            None => match explicit {
                Some(Ok(c)) => r == Ok::<SeaConfig, SeaError>(c),
                Some(Err(m)) => r == Err::<SeaConfig, SeaError>(SeaError::Config(m)),
                None => match default_file {
                    Some(Ok(c)) => r == Ok::<SeaConfig, SeaError>(c),
                    _ => r matches Ok(c) && c.session_store_path@ == "./sessions"@
                        && is_default_except_path(c),
                },
            },
        },
{
    if let Some(p) = session_path {
        let mut c = SeaConfig::default();
        c.session_store_path = p;
        return Ok(c);
    }
    match explicit {
        Some(Ok(c)) => Ok(c),
        Some(Err(m)) => Err(SeaError::Config(m)),
        None => match default_file {
            Some(Ok(c)) => Ok(c),
            _ => Ok(SeaConfig::default()),
        },
    }
}

} // verus!
