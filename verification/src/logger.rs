//! Log levels and the logger's state: which entries are written and to
//! which file.  Writing the files is the caller's part.
use crate::sessions::manager::join_path;
use crate::sessions::models::{Timestamp, now};
use crate::text::{chars_of, push_all, string_from, string_of};
use vstd::prelude::*;
use vstd::string::*;

verus! {

/// Severity of a log entry, from most to least severe.
#[derive(Debug, Clone, Copy, PartialEq, Eq, Structural)]
pub enum LogLevel {
    Error,
    Warning,
    Info,
    Debug,
}

/// The position of a level: Error 0, Warning 1, Info 2, Debug 3.
pub open spec fn level_rank(l: LogLevel) -> int {
    match l {
        LogLevel::Error => 0,
        LogLevel::Warning => 1,
        LogLevel::Info => 2,
        LogLevel::Debug => 3,
    }
}

impl LogLevel {
    /// The position of the level.
    pub fn rank(self) -> (r: u8)
        ensures
            r == level_rank(self),
    {
        match self {
            LogLevel::Error => 0,
            LogLevel::Warning => 1,
            LogLevel::Info => 2,
            LogLevel::Debug => 3,
        }
    }

    /// The label printed for the level: ERROR, WARN, INFO, DEBUG.
    pub fn label(self) -> (s: &'static str)
        ensures
            s@ == match self {
                LogLevel::Error => "ERROR"@,
                LogLevel::Warning => "WARN"@,
                LogLevel::Info => "INFO"@,
                LogLevel::Debug => "DEBUG"@,
            },
    {
        match self {
            LogLevel::Error => "ERROR",
            LogLevel::Warning => "WARN",
            LogLevel::Info => "INFO",
            LogLevel::Debug => "DEBUG",
        }
    }

    /// The filter directive of the level: error, warn, info, debug.
    pub fn filter_name(self) -> (s: &'static str)
        ensures
            s@ == match self {
                LogLevel::Error => "error"@,
                LogLevel::Warning => "warn"@,
                LogLevel::Info => "info"@,
                LogLevel::Debug => "debug"@,
            },
    {
        match self {
            LogLevel::Error => "error",
            LogLevel::Warning => "warn",
            LogLevel::Info => "info",
            LogLevel::Debug => "debug",
        }
    }

    /// The level named in a configuration: `error`, `warning`, `debug`;
    /// anything else is Info.
    pub fn from_config(level: &str) -> (l: LogLevel)
        ensures
            l == if level@ == "error"@ {
                LogLevel::Error
            } else if level@ == "warning"@ {
                LogLevel::Warning
            } else if level@ == "debug"@ {
                LogLevel::Debug
            } else {
                LogLevel::Info
            },
    {
        if crate::text::str_eq(level, "error") {
            LogLevel::Error
        } else if crate::text::str_eq(level, "warning") {
            LogLevel::Warning
        } else if crate::text::str_eq(level, "debug") {
            LogLevel::Debug
        } else {
            LogLevel::Info
        }
    }
}

/// Whether an entry of level `entry` is written by a logger at level
/// `configured`.
pub fn should_log(entry: LogLevel, configured: LogLevel) -> (b: bool)
    ensures
        b == (level_rank(entry) <= level_rank(configured)),
{
    entry.rank() <= configured.rank()
}

/// A log entry.
#[derive(Debug)]
pub struct LogEntry {
    pub timestamp: Timestamp,
    pub level: LogLevel,
    pub module: String,
    pub message: String,
    pub data: Option<serde_json::Value>,
}

/// The record of one API call.
#[derive(Debug)]
pub struct ApiLog {
    pub request_id: String,
    pub request_time: Timestamp,
    pub response_time: Option<Timestamp>,
    pub url: String,
    pub method: String,
    pub request_headers: serde_json::Value,
    pub request_body: Option<serde_json::Value>,
    pub response_status: Option<u16>,
    pub response_headers: Option<serde_json::Value>,
    pub response_body: Option<serde_json::Value>,
    pub error: Option<String>,
}

/// `chrono::Utc::now().format("%Y-%m-%d")`: today's date; nothing is
/// stated of it.  Like `Utc::now`, it panics when the clock reads a time
/// before the Unix epoch.
#[verifier::external_body]
fn today_text() -> String {
    chrono::Utc::now().format("%Y-%m-%d").to_string()
}

/// The logger's state: its directory, the file it writes, and its level.
///
/// There is one logger state in a program: it cannot be cloned.  Its owner
/// (the gateway) changes it, and everything else that logs borrows it at the
/// moment it logs, so each of them sees the level that was last set.
#[derive(Debug)]
pub struct Logger {
    log_dir: String,
    current_file: String,
    level: LogLevel,
}

/// The log file of a date: `<dir>/<date>.log`.
pub open spec fn log_file(dir: Seq<char>, date: Seq<char>) -> Seq<char> {
    join_path(dir, date + seq!['.', 'l', 'o', 'g'])
}

/// The path of `date`'s log file in `dir`.
fn log_file_path(dir: &str, date: &str) -> (p: String)
    ensures
        p@ == log_file(dir@, date@),
{
    let base = chars_of(dir);
    let mut name = chars_of(date);
    name.push('.');
    name.push('l');
    name.push('o');
    name.push('g');
    let mut out: Vec<char> = Vec::new();
    push_all(&mut out, &base);
    if base.len() > 0 && base[base.len() - 1] != '/' {
        out.push('/');
    }
    push_all(&mut out, &name);
    proof {
        if base@.len() == 0 {
            assert(out@ =~= name@);
        } else if base@.last() == '/' {
            assert(out@ =~= base@ + name@);
        } else {
            assert(out@ =~= base@ + seq!['/'] + name@);
        }
    }
    string_of(&out)
}

impl Logger {
    pub closed spec fn dir(&self) -> Seq<char> {
        self.log_dir@
    }

    pub closed spec fn file(&self) -> Seq<char> {
        self.current_file@
    }

    pub closed spec fn lvl(&self) -> LogLevel {
        self.level
    }

    /// A logger writing to today's file in `log_dir`.
    pub fn new(log_dir: String, level: LogLevel) -> (l: Self)
        ensures
            l.dir() == log_dir@,
            l.lvl() == level,
            exists|date: Seq<char>| l.file() == #[trigger] log_file(log_dir@, date),
    {
        let today = today_text();
        Logger::for_date(log_dir, level, today.as_str())
    }

    /// A logger writing to `date`'s file in `log_dir`.
    pub fn for_date(log_dir: String, level: LogLevel, date: &str) -> (l: Self)
        ensures
            l.dir() == log_dir@,
            l.lvl() == level,
            l.file() == log_file(log_dir@, date@),
    {
        let current_file = log_file_path(log_dir.as_str(), date);
        Logger { log_dir, current_file, level }
    }

    /// The log directory.
    pub fn log_dir(&self) -> (d: String)
        ensures
            d@ == self.dir(),
    {
        self.log_dir.clone()
    }

    /// The file entries are written to.
    pub fn current_file(&self) -> (f: &String)
        ensures
            f@ == self.file(),
    {
        &self.current_file
    }

    /// The level.
    pub fn level(&self) -> (l: LogLevel)
        ensures
            l == self.lvl(),
    {
        self.level
    }

    /// Changes the level.
    pub fn set_level(&mut self, level: LogLevel)
        ensures
            final(self).lvl() == level,
            final(self).dir() == old(self).dir(),
            final(self).file() == old(self).file(),
    {
        self.level = level;
    }

    /// Whether an entry of `level` is written.
    pub fn accepts(&self, level: LogLevel) -> (b: bool)
        ensures
            b == (level_rank(level) <= level_rank(self.lvl())),
    {
        should_log(level, self.level)
    }

    /// Switches to `date`'s file.
    pub fn rotate_to(&mut self, date: &str)
        ensures
            final(self).file() == log_file(old(self).dir(), date@),
            final(self).dir() == old(self).dir(),
            final(self).lvl() == old(self).lvl(),
    {
        let f = log_file_path(self.log_dir.as_str(), date);
        self.current_file = f;
    }

    /// Switches to today's file.
    pub fn rotate_if_needed(&mut self)
        ensures
            final(self).dir() == old(self).dir(),
            final(self).lvl() == old(self).lvl(),
            exists|date: Seq<char>| final(self).file() == #[trigger] log_file(old(self).dir(), date),
    {
        let today = today_text();
        self.rotate_to(today.as_str());
    }

    /// An entry of `level` stamped now.
    pub fn entry(level: LogLevel, module: &str, message: &str, data: Option<serde_json::Value>) -> (e:
        LogEntry)
        ensures
            e.level == level,
            e.module@ == module@,
            e.message@ == message@,
            e.data == data,
    {
        LogEntry { timestamp: now(), level, module: string_from(module), message: string_from(message), data }
    }

    /// The message logged for an API call: `API调用: <method> <url>`.
    pub fn api_message(api_log: &ApiLog) -> (m: String)
        ensures
            m@ == "API调用: "@ + api_log.method@ + " "@ + api_log.url@,
    {
        let mut m = string_from("API调用: ");
        m.append(api_log.method.as_str());
        m.append(" ");
        m.append(api_log.url.as_str());
        m
    }
}

/// A more severe entry passes every filter that a less severe one passes.
pub proof fn law_filter_monotone(a: LogLevel, b: LogLevel, configured: LogLevel)
    requires
        level_rank(a) <= level_rank(b),
        level_rank(b) <= level_rank(configured),
    ensures
        level_rank(a) <= level_rank(configured),
{
}

/// Severity follows the declaration order Error, Warning, Info, Debug: a
/// logger at any level writes error entries, and a logger at level
/// `configured` writes an entry of `level` exactly when `level` is declared
/// no later than `configured`.
pub proof fn law_levels_in_declared_order(logger: Logger, level: LogLevel)
    ensures
        level_rank(LogLevel::Error) < level_rank(LogLevel::Warning),
        level_rank(LogLevel::Warning) < level_rank(LogLevel::Info),
        level_rank(LogLevel::Info) < level_rank(LogLevel::Debug),
        level_rank(LogLevel::Error) <= level_rank(logger.lvl()),
        logger.lvl() == LogLevel::Error ==> (level_rank(level) <= level_rank(logger.lvl()) <==> level
            == LogLevel::Error),
        logger.lvl() == LogLevel::Warning ==> (level_rank(level) <= level_rank(logger.lvl()) <==> (level
            == LogLevel::Error || level == LogLevel::Warning)),
        logger.lvl() == LogLevel::Info ==> (level_rank(level) <= level_rank(logger.lvl()) <==> level
            != LogLevel::Debug),
        logger.lvl() == LogLevel::Debug ==> level_rank(level) <= level_rank(logger.lvl()),
{
}

} // verus!
