//! Reading REPL input: slash commands and plain messages.
use crate::text::{is_ws, split_words, str_eq, string_from, trim, views, words};
use vstd::prelude::*;
use vstd::string::*;

verus! {

/// A line typed at the REPL.
#[derive(Debug, Clone)]
pub enum ReplCommand {
    Help,
    Quit,
    Clear,
    Session(SessionCommand),
    Server(ServerCommand),
    Status,
    History,
    /// `/switch <session-id>`; without an id the usage is shown.
    Switch(Option<String>),
    Save,
    /// A slash command nobody knows.
    Unknown(String),
    /// Anything not starting with `/`: a message for the agent.
    Message(String),
}

/// `/session ...`
#[derive(Debug, Clone)]
pub enum SessionCommand {
    /// No subcommand: the usage is shown.
    Usage,
    List,
    Create,
    Show,
    /// `/session delete <id>`; without an id the usage is shown.
    Delete(Option<String>),
    Unknown(String),
}

/// `/server ...`
#[derive(Debug, Clone)]
pub enum ServerCommand {
    Usage,
    List,
    Types,
    /// `/server register <type>`; without a type the usage is shown.
    Register(Option<String>),
    Start(Option<String>),
    Stop(Option<String>),
    Unknown(String),
}

/// The second word, when there is one.
pub open spec fn arg_matches(a: Option<String>, args: Seq<Seq<char>>) -> bool {
    if args.len() < 2 {
        a is None
    } else {
        a matches Some(x) && x@ == args[1]
    }
}

/// `c` is what the words `args` after `/session` ask for.
pub open spec fn session_command_of(c: SessionCommand, args: Seq<Seq<char>>) -> bool {
    if args.len() == 0 {
        c is Usage
    } else if args[0] == "list"@ {
        c is List
    } else if args[0] == "create"@ {
        c is Create
    } else if args[0] == "show"@ {
        c is Show
    } else if args[0] == "delete"@ {
        c matches SessionCommand::Delete(a) && arg_matches(a, args)
    } else {
        c matches SessionCommand::Unknown(u) && u@ == args[0]
    }
}

/// `c` is what the words `args` after `/server` ask for.
pub open spec fn server_command_of(c: ServerCommand, args: Seq<Seq<char>>) -> bool {
    if args.len() == 0 {
        c is Usage
    } else if args[0] == "list"@ {
        c is List
    } else if args[0] == "types"@ {
        c is Types
    } else if args[0] == "register"@ {
        c matches ServerCommand::Register(a) && arg_matches(a, args)
    } else if args[0] == "start"@ {
        c matches ServerCommand::Start(a) && arg_matches(a, args)
    } else if args[0] == "stop"@ {
        c matches ServerCommand::Stop(a) && arg_matches(a, args)
    } else {
        c matches ServerCommand::Unknown(u) && u@ == args[0]
    }
}

/// `c` is what the trimmed line `t` asks for.
pub open spec fn repl_command_of(c: ReplCommand, t: Seq<char>) -> bool {
    let ws = words(t);
    let w = ws[0];
    if t[0] != '/' {
        c matches ReplCommand::Message(m) && m@ == t
    } else if w == "/help"@ || w == "/h"@ || w == "/?"@ {
        c is Help
    } else if w == "/quit"@ || w == "/exit"@ || w == "/q"@ {
        c is Quit
    } else if w == "/clear"@ || w == "/cls"@ {
        c is Clear
    } else if w == "/session"@ {
        c matches ReplCommand::Session(sc) && session_command_of(sc, ws.drop_first())
    } else if w == "/server"@ {
        c matches ReplCommand::Server(sc) && server_command_of(sc, ws.drop_first())
    } else if w == "/status"@ {
        c is Status
    } else if w == "/history"@ {
        c is History
    } else if w == "/switch"@ {
        c matches ReplCommand::Switch(a) && arg_matches(a, ws)
    } else if w == "/save"@ {
        c is Save
    } else {
        c matches ReplCommand::Unknown(u) && u@ == w
    }
}

/// The second of `words`, when there is one.
fn second(words: &Vec<String>) -> (a: Option<String>)
    ensures
        arg_matches(a, views(words@)),
{
    if words.len() < 2 {
        None
    } else {
        Some(words[1].clone())
    }
}

fn parse_session_command(words: &Vec<String>) -> (c: SessionCommand)
    ensures
        session_command_of(c, views(words@)),
{
    if words.len() == 0 {
        return SessionCommand::Usage;
    }
    let w = words[0].as_str();
    if str_eq(w, "list") {
        SessionCommand::List
    } else if str_eq(w, "create") {
        SessionCommand::Create
    } else if str_eq(w, "show") {
        SessionCommand::Show
    } else if str_eq(w, "delete") {
        SessionCommand::Delete(second(words))
    } else {
        SessionCommand::Unknown(words[0].clone())
    }
}

fn parse_server_command(words: &Vec<String>) -> (c: ServerCommand)
    ensures
        server_command_of(c, views(words@)),
{
    if words.len() == 0 {
        return ServerCommand::Usage;
    }
    let w = words[0].as_str();
    if str_eq(w, "list") {
        ServerCommand::List
    } else if str_eq(w, "types") {
        ServerCommand::Types
    } else if str_eq(w, "register") {
        ServerCommand::Register(second(words))
    } else if str_eq(w, "start") {
        ServerCommand::Start(second(words))
    } else if str_eq(w, "stop") {
        ServerCommand::Stop(second(words))
    } else {
        ServerCommand::Unknown(words[0].clone())
    }
}

/// Reads a REPL line: `None` when it is blank; otherwise the command its
/// trimmed text asks for.
pub fn parse_repl_input(input: &str) -> (r: Option<ReplCommand>)
    ensures
        match r {
            None => trim(input@).len() == 0,
            Some(c) => trim(input@).len() > 0 && repl_command_of(c, trim(input@)),
        },
{
    let t = crate::text::trim_str(input);
    if t.as_str().unicode_len() == 0 {
        return None;
    }
    let first = t.as_str().get_char(0);
    if first != '/' {
        return Some(ReplCommand::Message(t));
    }
    let parts = split_words(t.as_str());
    proof {
        crate::text::lemma_trim_ends(input@);
        crate::text::lemma_words_nonempty(t@);
    }
    let rest: Vec<String> = tail(&parts);
    let w = parts[0].as_str();
    let c = if str_eq(w, "/help") || str_eq(w, "/h") || str_eq(w, "/?") {
        ReplCommand::Help
    } else if str_eq(w, "/quit") || str_eq(w, "/exit") || str_eq(w, "/q") {
        ReplCommand::Quit
    } else if str_eq(w, "/clear") || str_eq(w, "/cls") {
        ReplCommand::Clear
    } else if str_eq(w, "/session") {
        ReplCommand::Session(parse_session_command(&rest))
    } else if str_eq(w, "/server") {
        ReplCommand::Server(parse_server_command(&rest))
    } else if str_eq(w, "/status") {
        ReplCommand::Status
    } else if str_eq(w, "/history") {
        ReplCommand::History
    } else if str_eq(w, "/switch") {
        ReplCommand::Switch(second(&parts))
    } else if str_eq(w, "/save") {
        ReplCommand::Save
    } else {
        ReplCommand::Unknown(parts[0].clone())
    };
    Some(c)
}

/// All but the first word.
fn tail(words: &Vec<String>) -> (r: Vec<String>)
    requires
        words.len() > 0,
    ensures
        views(r@) == views(words@).drop_first(),
{
    let mut r: Vec<String> = Vec::new();
    let mut k: usize = 1;
    while k < words.len()
        invariant
            1 <= k <= words.len(),
            r@ == words@.subrange(1, k as int),
        decreases words.len() - k,
    {
        r.push(words[k].clone());
        k = k + 1;
        assert(r@ =~= words@.subrange(1, k as int));
    }
    assert(views(r@) =~= views(words@).drop_first());
    r
}

/// Every documented alias works whatever follows it on the line: a line
/// whose first word is `/quit`, `/exit` or `/q` is read as Quit; `/help`,
/// `/h` or `/?` as Help; `/clear` or `/cls` as Clear.  (`c` is what
/// `parse_repl_input` read from `input`.)
pub proof fn law_repl_aliases(input: Seq<char>, c: ReplCommand)
    requires
        trim(input).len() > 0,
        repl_command_of(c, trim(input)),
    ensures
        ({
            let w = words(trim(input))[0];
            &&& (w == "/quit"@ || w == "/exit"@ || w == "/q"@) ==> c is Quit
            &&& (w == "/help"@ || w == "/h"@ || w == "/?"@) ==> c is Help
            &&& (w == "/clear"@ || w == "/cls"@) ==> c is Clear
        }),
{
    let t = trim(input);
    crate::text::lemma_trim_idempotent(input);
    crate::text::lemma_trim_ends(input);
    crate::text::lemma_words_first(t);
    let w = words(t)[0];
    reveal_strlit("/quit");
    reveal_strlit("/exit");
    reveal_strlit("/q");
    reveal_strlit("/help");
    reveal_strlit("/h");
    reveal_strlit("/?");
    reveal_strlit("/clear");
    reveal_strlit("/cls");
    assert("/quit"@[1] == 'q' && "/exit"@[1] == 'e' && "/q"@[1] == 'q');
    assert("/help"@[1] == 'h' && "/h"@[1] == 'h' && "/?"@[1] == '?');
    assert("/clear"@[1] == 'c' && "/cls"@[1] == 'c');
    if w == "/quit"@ || w == "/exit"@ || w == "/q"@ {
        assert(w[1] == 'q' || w[1] == 'e');
        assert(w[0] == '/');
        assert(t[0] == '/');
        assert(!(w == "/help"@ || w == "/h"@ || w == "/?"@));
        assert(c is Quit);
    }
    if w == "/help"@ || w == "/h"@ || w == "/?"@ {
        assert(w[1] == 'h' || w[1] == '?');
        assert(w[0] == '/');
        assert(t[0] == '/');
        assert(c is Help);
    }
    if w == "/clear"@ || w == "/cls"@ {
        assert(w[1] == 'c');
        assert(w[0] == '/');
        assert(t[0] == '/');
        assert(c is Clear);
    }
}

/// A typed name, where a blank answer asks for a generated one: `None`
/// when the trimmed text is empty, else the trimmed text.
pub open spec fn chosen_name(input: Seq<char>) -> Option<Seq<char>> {
    if trim(input).len() == 0 {
        None
    } else {
        Some(trim(input))
    }
}

/// The name typed at a "press Enter for auto-generated" prompt.
pub fn optional_name(input: &str) -> (r: Option<String>)
    ensures
        match r {
            None => chosen_name(input@) is None,
            Some(n) => chosen_name(input@) == Some(n@),
        },
{
    let t = crate::text::trim_str(input);
    if t.as_str().unicode_len() == 0 {
        None
    } else {
        Some(t)
    }
}

/// Whether a failed send means that no server could take the message: the
/// error names no route for it.
pub fn is_no_route_error(message: &str) -> (b: bool)
    ensures
        b == (crate::text::has_substring(message@, "All routers failed"@)
            || crate::text::has_substring(message@, "No capability found"@)),
{
    crate::text::contains_text(message, "All routers failed") || crate::text::contains_text(
        message,
        "No capability found",
    )
}

/// What the REPL remembers between lines: the session messages go to, and
/// the lines typed so far with a position in them.
#[derive(Debug, Clone)]
pub struct ReplState {
    pub current_session: Option<u128>,
    pub history: Vec<String>,
    pub history_index: usize,
}

impl ReplState {
    /// No session chosen, nothing typed.
    pub fn new() -> (s: Self)
        ensures
            s.current_session is None,
            s.history@.len() == 0,
            s.history_index == 0,
    {
        ReplState { current_session: None, history: Vec::new(), history_index: 0 }
    }

    /// Starting in session `session_id`.
    pub fn with_session(session_id: u128) -> (s: Self)
        ensures
            s.current_session == Some(session_id),
            s.history@.len() == 0,
            s.history_index == 0,
    {
        ReplState { current_session: Some(session_id), history: Vec::new(), history_index: 0 }
    }

    /// A line was handled: it joins the history, and the position moves
    /// past the end.
    pub fn record_input(&mut self, input: String)
        ensures
            final(self).history@ == old(self).history@.push(input),
            final(self).history_index == final(self).history@.len(),
            final(self).current_session == old(self).current_session,
    {
        self.history.push(input);
        self.history_index = self.history.len();
    }

    /// Messages go to `session_id` from now on.
    pub fn switch_to(&mut self, session_id: u128)
        ensures
            final(self).current_session == Some(session_id),
            final(self).history == old(self).history,
            final(self).history_index == old(self).history_index,
    {
        self.current_session = Some(session_id);
    }

    /// Session `session_id` was deleted: if it was the current one, there is
    /// no current session any more.  Returns whether that happened.
    pub fn session_deleted(&mut self, session_id: u128) -> (cleared: bool)
        ensures
            cleared == (old(self).current_session == Some(session_id)),
            final(self).current_session == if cleared {
                None
            } else {
                old(self).current_session
            },
            final(self).history == old(self).history,
            final(self).history_index == old(self).history_index,
    {
        let cleared = match self.current_session {
            Some(c) => c == session_id,
            None => false,
        };
        if cleared {
            self.current_session = None;
        }
        cleared
    }
}

} // verus!
