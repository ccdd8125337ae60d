//! The command line of the session manager: its commands, and how the
//! `--tools` list and session id arguments are read.
use crate::sessions::models::SessionId;
use crate::text::{
    chars_of, has_substring, join, join_chars, lemma_join_contains, lemma_trim_idempotent, slice,
    string_of, trim, trim_bounds, views,
};
use vstd::prelude::*;

verus! {

/// The command line.
pub struct Cli {
    /// Directory of the session files.
    pub session_dir: String,
    pub command: Commands,
}

/// Top-level commands.
pub enum Commands {
    /// Create a new session.
    Create,
    /// List all sessions.
    List,
    /// Show a session.
    Show { id: String },
    /// Delete a session.
    Delete { id: String },
    /// Server commands.
    Server { command: ServerCommands },
}

/// Server commands.
pub enum ServerCommands {
    /// Register a server; `tools` is a comma-separated list.
    Register { session_id: String, server_id: String, tools: String },
    /// List the servers of a session.
    List { session_id: String },
    /// Pending → Active.
    Activate { session_id: String, server_id: String },
    /// Active → Draining.
    Drain { session_id: String, server_id: String },
}

/// The pieces of `s` between commas (as `str::split(',')` gives them).
pub open spec fn split_commas(s: Seq<char>) -> Seq<Seq<char>>
    decreases s.len(),
{
    if s.len() == 0 {
        seq![seq![]]
    } else {
        let prev = split_commas(s.drop_last());
        if s.last() == ',' {
            prev.push(seq![])
        } else {
            prev.update(prev.len() - 1, prev.last().push(s.last()))
        }
    }
}

proof fn lemma_split_nonempty(s: Seq<char>)
    ensures
        split_commas(s).len() >= 1,
    decreases s.len(),
{
    if s.len() > 0 {
        lemma_split_nonempty(s.drop_last());
    }
}

/// The tools named by a comma-separated list, each trimmed; none for an
/// empty list.
pub open spec fn tool_names(s: Seq<char>) -> Seq<Seq<char>> {
    if s.len() == 0 {
        seq![]
    } else {
        split_commas(s).map_values(|p: Seq<char>| trim(p))
    }
}

/// Reads a `--tools` value: empty gives no tools; otherwise the pieces
/// between commas, trimmed.
pub fn parse_tools(tools: &str) -> (r: Vec<String>)
    ensures
        r@.map_values(|t: String| t@) == tool_names(tools@),
{
    let s = chars_of(tools);
    let mut out: Vec<String> = Vec::new();
    if s.len() == 0 {
        assert(out@.map_values(|t: String| t@) =~= tool_names(tools@));
        return out;
    }
    let mut start: usize = 0;
    let mut i: usize = 0;
    while i < s.len()
        invariant
            start <= i <= s.len(),
            s@ == tools@,
            ({
                let parts = split_commas(s@.subrange(0, i as int));
                &&& parts.len() == out@.len() + 1
                &&& forall|j: int| 0 <= j < out@.len() ==> #[trigger] out@[j]@ == trim(parts[j])
                &&& parts.last() == s@.subrange(start as int, i as int)
            }),
        decreases s.len() - i,
    {
        let ghost parts = split_commas(s@.subrange(0, i as int));
        proof {
            lemma_split_nonempty(s@.subrange(0, i as int));
            assert(s@.subrange(0, i + 1).drop_last() =~= s@.subrange(0, i as int));
            assert(s@.subrange(0, i + 1).last() == s@[i as int]);
        }
        if s[i] == ',' {
            let (a, b) = trim_bounds(&s, start, i);
            out.push(string_of(&slice(&s, a, b)));
            start = i + 1;
            assert(s@.subrange(start as int, i + 1) =~= Seq::<char>::empty());
        } else {
            assert(s@.subrange(start as int, i + 1) =~= s@.subrange(start as int, i as int).push(
                s@[i as int],
            ));
        }
        i = i + 1;
    }
    let (a, b) = trim_bounds(&s, start, s.len());
    out.push(string_of(&slice(&s, a, b)));
    proof {
        assert(s@.subrange(0, s@.len() as int) =~= s@);
        let parts = split_commas(s@);
        assert(out@.map_values(|t: String| t@) =~= parts.map_values(|p: Seq<char>| trim(p)));
    }
    out
}

/// How a server's tools are shown: `none`, or the names joined by `, `.
pub open spec fn tools_display(tools: Seq<Seq<char>>) -> Seq<char> {
    if tools.len() == 0 {
        "none"@
    } else {
        join(tools, seq![',', ' '])
    }
}

/// The text shown for a server's tools.
pub fn tools_text(tools: &Vec<String>) -> (r: String)
    ensures
        r@ == tools_display(views(tools@)),
{
    if tools.len() == 0 {
        return crate::text::string_from("none");
    }
    let mut parts: Vec<Vec<char>> = Vec::new();
    let mut i: usize = 0;
    while i < tools.len()
        invariant
            i <= tools.len(),
            parts@.len() == i,
            forall|j: int| 0 <= j < i ==> #[trigger] parts@[j]@ == tools@[j]@,
        decreases tools.len() - i,
    {
        parts.push(chars_of(tools[i].as_str()));
        i = i + 1;
    }
    assert(parts@.map_values(|p: Vec<char>| p@) =~= views(tools@));
    let sep: Vec<char> = vec![',', ' '];
    assert(sep@ =~= seq![',', ' ']);
    string_of(&join_chars(&parts, &sep))
}

/// Reads a session id argument: the UUID the text names, or `Invalid UUID`.
pub fn parse_session_arg(text: &str) -> (r: Result<SessionId, String>)
    ensures
        match r {
            Ok(id) => crate::sea::cli::uuid_parse(text@) == Some(id),
            Err(m) => crate::sea::cli::uuid_parse(text@) is None && m@ == "Invalid UUID"@,
        },
{
    match crate::sea::cli::parse_uuid(text) {
        Some(id) => Ok(id),
        None => Err(crate::text::string_from("Invalid UUID")),
    }
}

/// Every tool name read from a `--tools` list carries no surrounding
/// whitespace: trimming it again changes nothing, so no route is made for a
/// name with a stray space.
pub proof fn law_tool_names_trimmed(s: Seq<char>, i: int)
    requires
        0 <= i < tool_names(s).len(),
    ensures
        trim(tool_names(s)[i]) == tool_names(s)[i],
        tool_names(s)[i].len() > 0 ==> !crate::text::is_ws(tool_names(s)[i][0])
            && !crate::text::is_ws(tool_names(s)[i].last()),
{
    let p = split_commas(s)[i];
    assert(tool_names(s)[i] == trim(p));
    lemma_trim_idempotent(p);
    crate::text::lemma_trim_ends(p);
}

/// The text shown for a server's tools names every tool: each occurs in it,
/// a single tool shows as itself, and two or more are separated by `, `.
pub proof fn law_tools_display_names_every_tool(tools: Seq<Seq<char>>, i: int)
    requires
        0 <= i < tools.len(),
    ensures
        has_substring(tools_display(tools), tools[i]),
        tools.len() == 1 ==> tools_display(tools) == tools[0],
        tools.len() >= 2 ==> tools_display(tools) == tools_display(tools.drop_last()) + ", "@ + tools.last(),
{
    lemma_join_contains(tools, seq![',', ' '], i);
    if tools.len() >= 2 {
        assert(seq![',', ' '] == ", "@) by {
            reveal_strlit(", ");
        }
    }
}

} // verus!
