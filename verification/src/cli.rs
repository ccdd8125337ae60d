//! The interactive menu of the agent program: which action a menu choice
//! stands for, and what a line typed in a conversation asks for.
use crate::text::{str_eq, trim, trim_str};
use vstd::prelude::*;

verus! {

/// The main menu's entries, in menu order.
#[derive(Debug, Clone, Copy, PartialEq, Eq, Structural)]
pub enum MainAction {
    Chat,
    SessionManage,
    AgentDefinitionManage,
    Config,
    ViewLogs,
    Help,
    Exit,
}

/// The action of menu entry `selection`; anything past the menu exits.
pub open spec fn main_action_spec(selection: int) -> MainAction {
    if selection == 0 {
        MainAction::Chat
    } else if selection == 1 {
        MainAction::SessionManage
    } else if selection == 2 {
        MainAction::AgentDefinitionManage
    } else if selection == 3 {
        MainAction::Config
    } else if selection == 4 {
        MainAction::ViewLogs
    } else if selection == 5 {
        MainAction::Help
    } else {
        MainAction::Exit
    }
}

/// The action of menu entry `selection`.
pub fn main_action_of(selection: usize) -> (a: MainAction)
    ensures
        a == main_action_spec(selection as int),
{
    match selection {
        0 => MainAction::Chat,
        1 => MainAction::SessionManage,
        2 => MainAction::AgentDefinitionManage,
        3 => MainAction::Config,
        4 => MainAction::ViewLogs,
        5 => MainAction::Help,
        _ => MainAction::Exit,
    }
}

/// What a line typed in a conversation asks for.
#[derive(Debug, Clone, Copy, PartialEq, Eq, Structural)]
pub enum ChatCommand {
    /// `quit` or `exit`.
    Quit,
    /// `save`: write the session to disk.
    Save,
    /// `clear`: empty the session's history.
    Clear,
    /// A blank line.
    Skip,
    /// Anything else: a message for the agent.
    Send,
}

/// The command of a line, judged by its trimmed text.
pub open spec fn chat_command_spec(input: Seq<char>) -> ChatCommand {
    let t = trim(input);
    if t == "quit"@ || t == "exit"@ {
        ChatCommand::Quit
    } else if t == "save"@ {
        ChatCommand::Save
    } else if t == "clear"@ {
        ChatCommand::Clear
    } else if t.len() == 0 {
        ChatCommand::Skip
    } else {
        ChatCommand::Send
    }
}

/// The command of `input`.
pub fn chat_command(input: &str) -> (c: ChatCommand)
    ensures
        c == chat_command_spec(input@),
{
    let t = trim_str(input);
    let s = t.as_str();
    if str_eq(s, "quit") || str_eq(s, "exit") {
        ChatCommand::Quit
    } else if str_eq(s, "save") {
        ChatCommand::Save
    } else if str_eq(s, "clear") {
        ChatCommand::Clear
    } else if str_eq(s, "") {
        proof {
            reveal_strlit("");
        }
        ChatCommand::Skip
    } else {
        proof {
            reveal_strlit("");
            assert(t@.len() != 0) by {
                if t@.len() == 0 {
                    assert(t@ =~= ""@);
                }
            }
        }
        ChatCommand::Send
    }
}

} // verus!
