use self_evolving_agent::sessions::cli::parse_session_arg;
use self_evolving_agent::cli::{chat_command, main_action_of, ChatCommand, MainAction};

#[test]
fn cli_menu_entries() {
    assert_eq!(main_action_of(0), MainAction::Chat);
    assert_eq!(main_action_of(1), MainAction::SessionManage);
    assert_eq!(main_action_of(2), MainAction::AgentDefinitionManage);
    assert_eq!(main_action_of(3), MainAction::Config);
    assert_eq!(main_action_of(4), MainAction::ViewLogs);
    assert_eq!(main_action_of(5), MainAction::Help);
    assert_eq!(main_action_of(6), MainAction::Exit);
    assert_eq!(main_action_of(99), MainAction::Exit);
}

#[test]
fn cli_chat_commands() {
    assert_eq!(chat_command(" quit "), ChatCommand::Quit);
    assert_eq!(chat_command("exit"), ChatCommand::Quit);
    assert_eq!(chat_command("save"), ChatCommand::Save);
    assert_eq!(chat_command("clear\n"), ChatCommand::Clear);
    assert_eq!(chat_command("  \t "), ChatCommand::Skip);
    assert_eq!(chat_command("clear the table"), ChatCommand::Send);
}

#[test]
fn cli_session_id_arguments() {
    let ok = parse_session_arg("a1a2a3a4-b1b2-c1c2-d1d2-d3d4d5d6d7d8");
    assert_eq!(ok, Ok(0xa1a2a3a4b1b2c1c2d1d2d3d4d5d6d7d8));
    assert_eq!(parse_session_arg("not-a-uuid"), Err("Invalid UUID".to_string()));
}
