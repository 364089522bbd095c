//! The operator console parser, on the original console inputs.

use morpheus::admin_commands::{parse_command, Command, ListScope};
use uuid::Uuid;

#[test]
fn test_parse_help() {
    assert_eq!(parse_command("/help"), Command::Help);
    assert_eq!(parse_command("/h"), Command::Help);
}

#[test]
fn test_parse_exit() {
    assert_eq!(parse_command("/exit"), Command::Exit);
    assert_eq!(parse_command("/e"), Command::Exit);
}

#[test]
fn test_parse_list() {
    assert_eq!(parse_command("/list"), Command::List(ListScope::All));
    assert_eq!(parse_command("/l"), Command::List(ListScope::All));
    assert_eq!(parse_command("/list all"), Command::List(ListScope::All));
    assert_eq!(parse_command("/l all"), Command::List(ListScope::All));
    assert_eq!(parse_command("/list topics"), Command::List(ListScope::Topics));
    assert_eq!(parse_command("/l topics"), Command::List(ListScope::Topics));
    assert_eq!(
        parse_command("/list general"),
        Command::List(ListScope::Topic("general".to_string()))
    );
    assert_eq!(
        parse_command("/l general"),
        Command::List(ListScope::Topic("general".to_string()))
    );
}

#[test]
fn test_parse_global() {
    assert_eq!(
        parse_command("/global Hello world"),
        Command::Global("Hello world".to_string())
    );
    assert_eq!(
        parse_command("/g Hello world"),
        Command::Global("Hello world".to_string())
    );
    assert_eq!(
        parse_command("/global"),
        Command::Unknown("Global message content cannot be empty.".to_string())
    );
}

#[test]
fn test_parse_topic() {
    assert_eq!(
        parse_command("/topic general Hello"),
        Command::Topic { topic: "general".to_string(), content: "Hello".to_string() }
    );
    assert_eq!(
        parse_command("/t general Hello there"),
        Command::Topic { topic: "general".to_string(), content: "Hello there".to_string() }
    );
    assert_eq!(
        parse_command("/topic general"),
        Command::Unknown("Usage: /topic <topic_name> <content>".to_string())
    );
}

#[test]
fn test_parse_private() {
    let client_id = Uuid::new_v4();
    let input = format!("/private {} Hello", client_id);
    assert_eq!(
        parse_command(&input),
        Command::Private { client_id: client_id.as_u128(), content: "Hello".to_string() }
    );

    let input_short = format!("/p {} Hello there", client_id);
    assert_eq!(
        parse_command(&input_short),
        Command::Private { client_id: client_id.as_u128(), content: "Hello there".to_string() }
    );

    assert_eq!(
        parse_command("/private foo"),
        Command::Unknown("Usage: /private <client_id> <content>".to_string())
    );

    assert_eq!(
        parse_command("/private 12345 Hello"),
        Command::Unknown("Invalid client ID: 12345".to_string())
    );
}

#[test]
fn test_parse_empty() {
    assert_eq!(parse_command(""), Command::Unknown("".to_string()));
    assert_eq!(parse_command(" "), Command::Unknown("".to_string()));
}

#[test]
fn test_parse_uppercase_command() {
    assert_eq!(parse_command("/HELP"), Command::Help);
    assert_eq!(parse_command("/List topics"), Command::List(ListScope::Topics));
}

#[test]
fn test_parse_unknown_admin_command() {
    assert_eq!(
        parse_command("/Frobnicate now"),
        Command::Unknown("Unknown command: /frobnicate".to_string())
    );
}

#[test]
fn test_parse_trims_whitespace() {
    assert_eq!(
        parse_command("  /global hi there \n"),
        Command::Global("hi there".to_string())
    );
}
