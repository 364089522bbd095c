//! The connected user's console parser, on the original console inputs.

use morpheus::user_commands::{parse_command, Command};
use uuid::Uuid;

#[test]
fn test_parse_message() {
    let input = "Hello, world!";
    assert_eq!(parse_command(input), Command::Message("Hello, world!".to_string()));
}

#[test]
fn test_parse_msg_command() {
    let input = "/msg Hello, world!";
    assert_eq!(parse_command(input), Command::Message("Hello, world!".to_string()));
    let input_short = "/m Hello there";
    assert_eq!(parse_command(input_short), Command::Message("Hello there".to_string()));
}

#[test]
fn test_parse_reply_command() {
    let msg_id = Uuid::new_v4();
    let input = format!("/reply {} This is a reply.", msg_id);
    assert_eq!(
        parse_command(&input),
        Command::Reply { msg_id: msg_id.as_u128(), content: "This is a reply.".to_string() }
    );
}

#[test]
fn test_parse_reply_command_short() {
    let msg_id = Uuid::new_v4();
    let input = format!("/r {} This is a reply.", msg_id);
    assert_eq!(
        parse_command(&input),
        Command::Reply { msg_id: msg_id.as_u128(), content: "This is a reply.".to_string() }
    );
}

#[test]
fn test_parse_help_command() {
    assert_eq!(parse_command("/help"), Command::Help);
    assert_eq!(parse_command("/h"), Command::Help);
}

#[test]
fn test_parse_unknown_command() {
    let input = "/foo bar";
    assert_eq!(
        parse_command(input),
        Command::Unknown("Unknown command: /foo".to_string())
    );
}

#[test]
fn test_parse_reply_invalid_uuid() {
    let input = "/reply invalid-uuid Test";
    assert_eq!(
        parse_command(input),
        Command::Unknown("Invalid message ID for reply: invalid-uuid".to_string())
    );
}

#[test]
fn test_parse_reply_no_content() {
    let msg_id = Uuid::new_v4();
    let input = format!("/reply {}", msg_id);
    assert_eq!(
        parse_command(&input),
        Command::Unknown(
            "Reply content cannot be empty. Usage: /reply <msg_id> <content>".to_string()
        )
    );
}

#[test]
fn test_parse_empty_msg_command() {
    assert_eq!(
        parse_command("/msg"),
        Command::Unknown("Message content cannot be empty.".to_string())
    );
}

#[test]
fn test_parse_plain_text_keeps_spacing() {
    assert_eq!(
        parse_command("  one two  three "),
        Command::Message("one two  three".to_string())
    );
}
