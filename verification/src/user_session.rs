//! The connected user's session decisions: what a line of console input
//! becomes, what a session opens with, and which delivered messages the
//! client acknowledges. The session's transport loop performs the actions.

use vstd::prelude::*;
use crate::msg::{ClientMessage, ClientMessageView, MsgId, ServerMessage, ServerMessageView};
use crate::user_commands::{parse_command, user_parse, Command, CommandView};

verus! {

/// What a line of user input asks the session to do.
#[derive(Debug)]
pub enum InputAction {
    /// Send this message to the hub.
    Send(ClientMessage),
    /// Show the help message.
    ShowHelp,
    /// Show an error message.
    ShowError(String),
}

/// The mathematical form of an `InputAction`.
pub enum InputActionView {
    Send(ClientMessageView),
    ShowHelp,
    ShowError(Seq<char>),
}

impl View for InputAction {
    type V = InputActionView;

    open spec fn view(&self) -> InputActionView {
        match self {
            InputAction::Send(m) => InputActionView::Send(m@),
            InputAction::ShowHelp => InputActionView::ShowHelp,
            InputAction::ShowError(e) => InputActionView::ShowError(e@),
        }
    }
}

impl PartialEq for InputAction {
    fn eq(&self, other: &InputAction) -> (r: bool) {
        match (self, other) {
            (InputAction::Send(a), InputAction::Send(b)) => a.eq(b),
            (InputAction::ShowHelp, InputAction::ShowHelp) => true,
            (InputAction::ShowError(a), InputAction::ShowError(b)) => a.eq(b),
            _ => false,
        }
    }
}

impl vstd::std_specs::cmp::PartialEqSpecImpl for InputAction {
    open spec fn obeys_eq_spec() -> bool {
        true
    }

    open spec fn eq_spec(&self, other: &InputAction) -> bool {
        self@ == other@
    }
}

/// What a line of input means for a session subscribed to `topic`: plain
/// text and `/msg` post into the session's own topic, `/reply` answers the
/// hub operator, and the rest is shown locally.
pub open spec fn input_action_spec(topic: Seq<char>, input: Seq<char>) -> InputActionView {
    match user_parse(input) {
        CommandView::Message(content) => InputActionView::Send(
            ClientMessageView::Message { topic, content },
        ),
        CommandView::Reply { msg_id, content } => InputActionView::Send(
            ClientMessageView::ReplyToMorpheus { original_msg_id: msg_id, content },
        ),
        CommandView::Help => InputActionView::ShowHelp,
        CommandView::Unknown(m) => InputActionView::ShowError(m),
    }
}

/// Decides what one line of user input asks the session to do.
pub fn handle_user_input(topic: &str, input: &str) -> (r: InputAction)
    ensures
        r@ == input_action_spec(topic@, input@),
{
    match parse_command(input) {
        Command::Message(content) => InputAction::Send(
            ClientMessage::Message { topic: topic.to_owned(), content },
        ),
        Command::Reply { msg_id, content } => InputAction::Send(
            ClientMessage::ReplyToMorpheus { original_msg_id: msg_id, content },
        ),
        Command::Help => InputAction::ShowHelp,
        Command::Unknown(m) => InputAction::ShowError(m),
    }
}

/// The subscription message that a session opens with.
pub fn connect_message(topic: &str) -> (r: ClientMessage)
    ensures
        r@ == (ClientMessageView::Connect { topic: topic@ }),
{
    ClientMessage::Connect { topic: topic.to_owned() }
}

/// Which delivered messages the client acknowledges: exactly the deliverable
/// content variants, by their id.
pub open spec fn ack_of(m: ServerMessageView) -> Option<MsgId> {
    match m {
        ServerMessageView::Global { id, .. } => Some(id),
        ServerMessageView::Topic { id, .. } => Some(id),
        ServerMessageView::Private { id, .. } => Some(id),
        _ => None,
    }
}

/// The id to acknowledge for one received message, if any.
pub fn ack_for(msg: &ServerMessage) -> (r: Option<MsgId>)
    ensures
        r == ack_of(msg@),
{
    match msg {
        ServerMessage::Global { id, .. } => Some(*id),
        ServerMessage::Topic { id, .. } => Some(*id),
        ServerMessage::Private { id, .. } => Some(*id),
        _ => None,
    }
}

} // verus!
