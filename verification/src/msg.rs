//! The wire-level message vocabulary of the hub.
//!
//! `ClientMessage` is what a client sends to the hub; `ServerMessage` is what
//! the hub sends to a client. Each deliverable server message carries a fresh
//! identifier that clients echo back in acknowledgments.

use vstd::prelude::*;

verus! {

/// An identifier for one connected client session: the 128-bit value of the
/// UUID that names the session on the wire.
pub type ClientId = u128;

/// An identifier for one deliverable message, also a 128-bit UUID value.
pub type MsgId = u128;

/// A message from a client to the hub.
#[derive(Debug)]
pub enum ClientMessage {
    /// Subscribe this connection to a topic.
    Connect { topic: String },
    /// Post into a topic.
    Message { topic: String, content: String },
    /// A private reply to a message from the hub operator.
    ReplyToMorpheus { original_msg_id: MsgId, content: String },
    /// Acknowledge receipt of a delivered message.
    MessageReceived { msg_id: MsgId },
}

/// A message from the hub to a client.
#[derive(Debug)]
pub enum ServerMessage {
    /// A broadcast to every connected client.
    Global { id: MsgId, content: String },
    /// A broadcast to the subscribers of one topic.
    Topic { id: MsgId, topic: String, sender: String, content: String },
    /// A message to a single client.
    Private { id: MsgId, content: String },
    /// Confirmation that a message was delivered.
    MessageDelivered { msg_id: MsgId },
    /// Notice that a client acknowledged a message.
    MessageAcknowledged { msg_id: MsgId, client_id: ClientId },
    /// An error report to the offending client.
    Error { message: String },
}

/// The mathematical form of a `ClientMessage`: strings as character sequences.
pub enum ClientMessageView {
    Connect { topic: Seq<char> },
    Message { topic: Seq<char>, content: Seq<char> },
    ReplyToMorpheus { original_msg_id: MsgId, content: Seq<char> },
    MessageReceived { msg_id: MsgId },
}

/// The mathematical form of a `ServerMessage`: strings as character sequences.
pub enum ServerMessageView {
    Global { id: MsgId, content: Seq<char> },
    Topic { id: MsgId, topic: Seq<char>, sender: Seq<char>, content: Seq<char> },
    Private { id: MsgId, content: Seq<char> },
    MessageDelivered { msg_id: MsgId },
    MessageAcknowledged { msg_id: MsgId, client_id: ClientId },
    Error { message: Seq<char> },
}

impl View for ClientMessage {
    type V = ClientMessageView;

    open spec fn view(&self) -> ClientMessageView {
        match self {
            ClientMessage::Connect { topic } => ClientMessageView::Connect { topic: topic@ },
            ClientMessage::Message { topic, content } => ClientMessageView::Message {
                topic: topic@,
                content: content@,
            },
            ClientMessage::ReplyToMorpheus { original_msg_id, content } =>
                ClientMessageView::ReplyToMorpheus {
                original_msg_id: *original_msg_id,
                content: content@,
            },
            ClientMessage::MessageReceived { msg_id } => ClientMessageView::MessageReceived {
                msg_id: *msg_id,
            },
        }
    }
}

impl View for ServerMessage {
    type V = ServerMessageView;

    open spec fn view(&self) -> ServerMessageView {
        match self {
            ServerMessage::Global { id, content } => ServerMessageView::Global {
                id: *id,
                content: content@,
            },
            ServerMessage::Topic { id, topic, sender, content } => ServerMessageView::Topic {
                id: *id,
                topic: topic@,
                sender: sender@,
                content: content@,
            },
            ServerMessage::Private { id, content } => ServerMessageView::Private {
                id: *id,
                content: content@,
            },
            ServerMessage::MessageDelivered { msg_id } => ServerMessageView::MessageDelivered {
                msg_id: *msg_id,
            },
            ServerMessage::MessageAcknowledged { msg_id, client_id } =>
                ServerMessageView::MessageAcknowledged {
                msg_id: *msg_id,
                client_id: *client_id,
            },
            ServerMessage::Error { message } => ServerMessageView::Error { message: message@ },
        }
    }
}

impl ServerMessage {
    /// An exact copy, made when one message is fanned out to many queues.
    pub fn duplicate(&self) -> (r: ServerMessage)
        ensures
            r@ == self@,
    {
        match self {
            ServerMessage::Global { id, content } => ServerMessage::Global {
                id: *id,
                content: content.clone(),
            },
            ServerMessage::Topic { id, topic, sender, content } => ServerMessage::Topic {
                id: *id,
                topic: topic.clone(),
                sender: sender.clone(),
                content: content.clone(),
            },
            ServerMessage::Private { id, content } => ServerMessage::Private {
                id: *id,
                content: content.clone(),
            },
            ServerMessage::MessageDelivered { msg_id } => ServerMessage::MessageDelivered {
                msg_id: *msg_id,
            },
            ServerMessage::MessageAcknowledged { msg_id, client_id } =>
                ServerMessage::MessageAcknowledged {
                msg_id: *msg_id,
                client_id: *client_id,
            },
            ServerMessage::Error { message } => ServerMessage::Error {
                message: message.clone(),
            },
        }
    }
}

impl PartialEq for ServerMessage {
    fn eq(&self, other: &ServerMessage) -> (r: bool) {
        match (self, other) {
            (
                ServerMessage::Global { id: a, content: b },
                ServerMessage::Global { id: c, content: d },
            ) => *a == *c && b.eq(d),
            (
                ServerMessage::Topic { id: a, topic: b, sender: c, content: d },
                ServerMessage::Topic { id: e, topic: f, sender: g, content: h },
            ) => *a == *e && b.eq(f) && c.eq(g) && d.eq(h),
            (
                ServerMessage::Private { id: a, content: b },
                ServerMessage::Private { id: c, content: d },
            ) => *a == *c && b.eq(d),
            (
                ServerMessage::MessageDelivered { msg_id: a },
                ServerMessage::MessageDelivered { msg_id: b },
            ) => *a == *b,
            (
                ServerMessage::MessageAcknowledged { msg_id: a, client_id: b },
                ServerMessage::MessageAcknowledged { msg_id: c, client_id: d },
            ) => *a == *c && *b == *d,
            (
                ServerMessage::Error { message: a },
                ServerMessage::Error { message: b },
            ) => a.eq(b),
            _ => false,
        }
    }
}

impl vstd::std_specs::cmp::PartialEqSpecImpl for ServerMessage {
    open spec fn obeys_eq_spec() -> bool {
        true
    }

    open spec fn eq_spec(&self, other: &ServerMessage) -> bool {
        self@ == other@
    }
}

impl PartialEq for ClientMessage {
    fn eq(&self, other: &ClientMessage) -> (r: bool) {
        match (self, other) {
            (
                ClientMessage::Connect { topic: a },
                ClientMessage::Connect { topic: b },
            ) => a.eq(b),
            (
                ClientMessage::Message { topic: a, content: b },
                ClientMessage::Message { topic: c, content: d },
            ) => a.eq(c) && b.eq(d),
            (
                ClientMessage::ReplyToMorpheus { original_msg_id: a, content: b },
                ClientMessage::ReplyToMorpheus { original_msg_id: c, content: d },
            ) => *a == *c && b.eq(d),
            (
                ClientMessage::MessageReceived { msg_id: a },
                ClientMessage::MessageReceived { msg_id: b },
            ) => *a == *b,
            _ => false,
        }
    }
}

impl vstd::std_specs::cmp::PartialEqSpecImpl for ClientMessage {
    open spec fn obeys_eq_spec() -> bool {
        true
    }

    open spec fn eq_spec(&self, other: &ClientMessage) -> bool {
        self@ == other@
    }
}

} // verus!
