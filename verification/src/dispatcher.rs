//! The protocol dispatcher: the bridge from one connection's inbound
//! messages to the hub's operations.
//!
//! Each connection keeps a small subscription state; a decoded message moves
//! that state and drives exactly one hub operation. An undecodable payload
//! changes no state and earns the sender a private error message; posting
//! into a topic is fanned out to the topic's other subscribers with the
//! poster excluded, tagged with a fresh message id and the poster's
//! identifier as sender.

use vstd::prelude::*;
use crate::ids::{fresh_uuid, uuid_string, uuid_text};
use crate::manager::ClientManager;
use crate::model::HubModel;
use crate::msg::{ClientId, ClientMessage, ClientMessageView, MsgId, ServerMessage, ServerMessageView};
use crate::storage::Storage;

verus! {

/// One connection's subscription state. A connection starts unsubscribed
/// and becomes subscribed with its first `Connect`; a later `Connect` moves
/// it to the new topic.
pub enum ConnState {
    Unsubscribed,
    Subscribed(String),
}

/// The mathematical form of a `ConnState`.
pub enum ConnStateView {
    Unsubscribed,
    Subscribed(Seq<char>),
}

impl View for ConnState {
    type V = ConnStateView;

    open spec fn view(&self) -> ConnStateView {
        match self {
            ConnState::Unsubscribed => ConnStateView::Unsubscribed,
            ConnState::Subscribed(t) => ConnStateView::Subscribed(t@),
        }
    }
}

/// The view of a possibly undecodable inbound payload.
pub open spec fn decoded_view(d: Option<ClientMessage>) -> Option<ClientMessageView> {
    match d {
        Some(m) => Some(m@),
        None => None,
    }
}

/// What one inbound event does to the hub and to the connection state,
/// given the fresh identifier used for any message the hub creates.
/// `None` stands for an undecodable payload. A post is broadcast into the
/// topic named by the payload — which the permissive protocol does not
/// require to be the connection's own — with the sender excluded.
pub open spec fn dispatch_spec(
    h: HubModel,
    st: ConnStateView,
    client_id: ClientId,
    decoded: Option<ClientMessageView>,
    mid: MsgId,
) -> (HubModel, ConnStateView) {
    match decoded {
        None => (
            h.send_private(
                client_id,
                ServerMessageView::Error { message: "Invalid message format"@ },
            ),
            st,
        ),
        Some(m) => match m {
            ClientMessageView::Connect { topic } => (
                h.subscribe(client_id, topic),
                ConnStateView::Subscribed(topic),
            ),
            ClientMessageView::Message { topic, content } => (
                h.broadcast_topic(
                    topic,
                    ServerMessageView::Topic {
                        id: mid,
                        topic,
                        sender: uuid_text(client_id),
                        content,
                    },
                    Some(client_id),
                ),
                st,
            ),
            ClientMessageView::ReplyToMorpheus { .. } => (h, st),
            ClientMessageView::MessageReceived { msg_id } => (
                h.acknowledge(client_id, msg_id),
                st,
            ),
        },
    }
}

/// Applies one inbound event from a connection: decoding is the caller's
/// business, the routing decision happens here. The fresh identifier of a
/// created message is drawn inside, so the outcome is pinned up to it.
pub fn handle_message<S: Storage>(
    manager: &mut ClientManager<S>,
    state: &mut ConnState,
    client_id: ClientId,
    decoded: Option<ClientMessage>,
)
    requires
        old(manager).inv(),
    ensures
        final(manager).inv(),
        exists|mid: MsgId|
            (final(manager).model(), final(state)@) == #[trigger] dispatch_spec(
                old(manager).model(),
                old(state)@,
                client_id,
                decoded_view(decoded),
                mid,
            ),
{
    let ghost d0 = decoded_view(decoded);
    match decoded {
        None => {
            manager.send_private_message(
                client_id,
                ServerMessage::Error { message: ("Invalid message format").to_owned() },
            );
            proof {
                assert((final(manager).model(), final(state)@) == dispatch_spec(
                    old(manager).model(),
                    old(state)@,
                    client_id,
                    d0,
                    0,
                ));
            }
        },
        Some(ClientMessage::Connect { topic }) => {
            let ghost tv = topic@;
            *state = ConnState::Subscribed(topic.clone());
            manager.subscribe_client_to_topic(&client_id, topic);
            proof {
                assert(d0 == Some(ClientMessageView::Connect { topic: tv }));
                assert((final(manager).model(), final(state)@) == dispatch_spec(
                    old(manager).model(),
                    old(state)@,
                    client_id,
                    d0,
                    0,
                ));
            }
        },
        Some(ClientMessage::Message { topic, content }) => {
            let ghost tv = topic@;
            let ghost cv = content@;
            let mid = fresh_uuid();
            let sender = uuid_string(client_id);
            let message = ServerMessage::Topic { id: mid, topic: topic.clone(), sender, content };
            proof {
                assert(message@ == (ServerMessageView::Topic {
                    id: mid,
                    topic: tv,
                    sender: uuid_text(client_id),
                    content: cv,
                }));
            }
            manager.broadcast_to_topic(topic.as_str(), message, Some(client_id));
            proof {
                assert(d0 == Some(ClientMessageView::Message { topic: tv, content: cv }));
                assert((final(manager).model(), final(state)@) == dispatch_spec(
                    old(manager).model(),
                    old(state)@,
                    client_id,
                    d0,
                    mid,
                ));
            }
        },
        Some(ClientMessage::ReplyToMorpheus { original_msg_id: _, content: _ }) => {
            proof {
                assert((final(manager).model(), final(state)@) == dispatch_spec(
                    old(manager).model(),
                    old(state)@,
                    client_id,
                    d0,
                    0,
                ));
            }
        },
        Some(ClientMessage::MessageReceived { msg_id }) => {
            manager.handle_message_acknowledgment(client_id, msg_id);
            proof {
                assert((final(manager).model(), final(state)@) == dispatch_spec(
                    old(manager).model(),
                    old(state)@,
                    client_id,
                    d0,
                    0,
                ));
            }
        },
    }
}

} // verus!
