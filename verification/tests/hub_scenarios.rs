//! End-to-end routing scenarios: the dispatcher and the operator console
//! over a live manager.

use morpheus::dispatcher::{handle_message, ConnState};
use morpheus::manager::ClientManager;
use morpheus::msg::{ClientMessage, ServerMessage};
use morpheus::server::Server;
use morpheus::storage::InMemoryStorage;
use morpheus::user_session::{ack_for, connect_message, handle_user_input, InputAction};
use morpheus::admin_commands::ListScope;
use uuid::Uuid;

fn create_manager() -> ClientManager<InMemoryStorage> {
    ClientManager::new(InMemoryStorage::new())
}

#[test]
fn test_topic_post_reaches_other_subscriber_only() {
    let mut manager = create_manager();
    let c1 = manager.add_client();
    let c2 = manager.add_client();
    let mut st1 = ConnState::Unsubscribed;
    let mut st2 = ConnState::Unsubscribed;

    handle_message(
        &mut manager,
        &mut st1,
        c1,
        Some(ClientMessage::Connect { topic: "cats".to_string() }),
    );
    handle_message(
        &mut manager,
        &mut st2,
        c2,
        Some(ClientMessage::Connect { topic: "cats".to_string() }),
    );

    handle_message(
        &mut manager,
        &mut st1,
        c1,
        Some(ClientMessage::Message { topic: "cats".to_string(), content: "meow".to_string() }),
    );

    let q2 = manager.queued_messages(&c2);
    assert_eq!(q2.len(), 1);
    match &q2[0] {
        ServerMessage::Topic { topic, sender, content, .. } => {
            assert_eq!(topic, "cats");
            assert_eq!(content, "meow");
            assert_eq!(sender, &Uuid::from_u128(c1).to_string());
        },
        other => panic!("expected a topic message, got {:?}", other),
    }
    assert!(manager.queued_messages(&c1).is_empty());
}

#[test]
fn test_global_broadcast_same_id_everywhere() {
    let mut manager = create_manager();
    let c1 = manager.add_client();
    let c2 = manager.add_client();

    let mut server = Server::new(manager);
    let confirmation = server.handle_global_command("hi".to_string());
    assert_eq!(confirmation, "Global message sent: hi");

    let q1 = server.client_manager.queued_messages(&c1);
    let q2 = server.client_manager.queued_messages(&c2);
    assert_eq!(q1.len(), 1);
    assert_eq!(q2.len(), 1);
    assert_eq!(q1[0], q2[0]);
    match &q1[0] {
        ServerMessage::Global { content, .. } => assert_eq!(content, "hi"),
        other => panic!("expected a global message, got {:?}", other),
    }
}

#[test]
fn test_private_message_reaches_target_only() {
    let mut manager = create_manager();
    let x = manager.add_client();
    let y = manager.add_client();

    let msg = ServerMessage::Private {
        id: Uuid::new_v4().as_u128(),
        content: "secret".to_string(),
    };
    manager.send_private_message(x, msg.duplicate());

    let qx = manager.queued_messages(&x);
    assert_eq!(qx.len(), 1);
    assert_eq!(qx[0], msg);
    assert!(manager.queued_messages(&y).is_empty());
}

#[test]
fn test_removing_sole_subscriber_unlists_topic() {
    let mut manager = create_manager();
    let id = manager.add_client();
    manager.subscribe_client_to_topic(&id, "dogs".to_string());
    assert_eq!(manager.get_all_topics(), vec!["dogs".to_string()]);

    manager.remove_client(&id);
    assert!(manager.get_all_topics().is_empty());
}

#[test]
fn test_malformed_payload_earns_private_error() {
    let mut manager = create_manager();
    let c = manager.add_client();
    let mut st = ConnState::Unsubscribed;

    handle_message(&mut manager, &mut st, c, None);

    let q = manager.queued_messages(&c);
    assert_eq!(q.len(), 1);
    assert_eq!(
        q[0],
        ServerMessage::Error { message: "Invalid message format".to_string() }
    );
}

#[test]
fn test_reply_and_ack_route_nothing() {
    let mut manager = create_manager();
    let c = manager.add_client();
    let mut st = ConnState::Unsubscribed;

    handle_message(
        &mut manager,
        &mut st,
        c,
        Some(ClientMessage::ReplyToMorpheus {
            original_msg_id: Uuid::new_v4().as_u128(),
            content: "noted".to_string(),
        }),
    );
    handle_message(
        &mut manager,
        &mut st,
        c,
        Some(ClientMessage::MessageReceived { msg_id: Uuid::new_v4().as_u128() }),
    );

    assert!(manager.queued_messages(&c).is_empty());
    assert_eq!(manager.get_all_clients().len(), 1);
}

#[test]
fn test_list_command_lines() {
    let mut manager = create_manager();
    let id = manager.add_client();
    manager.subscribe_client_to_topic(&id, "general".to_string());
    let server = Server::new(manager);

    let all = server.handle_list_command(ListScope::All);
    assert_eq!(all, vec![format!("- {} (Topic: general)", Uuid::from_u128(id))]);

    let topics = server.handle_list_command(ListScope::Topics);
    assert_eq!(topics, vec!["- general".to_string()]);

    let members = server.handle_list_command(ListScope::Topic("general".to_string()));
    assert_eq!(members, vec![format!("- {}", Uuid::from_u128(id))]);

    let nobody = server.handle_list_command(ListScope::Topic("empty".to_string()));
    assert!(nobody.is_empty());
}

#[test]
fn test_topic_and_private_confirmations() {
    let mut manager = create_manager();
    let id = manager.add_client();
    manager.subscribe_client_to_topic(&id, "news".to_string());
    let mut server = Server::new(manager);

    let conf = server.handle_topic_command("news".to_string(), "flash".to_string());
    assert_eq!(conf, "Message sent to topic 'news': flash");
    let q = server.client_manager.queued_messages(&id);
    assert_eq!(q.len(), 1);
    match &q[0] {
        ServerMessage::Topic { topic, sender, content, .. } => {
            assert_eq!(topic, "news");
            assert_eq!(sender, "Morpheus");
            assert_eq!(content, "flash");
        },
        other => panic!("expected a topic message, got {:?}", other),
    }

    let conf2 = server.handle_private_command(id, "psst".to_string());
    let q2 = server.client_manager.queued_messages(&id);
    assert_eq!(q2.len(), 2);
    match &q2[1] {
        ServerMessage::Private { id: mid, content } => {
            assert_eq!(content, "psst");
            assert_eq!(
                conf2,
                format!(
                    "Private message (id: {}) sent to {}: psst",
                    Uuid::from_u128(*mid),
                    Uuid::from_u128(id)
                )
            );
        },
        other => panic!("expected a private message, got {:?}", other),
    }
}

#[test]
fn test_user_input_actions() {
    assert_eq!(
        handle_user_input("cats", "hello there"),
        InputAction::Send(ClientMessage::Message {
            topic: "cats".to_string(),
            content: "hello there".to_string(),
        })
    );
    let mid = Uuid::new_v4();
    assert_eq!(
        handle_user_input("cats", &format!("/reply {} ok", mid)),
        InputAction::Send(ClientMessage::ReplyToMorpheus {
            original_msg_id: mid.as_u128(),
            content: "ok".to_string(),
        })
    );
    assert_eq!(handle_user_input("cats", "/help"), InputAction::ShowHelp);
    assert_eq!(
        handle_user_input("cats", "/nope"),
        InputAction::ShowError("Unknown command: /nope".to_string())
    );
}

#[test]
fn test_connect_message_and_acks() {
    assert_eq!(
        connect_message("cats"),
        ClientMessage::Connect { topic: "cats".to_string() }
    );

    let deliverable = ServerMessage::Global { id: 7, content: "x".to_string() };
    assert_eq!(ack_for(&deliverable), Some(7));
    let system = ServerMessage::MessageDelivered { msg_id: 9 };
    assert_eq!(ack_for(&system), None);
    let error = ServerMessage::Error { message: "no".to_string() };
    assert_eq!(ack_for(&error), None);
}
