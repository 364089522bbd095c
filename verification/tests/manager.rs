//! The client manager: registration, subscription and fan-out, exercised on
//! the in-memory registry.

use morpheus::manager::ClientManager;
use morpheus::msg::ServerMessage;
use morpheus::storage::InMemoryStorage;
use uuid::Uuid;

fn create_manager() -> ClientManager<InMemoryStorage> {
    ClientManager::new(InMemoryStorage::new())
}

#[test]
fn test_remove_client() {
    let mut manager = create_manager();
    let client_id = manager.add_test_client();
    let topic = "general".to_string();
    manager.subscribe_client_to_topic(&client_id, topic.clone());

    assert_eq!(manager.get_all_clients().len(), 1);
    assert_eq!(manager.get_clients_by_topic(&topic).len(), 1);

    manager.remove_client(&client_id);

    assert!(manager.get_all_clients().is_empty());
    assert!(manager.get_clients_by_topic(&topic).is_empty());
}

#[test]
fn test_send_private_message() {
    let mut manager = create_manager();
    let client_id = manager.add_test_client();

    let msg = ServerMessage::Private {
        id: Uuid::new_v4().as_u128(),
        content: "Hello".to_string(),
    };

    manager.send_private_message(client_id, msg.duplicate());

    let queued = manager.queued_messages(&client_id);
    assert_eq!(queued.len(), 1);
    assert_eq!(queued[0], msg);
}

#[test]
fn test_broadcast_global() {
    let mut manager = create_manager();
    let client1_id = manager.add_test_client();
    let client2_id = manager.add_test_client();

    let msg = ServerMessage::Global {
        id: Uuid::new_v4().as_u128(),
        content: "Global message".to_string(),
    };

    manager.broadcast_global(msg.duplicate());

    let received1 = manager.queued_messages(&client1_id);
    let received2 = manager.queued_messages(&client2_id);

    assert_eq!(received1.len(), 1);
    assert_eq!(received1[0], msg);
    assert_eq!(received2.len(), 1);
    assert_eq!(received2[0], msg);
}

#[test]
fn test_broadcast_to_topic() {
    let mut manager = create_manager();
    let topic1 = "topic1".to_string();
    let topic2 = "topic2".to_string();

    let client1_id = manager.add_test_client();
    manager.subscribe_client_to_topic(&client1_id, topic1.clone());

    let client2_id = manager.add_test_client();
    manager.subscribe_client_to_topic(&client2_id, topic1.clone());

    let client3_id = manager.add_test_client();
    manager.subscribe_client_to_topic(&client3_id, topic2.clone());

    let msg = ServerMessage::Topic {
        id: Uuid::new_v4().as_u128(),
        topic: topic1.clone(),
        sender: "Morpheus".to_string(),
        content: "A message for topic1".to_string(),
    };

    manager.broadcast_to_topic(&topic1, msg.duplicate(), None);

    assert!(!manager.queued_messages(&client1_id).is_empty());
    assert!(!manager.queued_messages(&client2_id).is_empty());
    assert!(manager.queued_messages(&client3_id).is_empty());
}

#[test]
fn test_broadcast_to_topic_with_exclusion() {
    let mut manager = create_manager();
    let topic1 = "topic1".to_string();

    let client1_id = manager.add_test_client();
    manager.subscribe_client_to_topic(&client1_id, topic1.clone());

    let client2_id = manager.add_test_client();
    manager.subscribe_client_to_topic(&client2_id, topic1.clone());

    let msg = ServerMessage::Topic {
        id: Uuid::new_v4().as_u128(),
        topic: topic1.clone(),
        sender: Uuid::from_u128(client1_id).to_string(),
        content: "A message from client1".to_string(),
    };

    manager.broadcast_to_topic(&topic1, msg.duplicate(), Some(client1_id));

    assert!(manager.queued_messages(&client1_id).is_empty());
    assert!(!manager.queued_messages(&client2_id).is_empty());
}

#[test]
fn test_registration_lifecycle() {
    let mut manager = create_manager();
    let id = manager.add_client();

    let all = manager.get_all_clients();
    assert_eq!(all.len(), 1);
    assert_eq!(all[0].id, id);
    assert_eq!(all[0].topic, None);

    manager.remove_client(&id);
    assert!(manager.get_all_clients().is_empty());

    // removing twice, or an unknown id, is a no-op
    manager.remove_client(&id);
    assert!(manager.get_all_clients().is_empty());
}

#[test]
fn test_resubscribe_moves_client() {
    let mut manager = create_manager();
    let id = manager.add_test_client();
    manager.subscribe_client_to_topic(&id, "A".to_string());
    manager.subscribe_client_to_topic(&id, "B".to_string());

    let in_a = manager.get_clients_by_topic("A");
    assert!(in_a.iter().all(|c| c.id != id));
    let in_b = manager.get_clients_by_topic("B");
    assert!(in_b.iter().any(|c| c.id == id));
}

#[test]
fn test_topics_never_lists_empty_sets() {
    let mut manager = create_manager();
    let id = manager.add_test_client();
    manager.subscribe_client_to_topic(&id, "dogs".to_string());
    assert_eq!(manager.get_all_topics(), vec!["dogs".to_string()]);

    // the last subscriber moves away: the entry may persist, but readers
    // never see an empty topic
    manager.subscribe_client_to_topic(&id, "cats".to_string());
    assert_eq!(manager.get_all_topics(), vec!["cats".to_string()]);
}

#[test]
fn test_send_private_to_unknown_id_is_silent() {
    let mut manager = create_manager();
    let known = manager.add_test_client();
    let unknown = Uuid::new_v4().as_u128();

    let msg = ServerMessage::Private {
        id: Uuid::new_v4().as_u128(),
        content: "secret".to_string(),
    };
    manager.send_private_message(unknown, msg);

    assert!(manager.queued_messages(&known).is_empty());
    assert!(manager.queued_messages(&unknown).is_empty());
    assert_eq!(manager.get_all_clients().len(), 1);
}

#[test]
fn test_next_outgoing_in_enqueue_order() {
    let mut manager = create_manager();
    let id = manager.add_test_client();

    let first = ServerMessage::Private { id: 1, content: "first".to_string() };
    let second = ServerMessage::Private { id: 2, content: "second".to_string() };
    manager.send_private_message(id, first.duplicate());
    manager.send_private_message(id, second.duplicate());

    assert_eq!(manager.next_outgoing(&id), Some(first));
    assert_eq!(manager.next_outgoing(&id), Some(second));
    assert_eq!(manager.next_outgoing(&id), None);
}

#[test]
fn test_acknowledgment_changes_no_routing_state() {
    let mut manager = create_manager();
    let id = manager.add_test_client();
    manager.subscribe_client_to_topic(&id, "general".to_string());

    manager.handle_message_acknowledgment(id, Uuid::new_v4().as_u128());

    assert_eq!(manager.get_all_clients().len(), 1);
    assert_eq!(manager.get_clients_by_topic("general").len(), 1);
    assert!(manager.queued_messages(&id).is_empty());
}
