use arachne_ws::connection_manager::ConnectionManager;
use arachne_ws::WebSocketMessage;

#[test]
fn fresh_manager_is_empty() {
    let manager = ConnectionManager::new();
    assert_eq!(manager.connection_count(), 0);
    assert!(!manager.at_capacity());
}

#[test]
fn add_assigns_distinct_ids() {
    let mut manager = ConnectionManager::new();
    let a = manager.add_connection();
    let b = manager.add_connection();
    let c = manager.add_connection();
    assert_eq!(manager.connection_count(), 3);
    assert_ne!(a, b);
    assert_ne!(a, c);
    assert_ne!(b, c);
}

#[test]
fn closed_flag_is_monotonic() {
    let mut manager = ConnectionManager::new();
    let id = manager.add_connection();
    assert!(!manager.is_closed(id));
    manager.mark_closed(id);
    assert!(manager.is_closed(id));
    manager.mark_closed(id);
    assert!(manager.is_closed(id));
}

#[test]
fn unknown_ids_count_as_closed() {
    let mut manager = ConnectionManager::new();
    let id = manager.add_connection();
    assert!(manager.is_closed(id + 1));
}

#[test]
fn marking_one_connection_leaves_the_others_open() {
    let mut manager = ConnectionManager::new();
    let a = manager.add_connection();
    let b = manager.add_connection();
    manager.mark_closed(a);
    assert!(manager.is_closed(a));
    assert!(!manager.is_closed(b));
}

#[test]
fn cleanup_removes_exactly_the_closed() {
    let mut manager = ConnectionManager::new();
    let a = manager.add_connection();
    let b = manager.add_connection();
    let c = manager.add_connection();
    manager.mark_closed(b);
    manager.cleanup_closed_connections();
    assert_eq!(manager.connection_count(), 2);
    assert!(!manager.is_closed(a));
    assert!(manager.is_closed(b));
    assert!(!manager.is_closed(c));
}

#[test]
fn broadcast_to_two_peers() {
    let mut manager = ConnectionManager::new();
    let a = manager.add_connection();
    let b = manager.add_connection();
    let (recipients, bytes) = manager.broadcast_message(&WebSocketMessage::Text("hi".to_string()));
    assert_eq!(recipients, vec![a, b]);
    assert_eq!(bytes, vec![0x81, 0x02, 0x68, 0x69]);
}

#[test]
fn broadcast_covers_every_member_exactly_once() {
    let mut manager = ConnectionManager::new();
    let mut ids = Vec::new();
    for _ in 0..5 {
        ids.push(manager.add_connection());
    }
    let (recipients, _) = manager.broadcast_message(&WebSocketMessage::Ping(Vec::new()));
    assert_eq!(recipients.len(), 5);
    for id in &ids {
        assert_eq!(recipients.iter().filter(|r| *r == id).count(), 1);
    }
}

#[test]
fn broadcast_still_reaches_closed_members_until_cleanup() {
    let mut manager = ConnectionManager::new();
    let a = manager.add_connection();
    let b = manager.add_connection();
    manager.mark_closed(a);
    let (recipients, _) = manager.broadcast_message(&WebSocketMessage::Close);
    assert_eq!(recipients, vec![a, b]);
    manager.cleanup_closed_connections();
    let (recipients, _) = manager.broadcast_message(&WebSocketMessage::Close);
    assert_eq!(recipients, vec![b]);
}

#[test]
fn broadcast_bytes_are_the_serialized_message() {
    let manager = ConnectionManager::new();
    let (recipients, bytes) =
        manager.broadcast_message(&WebSocketMessage::Binary(vec![0xde, 0xad]));
    assert!(recipients.is_empty());
    assert_eq!(bytes, vec![0x82, 0x02, 0xde, 0xad]);
}
