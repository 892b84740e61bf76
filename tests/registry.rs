use peerey::codec::ChatMessage;
use peerey::registry::ChatServer;

fn msg(body: &[u8]) -> ChatMessage {
    ChatMessage::new(b"a".to_vec(), body.to_vec()).unwrap()
}

#[test]
fn broadcast_reaches_each_live_session_once_with_sender() {
    let mut g = ChatServer::new();
    g.join(1);
    g.join(2);
    g.join(3);
    let d = g.broadcast(&msg(b"m"));
    let ids: Vec<u64> = d.iter().map(|p| p.0).collect();
    assert_eq!(ids, vec![1, 2, 3]);
    for (_, m) in d.iter() {
        assert_eq!(m.body, b"m".to_vec());
        assert_eq!(m.name, b"a".to_vec());
    }
}

#[test]
fn left_session_not_reached_and_repeat_leave_is_harmless() {
    let mut g = ChatServer::new();
    g.join(1);
    g.join(2);
    g.join(3);
    assert!(g.leave(2));
    assert!(!g.contains(2));
    let ids: Vec<u64> = g.broadcast(&msg(b"m")).iter().map(|p| p.0).collect();
    assert!(!ids.contains(&2));
    assert_eq!(ids.len(), 2);
    assert!(!g.leave(2));
    assert_eq!(g.len(), 2);
}

#[test]
fn abrupt_disconnect_leaves_only_the_other() {
    let mut g = ChatServer::new();
    g.join(10);
    g.join(20);
    assert!(g.leave(10));
    assert_eq!(g.handles(), vec![20]);
    let ids: Vec<u64> = g.broadcast(&msg(b"x")).iter().map(|p| p.0).collect();
    assert_eq!(ids, vec![20]);
}

#[test]
fn empty_registry_broadcasts_to_nobody() {
    let g = ChatServer::new();
    assert_eq!(g.len(), 0);
    assert!(g.broadcast(&msg(b"x")).is_empty());
}

#[test]
fn leave_unknown_returns_false() {
    let mut g = ChatServer::new();
    g.join(1);
    assert!(!g.leave(5));
    assert_eq!(g.handles(), vec![1]);
}
