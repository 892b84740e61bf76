use peerey::codec::ChatMessage;
use peerey::session::{Action, ChatSession, Event, Rejection, COOLDOWN_MS, MAX_MESSAGE_SIZE};

fn msg(body: &[u8]) -> ChatMessage {
    ChatMessage::new(b"a".to_vec(), body.to_vec()).unwrap()
}

fn forwarded(a: &Action) -> bool {
    matches!(a, Action::Forward(_))
}

#[test]
fn defaults() {
    assert_eq!(MAX_MESSAGE_SIZE, 512);
    assert_eq!(COOLDOWN_MS, 5000);
    let s = ChatSession::new(3);
    assert_eq!(s.id, 3);
    assert!(s.active);
    assert!(s.last_accepted.is_none());
}

#[test]
fn hello_world_scenario() {
    let mut s = ChatSession::new(1);
    let t0 = 1_000_000u64;
    let a = s.handle(Event::Received(msg(b"hello"), t0));
    match a {
        Action::Forward(m) => assert_eq!(m.body, b"hello".to_vec()),
        _ => panic!("first message not forwarded"),
    }
    let a = s.handle(Event::Received(msg(b"world"), t0 + 2000));
    assert!(matches!(a, Action::Drop(Rejection::TooSoon)));
    let a = s.handle(Event::Received(msg(b"world"), t0 + 6000));
    assert!(forwarded(&a));
    let big = vec![b'x'; 600];
    let a = s.handle(Event::Received(msg(&big), t0 + 20000));
    assert!(matches!(a, Action::Drop(Rejection::TooLarge)));
}

#[test]
fn oversized_is_dropped_even_first() {
    let mut s = ChatSession::new(1);
    let big = vec![b'x'; 513];
    assert_eq!(s.validate(&msg(&big), 0), Err(Rejection::TooLarge));
    assert!(s.last_accepted.is_none());
    let edge = vec![b'x'; 512];
    assert_eq!(s.validate(&msg(&edge), 0), Ok(()));
}

#[test]
fn first_message_at_time_zero_is_accepted() {
    let mut s = ChatSession::new(9);
    assert_eq!(s.validate(&msg(b"hi"), 0), Ok(()));
    assert_eq!(s.last_accepted, Some(0));
}

#[test]
fn second_within_cooldown_dropped_then_exact_cooldown_accepted() {
    let mut s = ChatSession::new(1);
    assert_eq!(s.validate(&msg(b"a"), 100), Ok(()));
    assert_eq!(s.validate(&msg(b"b"), 5099), Err(Rejection::TooSoon));
    assert_eq!(s.last_accepted, Some(100));
    assert_eq!(s.validate(&msg(b"c"), 5100), Ok(()));
    assert_eq!(s.last_accepted, Some(5100));
}

#[test]
fn custom_limits() {
    let mut s = ChatSession::with_limits(2, 3, 10);
    assert_eq!(s.validate(&msg(b"abcd"), 0), Err(Rejection::TooLarge));
    assert_eq!(s.validate(&msg(b"abc"), 0), Ok(()));
    assert_eq!(s.validate(&msg(b"abc"), 9), Err(Rejection::TooSoon));
    assert_eq!(s.validate(&msg(b"abc"), 10), Ok(()));
}

#[test]
fn leave_is_asked_once() {
    let mut s = ChatSession::new(1);
    assert!(matches!(s.handle(Event::DecodeFailed), Action::Continue));
    assert!(s.active);
    assert!(matches!(s.handle(Event::ReadFailed), Action::Leave));
    assert!(!s.active);
    assert!(matches!(s.handle(Event::WriteFailed), Action::Continue));
    assert!(matches!(s.handle(Event::Closed), Action::Continue));
    assert!(matches!(s.handle(Event::Received(msg(b"x"), 0)), Action::Continue));
}

#[test]
fn write_failure_and_close_end_session() {
    let mut s = ChatSession::new(1);
    assert!(matches!(s.handle(Event::WriteFailed), Action::Leave));
    let mut t = ChatSession::new(2);
    assert!(matches!(t.handle(Event::Closed), Action::Leave));
}

#[test]
fn delivered_message_is_written() {
    let mut s = ChatSession::new(1);
    match s.handle(Event::Delivered(msg(b"yo"))) {
        Action::Write(m) => assert_eq!(m.body, b"yo".to_vec()),
        _ => panic!("delivered message not written"),
    }
}
