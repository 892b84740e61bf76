use bytes::BytesMut;
use peerey::codec::{frame_bytes, has_zero, ChatMessage, Codec};

fn msg(name: &str, body: &str) -> ChatMessage {
    ChatMessage::new(name.as_bytes().to_vec(), body.as_bytes().to_vec()).unwrap()
}

fn buf(b: &[u8]) -> BytesMut {
    BytesMut::from(b)
}

#[test]
fn encode_writes_name_nul_body_nul() {
    let mut dst = buf(&[7u8]);
    Codec.encode(&msg("al", "hi"), &mut dst);
    assert_eq!(&dst[..], &[7, b'a', b'l', 0, b'h', b'i', 0][..]);
}

#[test]
fn encode_empty_fields() {
    let mut dst = BytesMut::new();
    Codec.encode(&msg("", ""), &mut dst);
    assert_eq!(&dst[..], &[0u8, 0][..]);
    assert_eq!(frame_bytes(&msg("", "")), vec![0, 0]);
}

#[test]
fn frame_bytes_exact() {
    assert_eq!(frame_bytes(&msg("ab", "c")), b"ab\0c\0".to_vec());
}

#[test]
fn round_trip_keeps_name_body_and_rest() {
    let mut b = BytesMut::new();
    Codec.encode(&msg("alice", "hello world"), &mut b);
    b.extend_from_slice(b"bo");
    let m = Codec.decode(&mut b).unwrap();
    assert_eq!(m.name, b"alice".to_vec());
    assert_eq!(m.body, b"hello world".to_vec());
    assert_eq!(&b[..], b"bo");
}

#[test]
fn decode_waits_for_a_complete_frame() {
    let mut b = buf(b"bob\0hel");
    assert!(Codec.decode(&mut b).is_none());
    assert_eq!(&b[..], b"bob\0hel");
    b.extend_from_slice(b"lo\0");
    let m = Codec.decode(&mut b).unwrap();
    assert_eq!(m.name, b"bob".to_vec());
    assert_eq!(m.body, b"hello".to_vec());
    assert!(b.is_empty());
}

#[test]
fn decode_empty_buffer_is_none() {
    let mut b = BytesMut::new();
    assert!(Codec.decode(&mut b).is_none());
    assert!(b.is_empty());
}

#[test]
fn decode_two_frames_in_turn() {
    let mut b = buf(b"a\0x\0b\0yz\0");
    let first = Codec.decode(&mut b).unwrap();
    assert_eq!((first.name, first.body), (b"a".to_vec(), b"x".to_vec()));
    let second = Codec.decode(&mut b).unwrap();
    assert_eq!((second.name, second.body), (b"b".to_vec(), b"yz".to_vec()));
    assert!(Codec.decode(&mut b).is_none());
}

#[test]
fn decode_empty_name_and_body() {
    let mut b = buf(b"\0\0z");
    let m = Codec.decode(&mut b).unwrap();
    assert!(m.name.is_empty());
    assert!(m.body.is_empty());
    assert_eq!(&b[..], b"z");
}

#[test]
fn message_with_nul_is_refused() {
    assert!(ChatMessage::new(b"a\0b".to_vec(), b"x".to_vec()).is_none());
    assert!(ChatMessage::new(b"ab".to_vec(), vec![0]).is_none());
    assert!(ChatMessage::new(b"ab".to_vec(), b"x".to_vec()).is_some());
    assert!(has_zero(&vec![1, 0, 2]));
    assert!(!has_zero(&vec![1, 2]));
}

#[test]
fn duplicate_keeps_bytes() {
    let m = msg("n", "b");
    let d = m.duplicate();
    assert_eq!(d.name, m.name);
    assert_eq!(d.body, m.body);
}
