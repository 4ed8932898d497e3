use rand_core::OsRng;
use ssh_colony::error::{Error, ErrorKind};
use ssh_colony::types::encoding::{Encode, Encoded};
use ssh_colony::types::network::{
    complete_handshake, decode_hel_reply, hel_allowed, parse_tcp_message, HELMessage, TCPMessage,
};
use x25519_dalek::{EphemeralSecret, PublicKey};

fn reply(kind: &str, body: Vec<u8>) -> TCPMessage {
    TCPMessage { size: body.len() as u16, kind: kind.to_string(), body }
}

fn is_network(e: &Error) -> bool {
    matches!(e.kind(), ErrorKind::Network)
}

#[test]
fn hello_frame_bytes() {
    let mut key = [0u8; 32];
    for (i, b) in key.iter_mut().enumerate() {
        *b = i as u8;
    }
    let v = HELMessage::to_bytes(&key);
    assert_eq!(v.len(), 39);
    assert_eq!(&v[..7], &[0, 34, 72, 69, 76, 0, 1]);
    assert_eq!(&v[7..], &key[..]);
}

#[test]
fn hello_carries_the_public_key() {
    let secret = EphemeralSecret::random_from_rng(OsRng);
    let public = PublicKey::from(&secret);
    let v = HELMessage::to_bytes(public.as_bytes());
    assert_eq!(&v[..7], &[0, 34, 72, 69, 76, 0, 1]);
    assert_eq!(&v[7..], public.as_bytes());
}

#[test]
fn every_packet_is_refused_as_too_small() {
    let e = parse_tcp_message(&[0, 2, 65, 67, 75, 0, 1]).err().unwrap();
    assert_eq!(e.description(), "recieved packet too small");
    assert!(is_network(&e));
    assert!(e.source().is_none());
}

#[test]
fn hello_reply_decisions() {
    let e = decode_hel_reply(&reply("REJ", vec![])).err().unwrap();
    assert_eq!(e.description(), "HEL Message Rejected");
    assert!(is_network(&e));
    let e = decode_hel_reply(&reply("XYZ", vec![])).err().unwrap();
    assert_eq!(e.description(), "Invalid HEL Message Response");
    let e = decode_hel_reply(&reply("ACK", vec![0, 2])).err().unwrap();
    assert_eq!(e.description(), "Unexpected Server Version");
    let e = decode_hel_reply(&reply("ACK", vec![0, 1, 0, 20, 9])).err().unwrap();
    assert_eq!(e.description(), "failed to convert msg bytes to peer public key");
    assert_eq!(e.source().map(|s| s.as_str()), Some("could not convert slice to array"));
    let mut body = vec![0, 1, 1, 44];
    body.extend((0..32).map(|i| 100 + i as u8));
    let (ver, tick, key) = decode_hel_reply(&reply("ACK", body)).ok().unwrap();
    assert_eq!(ver, 1);
    assert_eq!(tick, 300);
    assert_eq!(key[0], 100);
    assert_eq!(key[31], 131);
}

#[test]
fn handshake_needs_a_secret() {
    let e = complete_handshake(None, [9u8; 32]).err().unwrap();
    assert_eq!(e.description(), "no x25519 private key exist for client");
    assert!(is_network(&e));
    assert!(complete_handshake(Some(EphemeralSecret::random_from_rng(OsRng)), [9u8; 32]).is_ok());
}

#[test]
fn both_sides_share_a_secret() {
    let a = EphemeralSecret::random_from_rng(OsRng);
    let b = EphemeralSecret::random_from_rng(OsRng);
    let a_pub = PublicKey::from(&a);
    let b_pub = PublicKey::from(&b);
    let s1 = complete_handshake(Some(a), *b_pub.as_bytes()).ok().unwrap();
    let s2 = complete_handshake(Some(b), *a_pub.as_bytes()).ok().unwrap();
    assert_eq!(s1.as_bytes(), s2.as_bytes());
}

#[test]
fn byte_encoding_round_trip() {
    assert_eq!(7u8.to_bytes(), vec![7]);
    assert_eq!(Encoded::encoded(200u8).decode::<u8>(), Ok(200));
    assert_eq!(u8::from_bytes(vec![1, 2]), Err(()));
    assert_eq!(u8::from_bytes(vec![]), Err(()));
}

#[test]
fn error_descriptions() {
    let e = Error::new("bad", ErrorKind::InvalidData);
    assert_eq!(e.describe(), "Invalid Data: bad");
    let w = Error::from("inner".to_string(), "outer", ErrorKind::NotFound);
    assert_eq!(w.describe(), "Not Found: outer");
    assert_eq!(w.source().map(|s| s.as_str()), Some("inner"));
    let io = Error::new("x", ErrorKind::Io(std::io::ErrorKind::NotFound));
    assert!(io.describe().starts_with("IO("));
}

#[test]
fn hello_only_when_not_connected() {
    assert!(hel_allowed(false).is_ok());
    let e = hel_allowed(true).err().unwrap();
    assert_eq!(e.description(), "client already connected to server");
    assert!(is_network(&e));
}
