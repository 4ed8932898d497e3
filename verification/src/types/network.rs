//! The handshake with the game server: the framing of messages and the
//! decisions on the reply. Sockets stay outside the library.

use crate::error::{Error, ErrorKind};
use crate::render::character::string_chars;
use x25519_dalek::{EphemeralSecret, PublicKey, SharedSecret};
use vstd::prelude::*;

verus! {

pub const DEFAULT_TCP_PORT: u16 = 8000;

pub const DEFAULT_UDP_PORT: u16 = 8500;

/// The bytes before a message's body: two of size, three of kind.
pub const TCP_HEADER_SIZE: usize = 5;

pub const X25519_KEY_SIZE: usize = 32;

pub const CLIENT_VERSION_SIZE: usize = 2;

pub const CLIENT_VERSION: u16 = 1;

pub const SERVER_VERSION: u16 = 1;

/// A one-use x25519 secret (`x25519_dalek::EphemeralSecret`), carried
/// opaquely.
#[verifier::external_type_specification]
#[verifier::external_body]
pub struct ExEphemeralSecret(EphemeralSecret);

/// An x25519 shared secret (`x25519_dalek::SharedSecret`), carried
/// opaquely.
#[verifier::external_type_specification]
#[verifier::external_body]
pub struct ExSharedSecret(SharedSecret);

/// The secret shared with the owner of the public key whose 32 bytes are
/// `peer`: the bytes made into a key (`PublicKey::from`, which keeps them
/// as they are) and handed to `EphemeralSecret::diffie_hellman`. Nothing
/// is stated of the secret.
#[verifier::external_body]
fn diffie_hellman(secret: EphemeralSecret, peer: [u8; 32]) -> SharedSecret {
    secret.diffie_hellman(&PublicKey::from(peer))
}

/// A message as it came off the wire: its declared size, its three-letter
/// kind and its body.
pub struct TCPMessage {
    pub size: u16,
    pub kind: String,
    pub body: Vec<u8>,
}

/// The hello a client opens a connection with.
pub struct HELMessage();

/// The hello for a key with bytes `key`: a size of 34 in two bytes, `HEL`,
/// the client version in two bytes (high first), and the key.
pub open spec fn hel_frame(key: Seq<u8>) -> Seq<u8> {
    seq![0u8, 34u8, 72u8, 69u8, 76u8, (CLIENT_VERSION >> 8) as u8, CLIENT_VERSION as u8] + key
}

impl HELMessage {
    /// The hello carrying the public key whose 32 bytes are `key`.
    pub fn to_bytes(key: &[u8; 32]) -> (r: Vec<u8>)
        ensures
            r@ == hel_frame(key@),
    {
        let mut buffer: Vec<u8> = Vec::new();
        buffer.push(0);
        buffer.push((X25519_KEY_SIZE + CLIENT_VERSION_SIZE) as u8);
        buffer.push(72);
        buffer.push(69);
        buffer.push(76);
        buffer.push((CLIENT_VERSION >> 8) as u8);
        buffer.push(CLIENT_VERSION as u8);
        let ghost start = buffer@;
        let mut i: usize = 0;
        while i < 32
            invariant
                0 <= i <= 32,
                key@.len() == 32,
                buffer@ == start + key@.take(i as int),
            decreases 32 - i,
        {
            buffer.push(key[i]);
            assert(key@.take(i + 1) =~= key@.take(i as int).push(key@[i as int]));
            i += 1;
        }
        assert(key@.take(32) =~= key@);
        assert(buffer@ =~= hel_frame(key@));
        buffer
    }
}

/// Whether a hello may be sent: not while the client is already connected
/// to the server, which is refused with a network error.
pub fn hel_allowed(connected: bool) -> (r: Result<(), Error>)
    ensures
        r is Ok <==> !connected,
        r matches Err(e) ==> e.message() == "client already connected to server"@ && e.error_kind() == ErrorKind::Network
            && e.cause() is None,
{
    if connected {
        Err(Error::new("client already connected to server", ErrorKind::Network))
    } else {
        Ok(())
    }
}

/// The error every received packet gets: the size check rejects a packet
/// at least as long as a header.
pub open spec fn too_small(e: Error) -> bool {
    e.message() == "recieved packet too small"@ && e.error_kind() == ErrorKind::Network && e.cause() is None
}

/// Reads a packet from the server. The size check is the wrong way round:
/// a packet at least as long as a header is refused as too small (a
/// shorter one could not be read at all).
pub fn parse_tcp_message(buffer: &[u8]) -> (r: Result<TCPMessage, Error>)
    requires
        buffer@.len() >= TCP_HEADER_SIZE,
    ensures
        r matches Err(e) && too_small(e),
{
    Err(Error::new("recieved packet too small", ErrorKind::Network))
}

/// Whether `s` is the three characters `a`, `b`, `c`.
fn is_kind(s: &String, a: char, b: char, c: char) -> (r: bool)
    ensures
        r == (s@ == seq![a, b, c]),
{
    let v = string_chars(s);
    if v.len() != 3 {
        return false;
    }
    let r = v[0] == a && v[1] == b && v[2] == c;
    if r {
        assert(s@ =~= seq![a, b, c]);
    }
    r
}

/// A 16-bit number from two bytes, high first.
pub open spec fn be16(hi: u8, lo: u8) -> u16 {
    (hi as int * 256 + lo as int) as u16
}

/// What the server's reply to a hello says: refused, not an answer, a
/// server of another version, or its version, tick rate and key bytes.
pub open spec fn hel_reply(kind: Seq<char>, body: Seq<u8>) -> Result<(u16, u16, Seq<u8>), Seq<char>> {
    if kind == "REJ"@ {
        Err("HEL Message Rejected"@)
    } else if kind != "ACK"@ {
        Err("Invalid HEL Message Response"@)
    } else if be16(body[0], body[1]) != SERVER_VERSION {
        Err("Unexpected Server Version"@)
    } else if body.len() != 36 {
        Err("failed to convert msg bytes to peer public key"@)
    } else {
        Ok((be16(body[0], body[1]), be16(body[2], body[3]), body.skip(4)))
    }
}

/// Whether the reply can be read: an answer must hold a version, and one
/// from a server of this version also a tick rate.
pub open spec fn reply_readable(kind: Seq<char>, body: Seq<u8>) -> bool {
    kind == "ACK"@ ==> body.len() >= 2 && (be16(body[0], body[1]) == SERVER_VERSION ==> body.len()
        >= 4)
}

/// `(hi << 8) + lo`.
fn join_bytes(hi: u8, lo: u8) -> (r: u16)
    ensures
        r == be16(hi, lo),
{
    let h = hi as u16;
    assert(h << 8 == h * 256) by (bit_vector)
        requires
            h < 256,
    ;
    (h << 8) + (lo as u16)
}

/// Decides on the server's reply to a hello (see `hel_reply`). A key of
/// the wrong length wraps the slice conversion's own error.
pub fn decode_hel_reply(msg: &TCPMessage) -> (r: Result<(u16, u16, [u8; 32]), Error>)
    requires
        reply_readable(msg.kind@, msg.body@),
    ensures
        match hel_reply(msg.kind@, msg.body@) {
            Ok((v, t, k)) => r matches Ok((v2, t2, k2)) && v2 == v && t2 == t && k2@ == k,
            Err(m) => r matches Err(e) && e.message() == m && e.error_kind() == ErrorKind::Network,
        },
{
    proof {
        reveal_strlit("REJ");
        reveal_strlit("ACK");
        assert("REJ"@ =~= seq!['R', 'E', 'J']);
        assert("ACK"@ =~= seq!['A', 'C', 'K']);
    }
    if is_kind(&msg.kind, 'R', 'E', 'J') {
        return Err(Error::new("HEL Message Rejected", ErrorKind::Network));
    }
    if !is_kind(&msg.kind, 'A', 'C', 'K') {
        return Err(Error::new("Invalid HEL Message Response", ErrorKind::Network));
    }
    let peer_ver = join_bytes(msg.body[0], msg.body[1]);
    if peer_ver != SERVER_VERSION {
        return Err(Error::new("Unexpected Server Version", ErrorKind::Network));
    }
    let peer_tick_rate = join_bytes(msg.body[2], msg.body[3]);
    if msg.body.len() != 36 {
        return Err(
            Error::from(
                String::from_str("could not convert slice to array"),
                "failed to convert msg bytes to peer public key",
                ErrorKind::Network,
            ),
        );
    }
    let mut key = [0u8; 32];
    let mut i: usize = 0;
    while i < 32
        invariant
            0 <= i <= 32,
            msg.body@.len() == 36,
            key@.len() == 32,
            forall|j: int| 0 <= j < i ==> key@[j] == msg.body@[j + 4],
        decreases 32 - i,
    {
        key.set(i, msg.body[i + 4]);
        i += 1;
    }
    assert(key@ =~= msg.body@.skip(4));
    Ok((peer_ver, peer_tick_rate, key))
}

/// Completes the key exchange with the server's key bytes `peer`: the
/// shared secret, or an error when the client has no secret left.
pub fn complete_handshake(secret: Option<EphemeralSecret>, peer: [u8; 32]) -> (r: Result<SharedSecret, Error>)
    ensures
        r is Ok <==> secret is Some,
        r matches Err(e) ==> e.message() == "no x25519 private key exist for client"@
            && e.error_kind() == ErrorKind::Network,
{
    match secret {
        Some(s) => {
            Ok(diffie_hellman(s, peer))
        },
        None => Err(Error::new("no x25519 private key exist for client", ErrorKind::Network)),
    }
}

/// A hello is 39 bytes: its size field (two bytes, high first) counts the
/// 34 bytes after the header, the kind is `HEL`, then come the client
/// version (two bytes, high first) and the 32 key bytes as they are.
pub proof fn law_hello_frame(key: Seq<u8>)
    requires
        key.len() == 32,
    ensures
        ({
            let f = hel_frame(key);
            &&& f.len() == 39
            &&& f[0] as int * 256 + f[1] as int == f.len() - TCP_HEADER_SIZE
            &&& f[2] == 72u8 && f[3] == 69u8 && f[4] == 76u8
            &&& f[5] as int * 256 + f[6] as int == CLIENT_VERSION
            &&& f.skip(7) == key
        }),
{
    let f = hel_frame(key);
    assert(f.skip(7) =~= key);
    assert((CLIENT_VERSION >> 8) as u8 == 0u8) by (bit_vector);
}

/// Reading the server's answer: a rejection and anything that is not an
/// acknowledgement are refused; an acknowledgement from a server of this
/// version with a 36-byte body gives the version (the first two bytes,
/// high first), the tick rate (the next two, high first) and the key (the
/// last 32 bytes); a server of another version is refused.
pub proof fn law_hello_reply(kind: Seq<char>, body: Seq<u8>)
    requires
        body.len() >= 4,
    ensures
        kind == "REJ"@ ==> hel_reply(kind, body) is Err,
        kind != "REJ"@ && kind != "ACK"@ ==> hel_reply(kind, body) is Err,
        kind == "ACK"@ && body[0] as int * 256 + body[1] as int != SERVER_VERSION ==> hel_reply(kind, body) is Err,
        kind == "ACK"@ && body[0] as int * 256 + body[1] as int == SERVER_VERSION && body.len() == 36 ==> hel_reply(
            kind,
            body,
        ) == Ok::<(u16, u16, Seq<u8>), Seq<char>>(
            (SERVER_VERSION, (body[2] as int * 256 + body[3] as int) as u16, body.subrange(4, 36)),
        ),
        kind == "ACK"@ && body.len() != 36 ==> hel_reply(kind, body) is Err,
{
    reveal_strlit("REJ");
    reveal_strlit("ACK");
    assert(body.skip(4) =~= body.subrange(4, body.len() as int));
    assert(body[0] as int * 256 + body[1] as int <= 0xffff);
    assert(body[2] as int * 256 + body[3] as int <= 0xffff);
    assert(be16(body[0], body[1]) == body[0] as int * 256 + body[1] as int);
    assert(be16(body[2], body[3]) == (body[2] as int * 256 + body[3] as int) as u16);
    assert("REJ"@ != "ACK"@) by {
        assert("REJ"@[0] != "ACK"@[0]);
    }
}

} // verus!
