//! Signing keys and the byte strings that the nodes sign.
//!
//! A node's signing key is held as its 32 secret bytes. Signing and deriving
//! the public key are done by `ed25519_dalek`; their results are named here,
//! and the payloads that get signed are built and proved in this module.
use vstd::prelude::*;
use vstd::utf8::{decode_utf8, encode_utf8, encode_utf8_decode_utf8};
use crate::protocol::{PeerInfoMessage, PeerInfoView, peers_view};

verus! {

/// The Ed25519 signature (RFC 8032) that the secret key `secret` gives
/// `message`; a function of the two alone.
pub uninterp spec fn ed25519_signature(secret: Seq<u8>, message: Seq<u8>) -> Seq<u8>;

/// The Ed25519 public key of the secret key `secret`.
pub uninterp spec fn ed25519_public_key(secret: Seq<u8>) -> Seq<u8>;

/// Signs `message` with `SigningKey::from_bytes(secret)` through
/// `Signer::sign` of `ed25519_dalek` and returns `Signature::to_bytes`.
/// Claimed: the result is the deterministic Ed25519 signature of `message`
/// under `secret`, 64 bytes long.
#[verifier::external_body]
pub(crate) fn sign_bytes(secret: &[u8; 32], message: &[u8]) -> (sig: Vec<u8>)
    ensures
        sig@ == ed25519_signature(secret@, message@),
        sig@.len() == 64,
{
    let key = ed25519_dalek::SigningKey::from_bytes(secret);
    ed25519_dalek::Signer::sign(&key, message).to_bytes().to_vec()
}

/// Returns `SigningKey::from_bytes(secret).verifying_key().to_bytes()` of
/// `ed25519_dalek`. Claimed: the result is the public key of `secret`, 32
/// bytes long.
#[verifier::external_body]
pub(crate) fn public_key_bytes(secret: &[u8; 32]) -> (pk: Vec<u8>)
    ensures
        pk@ == ed25519_public_key(secret@),
        pk@.len() == 32,
{
    ed25519_dalek::SigningKey::from_bytes(secret).verifying_key().to_bytes().to_vec()
}

/// Draws the 32 secret bytes of a fresh key from the operating system's
/// random source with `RngCore::try_fill_bytes` on `rand_core::OsRng` (the
/// bytes `SigningKey::generate` of `ed25519_dalek` takes as its secret);
/// none when the source fails. Nothing is claimed of the bytes or of when
/// the source fails.
#[verifier::external_body]
pub(crate) fn generate_secret_key() -> (secret: Option<[u8; 32]>) {
    let mut buf = [0u8; 32];
    match rand_core::RngCore::try_fill_bytes(&mut rand_core::OsRng, &mut buf) {
        Ok(()) => Some(buf),
        Err(_) => None,
    }
}

/// The big-endian bytes of `v`, most significant first.
pub open spec fn be_bytes(v: u64) -> Seq<u8> {
    Seq::new(8, |i: int| ((v >> ((56 - 8 * i) as u64)) & 0xff) as u8)
}

/// The bytes of a list of peers: each peer's id (UTF-8) and public key, in order.
pub open spec fn peers_payload(peers: Seq<PeerInfoView>) -> Seq<u8>
    decreases peers.len(),
{
    if peers.len() == 0 {
        Seq::empty()
    } else {
        peers_payload(peers.drop_last()) + encode_utf8(peers.last().node_id)
            + peers.last().pub_key
    }
}

/// What the supervisor signs when it welcomes `node_id` with `peers`.
pub open spec fn welcome_payload(node_id: Seq<char>, peers: Seq<PeerInfoView>) -> Seq<u8> {
    encode_utf8(node_id) + peers_payload(peers)
}

/// What a worker signs in a heartbeat.
pub open spec fn heartbeat_payload(node_id: Seq<char>, timestamp: u64) -> Seq<u8> {
    encode_utf8(node_id) + be_bytes(timestamp)
}

/// What a worker signs in its hello: its id.
pub open spec fn hello_payload(node_id: Seq<char>) -> Seq<u8> {
    encode_utf8(node_id)
}

/// The number that big-endian bytes stand for, the first byte the most
/// significant.
pub open spec fn be_value(bytes: Seq<u8>) -> int
    decreases bytes.len(),
{
    if bytes.len() == 0 {
        0
    } else {
        be_value(bytes.drop_last()) * 256 + bytes.last()
    }
}

proof fn lemma_be_value_step(b: Seq<u8>, k: int)
    requires
        0 < k <= b.len(),
    ensures
        be_value(b.subrange(0, k)) == be_value(b.subrange(0, k - 1)) * 256 + b[k - 1],
{
    assert(b.subrange(0, k).drop_last() =~= b.subrange(0, k - 1));
}

/// The big-endian bytes of a number are eight and stand for that number.
pub proof fn lemma_be_bytes(v: u64)
    ensures
        be_bytes(v).len() == 8,
        be_value(be_bytes(v)) == v,
{
    let b = be_bytes(v);
    let x0 = b[0];
    let x1 = b[1];
    let x2 = b[2];
    let x3 = b[3];
    let x4 = b[4];
    let x5 = b[5];
    let x6 = b[6];
    let x7 = b[7];
    assert(x0 == ((v >> 56u64) & 0xff) as u8);
    assert(x1 == ((v >> 48u64) & 0xff) as u8);
    assert(x2 == ((v >> 40u64) & 0xff) as u8);
    assert(x3 == ((v >> 32u64) & 0xff) as u8);
    assert(x4 == ((v >> 24u64) & 0xff) as u8);
    assert(x5 == ((v >> 16u64) & 0xff) as u8);
    assert(x6 == ((v >> 8u64) & 0xff) as u8);
    assert(x7 == ((v >> 0u64) & 0xff) as u8);
    assert(be_value(b.subrange(0, 0)) == 0);
    lemma_be_value_step(b, 1);
    lemma_be_value_step(b, 2);
    lemma_be_value_step(b, 3);
    lemma_be_value_step(b, 4);
    lemma_be_value_step(b, 5);
    lemma_be_value_step(b, 6);
    lemma_be_value_step(b, 7);
    lemma_be_value_step(b, 8);
    assert(b.subrange(0, 8) =~= b);
    assert(v == ((((((x0 * 256 + x1) * 256 + x2) * 256 + x3) * 256 + x4) * 256 + x5) * 256 + x6)
        * 256 + x7) by (bit_vector)
        requires
            x0 == ((v >> 56u64) & 0xff) as u8,
            x1 == ((v >> 48u64) & 0xff) as u8,
            x2 == ((v >> 40u64) & 0xff) as u8,
            x3 == ((v >> 32u64) & 0xff) as u8,
            x4 == ((v >> 24u64) & 0xff) as u8,
            x5 == ((v >> 16u64) & 0xff) as u8,
            x6 == ((v >> 8u64) & 0xff) as u8,
            x7 == ((v >> 0u64) & 0xff) as u8,
    ;
}

/// A heartbeat's signed bytes are the worker's id in UTF-8 followed by eight
/// bytes that, read big-endian, are the timestamp.
pub proof fn lemma_heartbeat_payload(node_id: Seq<char>, timestamp: u64)
    ensures
        ({
            let p = heartbeat_payload(node_id, timestamp);
            let n = encode_utf8(node_id).len() as int;
            &&& p.len() == n + 8
            &&& p.subrange(0, n) == encode_utf8(node_id)
            &&& decode_utf8(p.subrange(0, n)) == node_id
            &&& be_value(p.subrange(n, n + 8)) == timestamp
        }),
{
    let p = heartbeat_payload(node_id, timestamp);
    let n = encode_utf8(node_id).len() as int;
    lemma_be_bytes(timestamp);
    encode_utf8_decode_utf8(node_id);
    assert(p.subrange(0, n) =~= encode_utf8(node_id));
    assert(p.subrange(n, n + 8) =~= be_bytes(timestamp));
}

/// A heartbeat's signed bytes tell the worker and the timestamp: two
/// heartbeats sign the same bytes only if they have the same id and the same
/// timestamp.
pub proof fn lemma_heartbeat_payload_injective(
    id1: Seq<char>,
    timestamp1: u64,
    id2: Seq<char>,
    timestamp2: u64,
)
    ensures
        heartbeat_payload(id1, timestamp1) == heartbeat_payload(id2, timestamp2) ==> id1 == id2
            && timestamp1 == timestamp2,
{
    lemma_heartbeat_payload(id1, timestamp1);
    lemma_heartbeat_payload(id2, timestamp2);
}

/// A hello's signed bytes are the whole id: they decode back to it, and two
/// ids sign the same bytes only if they are the same id.
pub proof fn lemma_hello_payload(id1: Seq<char>, id2: Seq<char>)
    ensures
        decode_utf8(hello_payload(id1)) == id1,
        hello_payload(id1) == hello_payload(id2) ==> id1 == id2,
{
    encode_utf8_decode_utf8(id1);
    encode_utf8_decode_utf8(id2);
}

/// A list of no peers gives no bytes; a list of one gives that peer's id
/// (UTF-8) and then its key.
pub proof fn lemma_peers_payload_single(p: PeerInfoView)
    ensures
        peers_payload(Seq::<PeerInfoView>::empty()) == Seq::<u8>::empty(),
        peers_payload(seq![p]) == encode_utf8(p.node_id) + p.pub_key,
{
    assert(seq![p].drop_last() =~= Seq::<PeerInfoView>::empty());
    assert(Seq::<u8>::empty() + encode_utf8(p.node_id) =~= encode_utf8(p.node_id));
}

/// The bytes of two lists one after the other are the bytes of the first
/// list followed by those of the second: the peers are signed in the order
/// they are listed.
pub proof fn lemma_peers_payload_concat(a: Seq<PeerInfoView>, b: Seq<PeerInfoView>)
    ensures
        peers_payload(a + b) == peers_payload(a) + peers_payload(b),
    decreases b.len(),
{
    if b.len() == 0 {
        assert(a + b =~= a);
        assert(peers_payload(a) + peers_payload(b) =~= peers_payload(a));
    } else {
        lemma_peers_payload_concat(a, b.drop_last());
        assert((a + b).drop_last() =~= a + b.drop_last());
        assert((a + b).last() == b.last());
        assert(peers_payload(a + b) =~= peers_payload(a) + peers_payload(b));
    }
}

/// The first listed peer's id and key come first, then those of the rest.
pub proof fn lemma_peers_payload_first(p: PeerInfoView, rest: Seq<PeerInfoView>)
    ensures
        peers_payload(seq![p] + rest) == encode_utf8(p.node_id) + p.pub_key + peers_payload(rest),
{
    lemma_peers_payload_single(p);
    lemma_peers_payload_concat(seq![p], rest);
}

/// Appends the UTF-8 bytes of `s`.
pub fn push_str_bytes(out: &mut Vec<u8>, s: &str)
    ensures
        final(out)@ == old(out)@ + encode_utf8(s@),
{
    let b = s.as_bytes();
    let mut i: usize = 0;
    while i < b.len()
        invariant
            b@ == encode_utf8(s@),
            i <= b@.len(),
            out@ == old(out)@ + b@.subrange(0, i as int),
        decreases b@.len() - i,
    {
        out.push(b[i]);
        i = i + 1;
        assert(out@ =~= old(out)@ + b@.subrange(0, i as int));
    }
    assert(b@.subrange(0, b@.len() as int) =~= b@);
}

/// Appends bytes.
pub fn push_bytes(out: &mut Vec<u8>, b: &Vec<u8>)
    ensures
        final(out)@ == old(out)@ + b@,
{
    let mut i: usize = 0;
    while i < b.len()
        invariant
            i <= b@.len(),
            out@ == old(out)@ + b@.subrange(0, i as int),
        decreases b@.len() - i,
    {
        out.push(b[i]);
        i = i + 1;
        assert(out@ =~= old(out)@ + b@.subrange(0, i as int));
    }
    assert(b@.subrange(0, b@.len() as int) =~= b@);
}

/// The big-endian bytes of `v`.
pub fn be_bytes_of(v: u64) -> (r: Vec<u8>)
    ensures
        r@ == be_bytes(v),
{
    let mut r: Vec<u8> = Vec::new();
    let mut i: u64 = 0;
    while i < 8
        invariant
            i <= 8,
            r@.len() == i,
            forall|k: int| 0 <= k < i ==> r@[k] == ((v >> ((56 - 8 * k) as u64)) & 0xff) as u8,
        decreases 8 - i,
    {
        let shift: u64 = 56 - 8 * i;
        r.push(((v >> shift) & 0xff) as u8);
        i = i + 1;
    }
    assert(r@ =~= be_bytes(v));
    r
}

/// The bytes the supervisor signs when it welcomes `node_id` with `peers`.
pub fn build_welcome_payload(node_id: &str, peers: &Vec<PeerInfoMessage>) -> (r: Vec<u8>)
    ensures
        r@ == welcome_payload(node_id@, peers_view(peers@)),
{
    let mut out: Vec<u8> = Vec::new();
    push_str_bytes(&mut out, node_id);
    assert(peers_view(peers@.subrange(0, 0)) =~= Seq::<PeerInfoView>::empty());
    let mut i: usize = 0;
    while i < peers.len()
        invariant
            i <= peers@.len(),
            out@ == encode_utf8(node_id@) + peers_payload(peers_view(peers@.subrange(0, i as int))),
        decreases peers@.len() - i,
    {
        let ghost before = out@;
        push_str_bytes(&mut out, peers[i].node_id.as_str());
        push_bytes(&mut out, &peers[i].pub_key);
        let ghost next = peers_view(peers@.subrange(0, i + 1));
        assert(next.drop_last() =~= peers_view(peers@.subrange(0, i as int)));
        assert(next.last() == peers@[i as int]@);
        assert(out@ =~= encode_utf8(node_id@) + peers_payload(next));
        i = i + 1;
    }
    assert(peers@.subrange(0, peers@.len() as int) =~= peers@);
    out
}

/// The bytes a worker signs in a heartbeat.
pub fn build_heartbeat_payload(node_id: &str, timestamp: u64) -> (r: Vec<u8>)
    ensures
        r@ == heartbeat_payload(node_id@, timestamp),
{
    let mut out: Vec<u8> = Vec::new();
    push_str_bytes(&mut out, node_id);
    let tail = be_bytes_of(timestamp);
    push_bytes(&mut out, &tail);
    assert(out@ =~= heartbeat_payload(node_id@, timestamp));
    out
}

} // verus!
