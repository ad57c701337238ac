use vstd::prelude::*;

use crate::channels::ChannelId;
use crate::error::NetworkError;
use crate::tick::RepliconTick;

verus! {

#[verifier::external_type_specification]
#[verifier::external_body]
pub struct ExBincodeErrorKind(bincode::ErrorKind);

/// `k` bytes of `n`, least significant first.
pub open spec fn le_bytes(n: nat, k: nat) -> Seq<u8>
    decreases k,
{
    if k == 0 {
        Seq::empty()
    } else {
        seq![(n % 256) as u8] + le_bytes(n / 256, (k - 1) as nat)
    }
}

/// Variable-length integer: values up to 250 in one byte; larger ones as a
/// marker byte (251, 252, 253) followed by 2, 4 or 8 little-endian bytes.
pub open spec fn varint(n: u64) -> Seq<u8> {
    if n <= 250 {
        seq![n as u8]
    } else if n <= 0xffff {
        seq![251u8] + le_bytes(n as nat, 2)
    } else if n <= 0xffff_ffff {
        seq![252u8] + le_bytes(n as nat, 4)
    } else {
        seq![253u8] + le_bytes(n as nat, 8)
    }
}

/// A byte payload as it travels inside a server message: its length as a
/// varint, then the bytes themselves.
pub open spec fn framed(payload: Seq<u8>) -> Seq<u8> {
    varint(payload.len() as u64) + payload
}

/// `bytes` is the frame of some payload.
pub open spec fn is_frame(bytes: Seq<u8>) -> bool {
    exists|v: Seq<u8>| framed(v) == bytes
}

/// Relies on bincode's `Options::serialize` with `DefaultOptions` (varint
/// integers, no size limit) on a byte vector: a sequence is its length as a
/// varint, then each `u8` as one byte; writing into a `Vec` cannot fail.
#[verifier::external_body]
fn encode_payload(payload: &Vec<u8>) -> (r: Result<Vec<u8>, Box<bincode::ErrorKind>>)
    ensures
        r is Ok && r->Ok_0@ == framed(payload@),
{
    bincode::Options::serialize(bincode::DefaultOptions::new(), payload)
}

/// Relies on bincode's `Options::deserialize` with `DefaultOptions` into a
/// byte vector: it reads a varint length and that many bytes, and rejects
/// trailing bytes, so the frame of a payload reads back as that payload.
#[verifier::external_body]
fn decode_payload(bytes: &[u8]) -> (r: Result<Vec<u8>, Box<bincode::ErrorKind>>)
    ensures
        is_frame(bytes@) ==> (r is Ok && framed(r->Ok_0@) == bytes@),
{
    bincode::Options::deserialize::<Vec<u8>>(bincode::DefaultOptions::new(), bytes)
}

/// Two values below `256^k` with the same `k` little-endian bytes are equal.
proof fn lemma_le_bytes_injective(a: nat, b: nat, k: nat, bound: nat)
    requires
        bound == pow256(k),
        a < bound,
        b < bound,
        le_bytes(a, k) == le_bytes(b, k),
    ensures
        a == b,
    decreases k,
{
    if k > 0 {
        let p = pow256((k - 1) as nat);
        assert(le_bytes(a, k)[0] == (a % 256) as u8);
        assert(le_bytes(b, k)[0] == (b % 256) as u8);
        assert(le_bytes(a, k)[0] == le_bytes(b, k)[0]);
        assert(a % 256 == b % 256);
        assert(le_bytes(a / 256, (k - 1) as nat) =~= le_bytes(a, k).subrange(1, le_bytes(a, k).len() as int));
        assert(le_bytes(b / 256, (k - 1) as nat) =~= le_bytes(b, k).subrange(1, le_bytes(b, k).len() as int));
        assert(a / 256 < p) by (nonlinear_arith)
            requires a < 256 * p;
        assert(b / 256 < p) by (nonlinear_arith)
            requires b < 256 * p;
        lemma_le_bytes_injective(a / 256, b / 256, (k - 1) as nat, p);
        assert(a == 256 * (a / 256) + a % 256) by (nonlinear_arith);
        assert(b == 256 * (b / 256) + b % 256) by (nonlinear_arith);
    }
}

/// `256^k`.
pub open spec fn pow256(k: nat) -> nat
    decreases k,
{
    if k == 0 {
        1
    } else {
        256 * pow256((k - 1) as nat)
    }
}

proof fn lemma_le_bytes_len(n: nat, k: nat)
    ensures
        le_bytes(n, k).len() == k,
    decreases k,
{
    if k > 0 {
        lemma_le_bytes_len(n / 256, (k - 1) as nat);
    }
}

/// Different integers have different varints.
proof fn lemma_varint_injective(a: u64, b: u64, tail_a: Seq<u8>, tail_b: Seq<u8>)
    requires
        varint(a) + tail_a == varint(b) + tail_b,
    ensures
        a == b,
        tail_a == tail_b,
{
    let x = varint(a) + tail_a;
    lemma_le_bytes_len(a as nat, 2);
    lemma_le_bytes_len(a as nat, 4);
    lemma_le_bytes_len(a as nat, 8);
    lemma_le_bytes_len(b as nat, 2);
    lemma_le_bytes_len(b as nat, 4);
    lemma_le_bytes_len(b as nat, 8);
    assert(x[0] == (varint(b) + tail_b)[0]);
    assert(pow256(0) == 1);
    assert(pow256(1) == 0x100);
    assert(pow256(2) == 0x1_0000);
    assert(pow256(3) == 0x100_0000);
    assert(pow256(4) == 0x1_0000_0000);
    assert(pow256(5) == 0x100_0000_0000);
    assert(pow256(6) == 0x1_0000_0000_0000);
    assert(pow256(7) == 0x100_0000_0000_0000);
    assert(pow256(8) == 0x1_0000_0000_0000_0000);
    let n = varint(a).len() as int;
    assert(varint(a).len() == varint(b).len());
    assert(varint(a) =~= x.subrange(0, n));
    assert(varint(b) =~= (varint(b) + tail_b).subrange(0, n));
    assert(tail_a =~= x.subrange(n, x.len() as int));
    assert(tail_b =~= (varint(b) + tail_b).subrange(n, x.len() as int));
    if a > 250 {
        let k = (n - 1) as nat;
        assert(le_bytes(a as nat, k) =~= varint(a).subrange(1, n));
        assert(le_bytes(b as nat, k) =~= varint(b).subrange(1, n));
        lemma_le_bytes_injective(a as nat, b as nat, k, pow256(k));
    }
}

/// Decoding the frame of a payload gives back that payload: no two payloads
/// share a frame.
pub proof fn lemma_payload_round_trip(v: Seq<u8>, w: Seq<u8>)
    requires
        framed(v) == framed(w),
    ensures
        v == w,
{
    lemma_varint_injective(v.len() as u64, w.len() as u64, v, w);
}

/// The handshake message a client sends when it connects.
#[derive(Clone, Debug)]
pub struct ConnectMsg(pub String);

/// A message from the server: a channel, the tick it was sent at (for channels
/// that are gated by ticks), and the serialized event.
#[derive(Clone, Debug)]
pub struct ServerMsg {
    pub channel_id: ChannelId,
    pub tick: Option<RepliconTick>,
    pub event: Vec<u8>,
}

/// A message from a client: a channel and the serialized event.
#[derive(Clone, Debug)]
pub struct ClientMsg {
    pub channel_id: ChannelId,
    pub event: Vec<u8>,
}

impl ServerMsg {
    /// The bytes that carry this message's event: the framed payload.
    pub fn get_bytes(&self) -> (r: Vec<u8>)
        ensures
            r@ == framed(self.event@),
    {
        match encode_payload(&self.event) {
            Ok(bytes) => bytes,
            Err(_) => {
                proof {
                    assert(false);
                }
                Vec::new()
            },
        }
    }

    /// Reads a message for `channel_id` from framed bytes. Every frame reads back
    /// as the payload it frames; what else decodes is left to the decoder.
    pub fn from_bytes(message: Vec<u8>, channel_id: ChannelId) -> (r: Result<Self, NetworkError>)
        ensures
            is_frame(message@) ==> (r matches Ok(m) && framed(m.event@) == message@),
            r matches Ok(m) ==> m.channel_id == channel_id && m.tick is None,
            r matches Err(e) ==> e == NetworkError::Deserialization(channel_id),
    {
        match decode_payload(message.as_slice()) {
            Ok(event) => Ok(ServerMsg { channel_id, tick: None, event }),
            Err(_) => Err(NetworkError::Deserialization(channel_id)),
        }
    }
}

impl ClientMsg {
    /// The bytes that carry this message's event: the payload as it is.
    pub fn get_bytes(&self) -> (r: Vec<u8>)
        ensures
            r@ == self.event@,
    {
        self.event.clone()
    }

    /// A message for `channel_id` that carries `message` as its payload.
    pub fn from_bytes(message: Vec<u8>, channel_id: ChannelId) -> (r: Self)
        ensures
            r.channel_id == channel_id,
            r.event@ == message@,
    {
        ClientMsg { channel_id, event: message }
    }
}

} // verus!
