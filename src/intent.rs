//! Intents and the gossip envelope that carries them, with their encoding.
use vstd::prelude::*;
use crate::error::ClientError;
use crate::wire::{len_field, put_bytes, put_len_field, put_varint_field, varint_field};

verus! {

/// A point in time: seconds since the Unix epoch and a sub-second part.
#[derive(Debug, Clone, Copy, PartialEq, Eq, Structural)]
pub struct Timestamp {
    pub seconds: i64,
    pub nanos: i32,
}

/// An opaque payload published with the time it was captured.
#[derive(Debug, Clone)]
pub struct Intent {
    pub data: Vec<u8>,
    pub timestamp: Timestamp,
}

/// The envelope that tags an intent.
#[derive(Debug, Clone)]
pub struct IntentMessage {
    pub intent: Intent,
}

/// A message of the gossip protocol; intents are the one kind so far.
#[derive(Debug, Clone)]
#[non_exhaustive]
pub enum GossipMessage {
    Intent(IntentMessage),
}

impl Timestamp {
    /// The sub-second part is a whole number of nanoseconds below one second.
    pub open spec fn wf(&self) -> bool {
        0 <= self.nanos < 1_000_000_000
    }

    /// A timestamp; `nanos` must be below one second.
    pub fn new(seconds: i64, nanos: i32) -> (r: Timestamp)
        requires
            0 <= nanos < 1_000_000_000,
        ensures
            r.wf(),
            r.seconds == seconds,
            r.nanos == nanos,
    {
        Timestamp { seconds, nanos }
    }
}

/// Encoding of a timestamp: fields equal to zero are left out.
pub open spec fn timestamp_encoding(t: Timestamp) -> Seq<u8> {
    (if t.seconds != 0 {
        varint_field(1, (t.seconds as u64) as nat)
    } else {
        Seq::empty()
    }) + (if t.nanos != 0 {
        varint_field(2, t.nanos as nat)
    } else {
        Seq::empty()
    })
}

/// Encoding of an intent: its payload (left out when empty), then its
/// timestamp as a nested message.
pub open spec fn intent_encoding(data: Seq<u8>, t: Timestamp) -> Seq<u8> {
    (if data.len() > 0 {
        len_field(1, data)
    } else {
        Seq::empty()
    }) + len_field(2, timestamp_encoding(t))
}

/// Encoding of a gossip message carrying an intent: the intent inside its
/// envelope, inside the message's intent variant.
pub open spec fn intent_gossip_encoding(data: Seq<u8>, t: Timestamp) -> Seq<u8> {
    len_field(1, len_field(1, intent_encoding(data, t)))
}

impl GossipMessage {
    /// The message is an intent with exactly this payload and timestamp.
    pub open spec fn carries(&self, data: Seq<u8>, t: Timestamp) -> bool {
        self matches GossipMessage::Intent(m) && m.intent.data@ == data && m.intent.timestamp == t
    }

    /// The message encodes to `b`.
    pub open spec fn encodes_to(&self, b: Seq<u8>) -> bool {
        match self {
            GossipMessage::Intent(m) => b == intent_gossip_encoding(m.intent.data@, m.intent.timestamp),
        }
    }

    /// Its timestamp is valid.
    pub open spec fn wf(&self) -> bool {
        match self {
            GossipMessage::Intent(m) => m.intent.timestamp.wf(),
        }
    }

    /// The payload it carries.
    pub fn payload(&self) -> (r: &Vec<u8>)
        ensures
            match self {
                GossipMessage::Intent(m) => r@ == m.intent.data@,
            },
    {
        match self {
            GossipMessage::Intent(m) => &m.intent.data,
        }
    }

    /// The bytes sent to the gossip service.
    pub fn encode(&self) -> (r: Vec<u8>)
        requires
            self.wf(),
        ensures
            self.encodes_to(r@),
    {
        match self {
            GossipMessage::Intent(m) => {
                let t = m.intent.timestamp;
                let mut ts: Vec<u8> = Vec::new();
                if t.seconds != 0 {
                    put_varint_field(1, t.seconds as u64, &mut ts);
                }
                if t.nanos != 0 {
                    put_varint_field(2, t.nanos as u64, &mut ts);
                }
                assert(ts@ =~= timestamp_encoding(t));
                let mut body: Vec<u8> = Vec::new();
                if m.intent.data.len() > 0 {
                    put_len_field(1, &m.intent.data, &mut body);
                }
                put_len_field(2, &ts, &mut body);
                assert(body@ =~= intent_encoding(m.intent.data@, t));
                let mut envelope: Vec<u8> = Vec::new();
                put_len_field(1, &body, &mut envelope);
                let mut out: Vec<u8> = Vec::new();
                put_len_field(1, &envelope, &mut out);
                assert(out@ =~= intent_gossip_encoding(m.intent.data@, t));
                out
            },
        }
    }
}

/// Wraps a payload as an intent captured at `now`. The payload is not
/// inspected.
pub fn wrap(payload: Vec<u8>, now: Timestamp) -> (r: GossipMessage)
    ensures
        r.carries(payload@, now),
        now.wf() ==> r.wf(),
{
    GossipMessage::Intent(IntentMessage { intent: Intent { data: payload, timestamp: now } })
}

/// Big-endian bytes of a 32-bit length.
pub open spec fn be32(n: nat) -> Seq<u8> {
    seq![(n / 0x1000000) as u8, (n / 0x10000 % 0x100) as u8, (n / 0x100 % 0x100) as u8, (n % 0x100) as u8]
}

/// A unary RPC frame: an uncompressed flag byte, the message length as four
/// big-endian bytes, then the message.
pub open spec fn rpc_frame(msg: Seq<u8>) -> Seq<u8> {
    seq![0u8] + be32(msg.len()) + msg
}

/// Frames an encoded message for the gossip RPC channel.
pub fn frame(msg: &Vec<u8>) -> (r: Vec<u8>)
    requires
        msg@.len() <= u32::MAX,
    ensures
        r@ == rpc_frame(msg@),
{
    let n = msg.len() as u32;
    let mut out: Vec<u8> = Vec::new();
    out.push(0);
    out.push((n / 0x1000000) as u8);
    out.push((n / 0x10000 % 0x100) as u8);
    out.push((n / 0x100 % 0x100) as u8);
    out.push((n % 0x100) as u8);
    put_bytes(msg, &mut out);
    assert(out@ =~= rpc_frame(msg@));
    out
}

/// Judges the gossip service's answer from its status code (zero is success)
/// and status message.
pub fn gossip_outcome(status: u32, message: &String) -> (r: Result<(), ClientError>)
    ensures
        status == 0 ==> r is Ok,
        status != 0 ==> (r matches Err(ClientError::GossipRejected(s)) && s@ == message@),
{
    if status == 0 {
        Ok(())
    } else {
        Err(ClientError::GossipRejected(message.clone()))
    }
}

} // verus!
