//! The connection-level protocol: sequence numbers, acks, keepalive
//! bookkeeping, timeout, and the framing of datagrams.
//!
//! Everything here is a pure function of the connection record, the
//! datagram bytes, and the caller's clock; the sockets that carry the
//! datagrams live with the callers.

use vstd::prelude::*;

use crate::codec::{
    dec_u32, dec_u8, enc_u32, enc_u8, lemma_concat_skip, lemma_dec_enc_u32, lemma_dec_enc_u8,
    DecoderReader, DecodingResult, EncoderWriter,
};
use crate::{CONN_TIMEOUT, MAX_PACKET_SIZE, PROTO_ID};

verus! {

/// A packet counter.
#[derive(PartialEq, Eq, Structural, Clone, Copy, Debug)]
pub struct SeqNum(pub u32);

/// The larger of two counters.
pub open spec fn more_recent_of(x: SeqNum, y: SeqNum) -> SeqNum {
    if x.0 > y.0 {
        x
    } else {
        y
    }
}

impl SeqNum {
    /// Step the counter.  Callers keep it below the wrap-around point;
    /// redefining recency across a wrap is left open.
    pub fn bump(&mut self)
        requires
            old(self).0 < u32::MAX,
        ensures
            final(self).0 == old(self).0 + 1,
    {
        self.0 = self.0 + 1;
    }

    /// Which of the two counters is the more recent.
    pub fn more_recent(x: SeqNum, y: SeqNum) -> (r: SeqNum)
        ensures
            r == more_recent_of(x, y),
    {
        if x.0 > y.0 {
            x
        } else {
            y
        }
    }
}

/// What we know about our own half of a connection.
#[derive(PartialEq, Eq, Structural, Clone, Copy, Debug)]
pub struct Local {
    /// Our own packet counter.
    pub seq: SeqNum,
    /// The most recent remote packet we have seen.
    pub ack: SeqNum,
}

/// What we know about the peer's half of a connection.
#[derive(PartialEq, Eq, Structural, Clone, Copy, Debug)]
pub struct Remote {
    /// The most recent of our packets the peer has acknowledged.
    pub ack: SeqNum,
    /// When we last heard from the peer, in the caller's clock
    /// milliseconds.
    pub received: u32,
}

/// What kind of message a datagram carries.
#[derive(PartialEq, Eq, Structural, Clone, Copy, Debug)]
pub enum MsgType {
    Ping,
    Pong,
    Normal,
}

/// The fixed prefix of every datagram.
#[derive(PartialEq, Eq, Structural, Clone, Copy, Debug)]
pub struct Header {
    pub proto_id: u32,
    pub local: Local,
    pub msg_type: MsgType,
}

impl Header {
    /// A header for one of our packets: it carries the protocol magic
    /// and our counters.
    pub fn new(local: Local, msg_type: MsgType) -> (r: Header)
        ensures
            r == (Header { proto_id: PROTO_ID, local, msg_type }),
    {
        Header { proto_id: PROTO_ID, local, msg_type }
    }
}

// ---------------------------------------------------------------------
// Headers on the wire.

pub open spec fn msg_type_tag(v: MsgType) -> u8 {
    match v {
        MsgType::Ping => 0,
        MsgType::Pong => 1,
        MsgType::Normal => 2,
    }
}

pub open spec fn enc_header(h: Header) -> Seq<u8> {
    enc_u32(h.proto_id) + enc_u32(h.local.seq.0) + enc_u32(h.local.ack.0) + enc_u8(
        msg_type_tag(h.msg_type),
    )
}

/// The number of bytes a header occupies.
pub const HEADER_SIZE: usize = 13;

pub open spec fn dec_msg_type(tag: u8) -> Option<MsgType> {
    if tag == 0 {
        Some(MsgType::Ping)
    } else if tag == 1 {
        Some(MsgType::Pong)
    } else if tag == 2 {
        Some(MsgType::Normal)
    } else {
        None
    }
}

pub open spec fn dec_header(s: Seq<u8>) -> Option<(Header, int)> {
    match dec_u32(s) {
        None => None,
        Some((proto_id, n1)) => match dec_u32(s.skip(n1)) {
            None => None,
            Some((seq, n2)) => match dec_u32(s.skip(n1 + n2)) {
                None => None,
                Some((ack, n3)) => match dec_u8(s.skip(n1 + n2 + n3)) {
                    None => None,
                    Some((tag, n4)) => match dec_msg_type(tag) {
                        None => None,
                        Some(msg_type) => Some(
                            (
                                Header {
                                    proto_id,
                                    local: Local { seq: SeqNum(seq), ack: SeqNum(ack) },
                                    msg_type,
                                },
                                n1 + n2 + n3 + n4,
                            ),
                        ),
                    },
                },
            },
        },
    }
}

#[verifier::rlimit(50)]
pub proof fn lemma_dec_enc_header(h: Header, rest: Seq<u8>)
    ensures
        dec_header(enc_header(h) + rest) == Some((h, HEADER_SIZE as int)),
{
    let s = enc_header(h) + rest;
    let r1 = enc_u32(h.local.seq.0) + (enc_u32(h.local.ack.0) + (enc_u8(msg_type_tag(h.msg_type))
        + rest));
    assert(s =~= enc_u32(h.proto_id) + r1);
    lemma_dec_enc_u32(h.proto_id, r1);
    lemma_concat_skip(enc_u32(h.proto_id), r1);
    let r2 = enc_u32(h.local.ack.0) + (enc_u8(msg_type_tag(h.msg_type)) + rest);
    lemma_dec_enc_u32(h.local.seq.0, r2);
    lemma_concat_skip(enc_u32(h.local.seq.0), r2);
    assert(s.skip(8int) =~= r2);
    let r3 = enc_u8(msg_type_tag(h.msg_type)) + rest;
    lemma_dec_enc_u32(h.local.ack.0, r3);
    lemma_concat_skip(enc_u32(h.local.ack.0), r3);
    assert(s.skip(12int) =~= r3);
    lemma_dec_enc_u8(msg_type_tag(h.msg_type), rest);
}

impl Header {
    pub fn encode(&self, w: &mut EncoderWriter)
        ensures
            final(w)@ == old(w)@ + enc_header(*self),
    {
        w.emit_u32(self.proto_id);
        w.emit_u32(self.local.seq.0);
        w.emit_u32(self.local.ack.0);
        let tag: u8 = match self.msg_type {
            MsgType::Ping => 0,
            MsgType::Pong => 1,
            MsgType::Normal => 2,
        };
        w.emit_u8(tag);
        assert(w@ =~= old(w)@ + enc_header(*self));
    }

    pub fn decode(r: &mut DecoderReader) -> (res: DecodingResult<Header>)
        ensures
            match dec_header(old(r)@) {
                Some(d) => res == DecodingResult::<Header>::Ok(d.0) && final(r)@ == old(
                    r,
                )@.skip(d.1),
                None => res.is_err(),
            },
    {
        let proto_id = match r.read_u32() {
            Ok(v) => v,
            Err(e) => {
                return Err(e);
            },
        };
        let seq = match r.read_u32() {
            Ok(v) => v,
            Err(e) => {
                return Err(e);
            },
        };
        let ack = match r.read_u32() {
            Ok(v) => v,
            Err(e) => {
                return Err(e);
            },
        };
        let tag = match r.read_u8() {
            Ok(v) => v,
            Err(e) => {
                return Err(e);
            },
        };
        let msg_type = if tag == 0 {
            MsgType::Ping
        } else if tag == 1 {
            MsgType::Pong
        } else if tag == 2 {
            MsgType::Normal
        } else {
            return Err(
                crate::codec::DecodingError::InvalidBytes(
                    crate::codec::InvalidBytes { desc: "out of bounds tag when reading enum variant" },
                ),
            );
        };
        proof {
            if dec_header(old(r)@) is Some {
                assert(old(r)@.skip(4).skip(4) =~= old(r)@.skip(8));
                assert(old(r)@.skip(8).skip(4) =~= old(r)@.skip(12));
                assert(old(r)@.skip(12).skip(1) =~= old(r)@.skip(13));
            }
        }
        Ok(Header { proto_id, local: Local { seq: SeqNum(seq), ack: SeqNum(ack) }, msg_type })
    }
}

// ---------------------------------------------------------------------
// The per-peer connection record.

/// Transport state for one peer: our counters and what we have heard.
#[derive(PartialEq, Eq, Structural, Clone, Copy, Debug)]
pub struct Conn {
    pub local: Local,
    pub remote: Remote,
}

/// How `tickle` moves a connection record: acks only ever grow, the
/// send counter stands still, and the last-heard clock is refreshed.
pub open spec fn tickled(pre: Conn, post: Conn, remote_local: Local, now_ms: u32) -> bool {
    &&& post.local.seq == pre.local.seq
    &&& post.local.ack == more_recent_of(pre.local.ack, remote_local.seq)
    &&& post.remote.ack == more_recent_of(pre.remote.ack, remote_local.ack)
    &&& post.remote.received == now_ms
}

impl Conn {
    /// A fresh record: counters at zero, the peer counted as heard just
    /// now.
    pub fn new(now_ms: u32) -> (r: Conn)
        ensures
            r == (Conn {
                local: Local { seq: SeqNum(0), ack: SeqNum(0) },
                remote: Remote { ack: SeqNum(0), received: now_ms },
            }),
    {
        Conn {
            local: Local { seq: SeqNum(0), ack: SeqNum(0) },
            remote: Remote { ack: SeqNum(0), received: now_ms },
        }
    }

    /// Fold a freshly heard header into the record.  Both acks are
    /// non-decreasing across any number of tickles.
    pub fn tickle(&mut self, remote_local: &Local, now_ms: u32)
        ensures
            tickled(*old(self), *final(self), *remote_local, now_ms),
            final(self).local.ack.0 >= old(self).local.ack.0,
            final(self).remote.ack.0 >= old(self).remote.ack.0,
    {
        self.local.ack = SeqNum::more_recent(self.local.ack, remote_local.seq);
        self.remote.received = now_ms;
        self.remote.ack = SeqNum::more_recent(self.remote.ack, remote_local.ack);
    }
}

// ---------------------------------------------------------------------
// The send path.

/// Why a packet could not be composed.
#[derive(PartialEq, Eq, Structural, Clone, Copy, Debug)]
pub enum SendError {
    /// Ten seconds of silence from the peer: the connection is closed.
    Closed,
    /// Header and body would overrun the datagram size bound.
    TooBig,
}

impl Conn {
    /// Compose the next outgoing datagram: check the peer has not gone
    /// silent, step the send counter, and frame header plus body.  Each
    /// composition past the timeout check steps the counter by exactly
    /// one and stamps the packet with the stepped value, so successive
    /// packets of a connection carry strictly increasing sequence
    /// numbers.  The caller sends the bytes and supplies a monotone
    /// millisecond clock.
    pub fn encode_packet(&mut self, msg_type: MsgType, body: &Vec<u8>, now_ms: u32) -> (res:
        Result<Vec<u8>, SendError>)
        requires
            now_ms >= old(self).remote.received,
            old(self).local.seq.0 < u32::MAX,
        ensures
            now_ms - old(self).remote.received > CONN_TIMEOUT ==> res == Err::<
                Vec<u8>,
                SendError,
            >(SendError::Closed) && *final(self) == *old(self),
            now_ms - old(self).remote.received <= CONN_TIMEOUT ==> {
                &&& final(self).local.seq.0 == old(self).local.seq.0 + 1
                &&& final(self).local.ack == old(self).local.ack
                &&& final(self).remote == old(self).remote
                &&& body@.len() + HEADER_SIZE <= MAX_PACKET_SIZE ==> (res matches Ok(p) && p@
                    == enc_header(
                    Header {
                        proto_id: PROTO_ID,
                        local: final(self).local,
                        msg_type,
                    },
                ) + body@ && p@.len() <= MAX_PACKET_SIZE)
                &&& body@.len() + HEADER_SIZE > MAX_PACKET_SIZE ==> res == Err::<
                    Vec<u8>,
                    SendError,
                >(SendError::TooBig)
            },
    {
        if now_ms - self.remote.received > CONN_TIMEOUT {
            return Err(SendError::Closed);
        }
        self.local.seq.bump();
        if body.len() > MAX_PACKET_SIZE - HEADER_SIZE {
            return Err(SendError::TooBig);
        }
        let header = Header::new(self.local, msg_type);
        let mut w = EncoderWriter::new();
        header.encode(&mut w);
        let mut i: usize = 0;
        let n = body.len();
        while i < n
            invariant
                n == body@.len(),
                i <= n,
                w@ == enc_header(
                    Header { proto_id: PROTO_ID, local: self.local, msg_type },
                ) + body@.take(i as int),
            decreases n - i,
        {
            w.emit_u8(body[i]);
            proof {
                assert(body@.take(i as int).push(body@[i as int]) =~= body@.take(i as int + 1));
                assert(w@ =~= enc_header(
                    Header { proto_id: PROTO_ID, local: self.local, msg_type },
                ) + body@.take(i as int + 1));
            }
            i = i + 1;
        }
        proof {
            assert(body@.take(n as int) =~= body@);
        }
        Ok(w.into_bytes())
    }
}

// ---------------------------------------------------------------------
// The receive path.

/// What a freshly received datagram asks of the caller.
#[derive(PartialEq, Clone, Debug)]
pub enum Reaction {
    /// Malformed bytes or a foreign magic: drop it, touch nothing.
    Dropped,
    /// The peer pinged: answer with a pong.
    ReplyPong,
    /// The peer ponged: the refreshed record is the whole effect.
    KeepAlive,
    /// A normal message: its body bytes.
    Body(Vec<u8>),
}

/// What a datagram means: its header, and its body bytes, provided the
/// magic matches.
pub open spec fn dec_packet(s: Seq<u8>) -> Option<(Header, Seq<u8>)> {
    match dec_header(s) {
        None => None,
        Some((h, n)) => if h.proto_id == PROTO_ID {
            Some((h, s.skip(n)))
        } else {
            None
        },
    }
}

impl Conn {
    /// Fold one received datagram into the record and say what to do
    /// with it: drop it unread, answer a ping, or hand the body out.
    /// Only a datagram that parses and carries the right magic touches
    /// the record.
    pub fn process_packet(&mut self, datagram: Vec<u8>, now_ms: u32) -> (r: Reaction)
        ensures
            match dec_packet(datagram@) {
                None => r == Reaction::Dropped && *final(self) == *old(self),
                Some((h, body)) => {
                    &&& tickled(*old(self), *final(self), h.local, now_ms)
                    &&& (h.msg_type is Ping ==> r == Reaction::ReplyPong)
                    &&& (h.msg_type is Pong ==> r == Reaction::KeepAlive)
                    &&& (h.msg_type is Normal ==> (r matches Reaction::Body(b) && b@ == body))
                },
            },
    {
        let mut reader = DecoderReader::new(datagram);
        let header = match Header::decode(&mut reader) {
            Ok(h) => h,
            Err(_) => {
                return Reaction::Dropped;
            },
        };
        if header.proto_id != PROTO_ID {
            return Reaction::Dropped;
        }
        self.tickle(&header.local, now_ms);
        match header.msg_type {
            MsgType::Ping => Reaction::ReplyPong,
            MsgType::Pong => Reaction::KeepAlive,
            MsgType::Normal => {
                let body = reader.into_rest();
                Reaction::Body(body)
            },
        }
    }
}

} // verus!
