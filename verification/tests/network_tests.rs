//! The transport protocol, driven through a simulated exchange: the
//! handshake's sequence and ack numbers, keepalive, timeout, framing
//! bounds, and what gets dropped.

use dogfights::codec::{DecoderReader, EncoderWriter};
use dogfights::network::{Conn, MsgType, Reaction, SendError};
use dogfights::{CONN_TIMEOUT, MAX_PACKET_SIZE, PROTO_ID};

fn encode_i64_body(v: i64) -> Vec<u8> {
    let mut w = EncoderWriter::new();
    w.emit_i64(v);
    w.into_bytes()
}

fn decode_i64_body(bytes: Vec<u8>) -> i64 {
    let mut r = DecoderReader::new(bytes);
    r.read_i64().unwrap()
}

#[test]
fn test() {
    // A client talks to a server over a lossless in-memory "wire"; the
    // counters on both ends move exactly as the protocol promises.
    let mut client = Conn::new(0);
    let mut server = Conn::new(0);

    let body: i64 = 1234;
    let packet = client
        .encode_packet(MsgType::Normal, &encode_i64_body(body), 0)
        .unwrap();
    assert_eq!(client.local.seq.0, 1);
    assert_eq!(client.local.ack.0, 0);
    assert_eq!(client.remote.ack.0, 0);

    match server.process_packet(packet, 0) {
        Reaction::Body(b) => assert_eq!(decode_i64_body(b), body),
        _ => panic!("expected a normal body"),
    }
    assert_eq!(server.local.seq.0, 0);
    assert_eq!(server.local.ack.0, 1);
    assert_eq!(server.remote.ack.0, 0);

    let body: i64 = 4321;
    let packet = server
        .encode_packet(MsgType::Normal, &encode_i64_body(body), 0)
        .unwrap();
    assert_eq!(server.local.seq.0, 1);
    assert_eq!(server.local.ack.0, 1);
    assert_eq!(server.remote.ack.0, 0);

    match client.process_packet(packet, 0) {
        Reaction::Body(b) => assert_eq!(decode_i64_body(b), body),
        _ => panic!("expected a normal body"),
    }
    assert_eq!(client.local.seq.0, 1);
    assert_eq!(client.local.ack.0, 1);
    assert_eq!(client.remote.ack.0, 1);
}

#[test]
fn packets_open_with_the_magic() {
    let mut conn = Conn::new(0);
    let packet = conn
        .encode_packet(MsgType::Normal, &Vec::new(), 0)
        .unwrap();
    assert_eq!(&packet[..4], &[0xD0, 0x5F, 0x15, 0x75]);
    assert_eq!(PROTO_ID, 0xD05F1575);
    // Header: magic, seq = 1, ack = 0, type Normal = 2; empty body.
    assert_eq!(
        packet,
        vec![0xD0, 0x5F, 0x15, 0x75, 0, 0, 0, 1, 0, 0, 0, 0, 2]
    );
}

#[test]
fn sequence_numbers_increase_with_every_send() {
    let mut conn = Conn::new(0);
    let mut last = 0u32;
    for _ in 0..5 {
        let _ = conn
            .encode_packet(MsgType::Normal, &Vec::new(), 0)
            .unwrap();
        assert!(conn.local.seq.0 > last);
        last = conn.local.seq.0;
    }
    assert_eq!(conn.local.seq.0, 5);
}

#[test]
fn acks_never_move_backwards() {
    let mut peer = Conn::new(0);
    let mut seqs: Vec<u32> = vec![3, 1, 7, 2];
    let mut last_ack = 0u32;
    for s in seqs.drain(..) {
        let mut sender = Conn::new(0);
        for _ in 0..s {
            let _ = sender.encode_packet(MsgType::Pong, &Vec::new(), 0).unwrap();
        }
        let packet = sender
            .encode_packet(MsgType::Normal, &Vec::new(), 0)
            .unwrap();
        let _ = peer.process_packet(packet, 0);
        assert!(peer.local.ack.0 >= last_ack);
        last_ack = peer.local.ack.0;
    }
    // The largest sequence seen: 7 sends plus the final one.
    assert_eq!(peer.local.ack.0, 8);
}

#[test]
fn test_timeout() {
    // Ten full seconds of silence still pass; a millisecond more closes
    // the connection on the next send.
    let mut conn = Conn::new(0);
    assert!(conn
        .encode_packet(MsgType::Normal, &Vec::new(), CONN_TIMEOUT)
        .is_ok());
    let r = conn.encode_packet(MsgType::Normal, &Vec::new(), CONN_TIMEOUT + 1);
    assert_eq!(r, Err(SendError::Closed));

    // Hearing from the peer resets the clock.
    let mut conn = Conn::new(0);
    let mut peer = Conn::new(5000);
    let ping = peer.encode_packet(MsgType::Ping, &Vec::new(), 5000).unwrap();
    assert!(matches!(conn.process_packet(ping, 5000), Reaction::ReplyPong));
    assert!(conn
        .encode_packet(MsgType::Normal, &Vec::new(), 15000)
        .is_ok());
}

#[test]
fn pings_and_pongs_touch_only_the_record() {
    let mut a = Conn::new(0);
    let mut b = Conn::new(0);
    let ping = a.encode_packet(MsgType::Ping, &Vec::new(), 0).unwrap();
    assert!(matches!(b.process_packet(ping, 42), Reaction::ReplyPong));
    assert_eq!(b.remote.received, 42);
    let pong = b.encode_packet(MsgType::Pong, &Vec::new(), 42).unwrap();
    assert!(matches!(a.process_packet(pong, 50), Reaction::KeepAlive));
    assert_eq!(a.remote.received, 50);
    assert_eq!(a.local.ack.0, 1);
}

#[test]
fn foreign_or_garbled_datagrams_are_dropped() {
    let mut conn = Conn::new(0);
    let before = conn;

    // Wrong magic.
    let mut w = EncoderWriter::new();
    w.emit_u32(0xDEADBEEF);
    w.emit_u32(9);
    w.emit_u32(9);
    w.emit_u8(2);
    assert!(matches!(
        conn.process_packet(w.into_bytes(), 99),
        Reaction::Dropped
    ));
    assert_eq!(conn, before);

    // Too short to hold a header.
    assert!(matches!(
        conn.process_packet(vec![0xD0, 0x5F], 99),
        Reaction::Dropped
    ));
    assert_eq!(conn, before);

    // A message type past the last variant.
    let mut w = EncoderWriter::new();
    w.emit_u32(PROTO_ID);
    w.emit_u32(1);
    w.emit_u32(0);
    w.emit_u8(3);
    assert!(matches!(
        conn.process_packet(w.into_bytes(), 99),
        Reaction::Dropped
    ));
    assert_eq!(conn, before);
}

#[test]
fn datagrams_fit_the_size_bound() {
    let mut conn = Conn::new(0);
    let body = vec![0u8; MAX_PACKET_SIZE - 13];
    let packet = conn.encode_packet(MsgType::Normal, &body, 0).unwrap();
    assert_eq!(packet.len(), MAX_PACKET_SIZE);

    let body = vec![0u8; MAX_PACKET_SIZE - 12];
    let r = conn.encode_packet(MsgType::Normal, &body, 0);
    assert_eq!(r, Err(SendError::TooBig));
}
