//! Frame layer tests: length prefixes, chunked arrival, truncation, and the
//! read-task pump.

use bounded_planet::{
    handle_stream_chunk, send_frame, try_send_frame, ConnectionId, FrameReceiver, Packet, Ping,
    Pong, ReadError, ReceiveEvent, RecvError, StreamSenders, StreamType,
};

#[test]
fn send_frame_exact_bytes() {
    let frame = send_frame(&Packet::Ping(Ping { timestamp: 2 }));
    // Nine payload bytes behind a four-byte big-endian length prefix.
    assert_eq!(frame, vec![0, 0, 0, 9, 3, 0, 0, 0, 0, 0, 0, 0, 2]);
}

#[test]
fn frame_round_trip_single_chunk() {
    let p = Packet::Pong(Pong { timestamp: 100 });
    let mut rx = FrameReceiver::new();
    rx.feed(&send_frame(&p));
    assert_eq!(rx.poll_packet().unwrap().unwrap(), p);
    assert!(rx.poll_packet().is_none());
    assert!(rx.finish().is_ok());
}

#[test]
fn frame_round_trip_byte_by_byte() {
    let p = Packet::Ping(Ping { timestamp: 0xdeadbeef });
    let frame = send_frame(&p);
    let mut rx = FrameReceiver::new();
    for (i, b) in frame.iter().enumerate() {
        if i + 1 < frame.len() {
            rx.feed(&[*b]);
            assert!(rx.poll_packet().is_none(), "decoded before the frame was complete");
        } else {
            rx.feed(&[*b]);
        }
    }
    assert_eq!(rx.poll_packet().unwrap().unwrap(), p);
    assert!(rx.finish().is_ok());
}

#[test]
fn two_frames_in_one_chunk() {
    let a = Packet::Ping(Ping { timestamp: 1 });
    let b = Packet::Pong(Pong { timestamp: 2 });
    let mut bytes = send_frame(&a);
    bytes.extend_from_slice(&send_frame(&b));
    let mut rx = FrameReceiver::new();
    rx.feed(&bytes);
    assert_eq!(rx.poll_packet().unwrap().unwrap(), a);
    assert_eq!(rx.poll_packet().unwrap().unwrap(), b);
    assert!(rx.poll_packet().is_none());
}

#[test]
fn truncated_frame_is_a_read_failure() {
    // Declares five payload bytes but the stream ends after two.
    let mut rx = FrameReceiver::new();
    rx.feed(&[0, 0, 0, 5, 1, 2]);
    assert!(rx.poll_packet().is_none());
    assert_eq!(
        rx.finish(),
        Err(RecvError::ReadExactError(ReadError::EndOfStream))
    );
}

#[test]
fn short_prefix_is_a_read_failure() {
    let mut rx = FrameReceiver::new();
    rx.feed(&[0, 0]);
    assert!(rx.poll_packet().is_none());
    assert_eq!(
        rx.finish(),
        Err(RecvError::ReadExactError(ReadError::EndOfStream))
    );
}

#[test]
fn corrupt_payload_is_a_decode_failure() {
    // A complete frame whose payload is no valid packet.
    let mut rx = FrameReceiver::new();
    rx.feed(&[0, 0, 0, 1, 200]);
    match rx.poll_packet() {
        Some(Err(_)) => {}
        other => panic!("expected a decode failure, got {:?}", other),
    }
    assert!(rx.finish().is_ok());
}

#[test]
fn stream_chunk_pump_orders_packets() {
    let id = ConnectionId(11);
    let a = Packet::Ping(Ping { timestamp: 1 });
    let b = Packet::Ping(Ping { timestamp: 2 });
    let mut bytes = send_frame(&a);
    bytes.extend_from_slice(&send_frame(&b));
    let mut rx = FrameReceiver::new();
    let (events, alive) = handle_stream_chunk(id, &mut rx, &bytes);
    assert!(alive);
    assert_eq!(
        events,
        vec![
            ReceiveEvent::ReceivedPacket { connection: id, data: a },
            ReceiveEvent::ReceivedPacket { connection: id, data: b },
        ]
    );
}

#[test]
fn stream_chunk_pump_stops_on_malformed_frame() {
    let id = ConnectionId(12);
    let mut rx = FrameReceiver::new();
    let (events, alive) = handle_stream_chunk(id, &mut rx, &[0, 0, 0, 1, 200]);
    assert!(!alive);
    assert_eq!(events.len(), 1);
    match &events[0] {
        ReceiveEvent::NetworkError(_) => {}
        other => panic!("expected a network error event, got {:?}", other),
    }
}

#[test]
fn stream_senders_open_each_kind_once() {
    let mut table: StreamSenders<u32> = StreamSenders::new();
    assert!(table.get(StreamType::PingPong).is_none());
    assert!(table.get(StreamType::TextChat).is_none());
    table.insert(StreamType::PingPong, 7);
    assert_eq!(table.get(StreamType::PingPong), Some(&7));
    assert!(table.get(StreamType::TextChat).is_none());
    table.insert(StreamType::TextChat, 8);
    assert_eq!(table.get(StreamType::PingPong), Some(&7));
    assert_eq!(table.get(StreamType::TextChat), Some(&8));
    assert!(table.get(StreamType::WorldTileData).is_none());
}

#[test]
fn try_send_frame_matches_send_frame() {
    let p = Packet::Ping(Ping { timestamp: 77 });
    assert_eq!(try_send_frame(&p).unwrap(), send_frame(&p));
}
