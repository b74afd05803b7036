//! End-to-end scenario over an in-memory wire: connect, send a Ping on the
//! control stream, and observe the Pong with the same timestamp coming back —
//! codec, framing, multiplexing, and ordering working together.

use bounded_planet::{
    handle_stream_chunk, send_frame, ConnectionId, ConnectionLifecycle, FrameReceiver, Packet,
    Ping, Pong, ReceiveEvent, SendEvent, SessionEventListenerState, StreamSenders, StreamType,
    TransportSignal,
};

/// One endpoint of the session layer, with the pieces its background tasks
/// would own: the bridge, and per connection a frame receiver per incoming
/// stream and a multiplexer table for outgoing streams.
struct Endpoint {
    session: SessionEventListenerState,
    mux: StreamSenders<u32>,
    rx: FrameReceiver,
}

impl Endpoint {
    fn new() -> Endpoint {
        Endpoint {
            session: SessionEventListenerState::new(),
            mux: StreamSenders::new(),
            rx: FrameReceiver::new(),
        }
    }

    /// The write task: drain this connection's outbound queue, opening a
    /// transport stream per kind on first use, and put the frames on the wire.
    fn pump_sends(&mut self, id: ConnectionId, next_stream_handle: &mut u32) -> Vec<u8> {
        let mut wire = Vec::new();
        while let Some(SendEvent::SendPacket { stream, data, .. }) = self.session.pop_outbound(id)
        {
            if self.mux.get(stream).is_none() {
                let handle = *next_stream_handle;
                *next_stream_handle += 1;
                self.mux.insert(stream, handle);
            }
            let _handle = self.mux.get(stream).unwrap();
            wire.extend_from_slice(&send_frame(&data));
        }
        wire
    }

    /// The read task: pump received bytes into events for the bridge.
    fn pump_reads(&mut self, id: ConnectionId, bytes: &[u8]) {
        let (events, alive) = handle_stream_chunk(id, &mut self.rx, bytes);
        assert!(alive);
        for e in events {
            self.session.push_event(e);
        }
    }
}

#[test]
fn ping_pong_session() {
    // The server accepts a connection; both sides observe it as established.
    let id = ConnectionId::new();
    let mut server_lc = ConnectionLifecycle::new(id);
    let mut client_lc = ConnectionLifecycle::new(id);
    let mut server = Endpoint::new();
    let mut client = Endpoint::new();
    let mut handles: u32 = 0;

    for e in client_lc.step(TransportSignal::HandshakeCompleted) {
        client.session.push_event(e);
    }
    for e in server_lc.step(TransportSignal::HandshakeCompleted) {
        server.session.push_event(e);
    }
    let client_events = client.session.drain_inbound();
    assert_eq!(client_events, vec![ReceiveEvent::Connected(id)]);
    let server_events = server.session.drain_inbound();
    assert_eq!(server_events, vec![ReceiveEvent::Connected(id)]);

    // The client sends Ping{100} on the control stream.
    client
        .session
        .submit_outbound(SendEvent::SendPacket {
            connection: id,
            stream: StreamType::PingPong,
            data: Packet::Ping(Ping { timestamp: 100 }),
        })
        .unwrap();
    let wire = client.pump_sends(id, &mut handles);
    assert!(!wire.is_empty());

    // The server's read task sees the ping and the host responds with a pong
    // carrying the same timestamp.
    server.pump_reads(id, &wire);
    let server_events = server.session.drain_inbound();
    let mut responded = false;
    for e in &server_events {
        if let ReceiveEvent::ReceivedPacket { connection, data: Packet::Ping(ping) } = e {
            assert_eq!(*connection, id);
            server
                .session
                .submit_outbound(SendEvent::SendPacket {
                    connection: id,
                    stream: StreamType::PingPong,
                    data: Packet::Pong(Pong { timestamp: ping.timestamp }),
                })
                .unwrap();
            responded = true;
        }
    }
    assert!(responded);

    // The pong travels back and the client observes it within the session.
    let wire = server.pump_sends(id, &mut handles);
    client.pump_reads(id, &wire);
    let client_events = client.session.drain_inbound();
    assert_eq!(
        client_events,
        vec![ReceiveEvent::ReceivedPacket {
            connection: id,
            data: Packet::Pong(Pong { timestamp: 100 }),
        }]
    );
}
