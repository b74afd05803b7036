//! Session bridge and lifecycle tests: ordering, table maintenance,
//! unaddressable sends, and handshake behaviour.

use bounded_planet::{
    ConnectionId, ConnectionLifecycle, LifecycleState, NetworkError, Packet, Ping, ReceiveEvent,
    SendEvent, SessionEventListenerState, StreamType, TransportSignal,
};

fn ping_event(id: ConnectionId, t: u64) -> ReceiveEvent {
    ReceiveEvent::ReceivedPacket { connection: id, data: Packet::Ping(Ping { timestamp: t }) }
}

#[test]
fn drain_preserves_order_across_ticks() {
    let id = ConnectionId(1);
    let mut session = SessionEventListenerState::new();
    session.push_event(ReceiveEvent::Connected(id));
    for t in 1..=5u64 {
        session.push_event(ping_event(id, t));
    }
    let first = session.drain_inbound();
    assert_eq!(first.len(), 6);
    assert_eq!(first[0], ReceiveEvent::Connected(id));
    for t in 1..=5u64 {
        assert_eq!(first[t as usize], ping_event(id, t));
    }
    for t in 6..=10u64 {
        session.push_event(ping_event(id, t));
    }
    let second = session.drain_inbound();
    assert_eq!(second.len(), 5);
    for t in 6..=10u64 {
        assert_eq!(second[(t - 6) as usize], ping_event(id, t));
    }
    // A drain with nothing queued returns immediately with nothing.
    assert!(session.drain_inbound().is_empty());
}

#[test]
fn connected_allocates_and_disconnected_removes() {
    let id = ConnectionId(2);
    let mut session = SessionEventListenerState::new();
    assert!(!session.is_connected(id));
    session.push_event(ReceiveEvent::Connected(id));
    session.drain_inbound();
    assert!(session.is_connected(id));
    assert_eq!(session.connection_count(), 1);
    session.push_event(ReceiveEvent::Disconnected(id));
    session.drain_inbound();
    assert!(!session.is_connected(id));
    assert_eq!(session.connection_count(), 0);
}

#[test]
fn socket_closed_clears_every_connection() {
    let a = ConnectionId(3);
    let b = ConnectionId(4);
    let mut session = SessionEventListenerState::new();
    session.push_event(ReceiveEvent::Connected(a));
    session.push_event(ReceiveEvent::Connected(b));
    session.drain_inbound();
    assert_eq!(session.connection_count(), 2);
    session.push_event(ReceiveEvent::SocketClosed);
    session.drain_inbound();
    assert_eq!(session.connection_count(), 0);
    assert!(!session.is_connected(a));
    assert!(!session.is_connected(b));
}

#[test]
fn submit_to_unknown_connection_is_unaddressable() {
    let id = ConnectionId(5);
    let mut session = SessionEventListenerState::new();
    let cmd = SendEvent::SendPacket {
        connection: id,
        stream: StreamType::PingPong,
        data: Packet::Ping(Ping { timestamp: 1 }),
    };
    let err = session.submit_outbound(cmd).unwrap_err();
    assert_eq!(
        err,
        NetworkError::UnaddressableConnection { connection: id, stream: StreamType::PingPong }
    );
    // No transport activity: nothing was queued anywhere.
    assert!(session.pop_outbound(id).is_none());
}

#[test]
fn submitted_commands_drain_in_order() {
    let id = ConnectionId(6);
    let mut session = SessionEventListenerState::new();
    session.push_event(ReceiveEvent::Connected(id));
    session.drain_inbound();
    for t in 1..=3u64 {
        let cmd = SendEvent::SendPacket {
            connection: id,
            stream: StreamType::PingPong,
            data: Packet::Ping(Ping { timestamp: t }),
        };
        assert!(session.submit_outbound(cmd).is_ok());
    }
    for t in 1..=3u64 {
        let cmd = session.pop_outbound(id).unwrap();
        assert_eq!(
            cmd,
            SendEvent::SendPacket {
                connection: id,
                stream: StreamType::PingPong,
                data: Packet::Ping(Ping { timestamp: t }),
            }
        );
    }
    assert!(session.pop_outbound(id).is_none());
}

#[test]
fn disconnect_drops_pending_commands() {
    let id = ConnectionId(7);
    let mut session = SessionEventListenerState::new();
    session.push_event(ReceiveEvent::Connected(id));
    session.drain_inbound();
    let cmd = SendEvent::SendPacket {
        connection: id,
        stream: StreamType::TextChat,
        data: Packet::Ping(Ping { timestamp: 9 }),
    };
    assert!(session.submit_outbound(cmd).is_ok());
    session.push_event(ReceiveEvent::Disconnected(id));
    session.drain_inbound();
    assert!(session.pop_outbound(id).is_none());
    assert!(!session.is_connected(id));
}

#[test]
fn lifecycle_handshake_then_clean_close() {
    let id = ConnectionId(8);
    let mut lc = ConnectionLifecycle::new(id);
    assert_eq!(lc.state(), LifecycleState::Opening);
    let events = lc.step(TransportSignal::HandshakeCompleted);
    assert_eq!(events, vec![ReceiveEvent::Connected(id)]);
    assert_eq!(lc.state(), LifecycleState::Established);
    let events = lc.step(TransportSignal::ConnectionClosed);
    assert_eq!(events, vec![ReceiveEvent::Disconnected(id)]);
    assert_eq!(lc.state(), LifecycleState::Closed);
    // Terminal: nothing more is ever emitted.
    assert!(lc.step(TransportSignal::ConnectionLost).is_empty());
}

#[test]
fn lifecycle_lost_connection_emits_error_then_disconnect() {
    let id = ConnectionId(9);
    let mut lc = ConnectionLifecycle::new(id);
    lc.step(TransportSignal::HandshakeCompleted);
    let events = lc.step(TransportSignal::ConnectionLost);
    assert_eq!(
        events,
        vec![
            ReceiveEvent::NetworkError(NetworkError::ConnectionError { connection: id }),
            ReceiveEvent::Disconnected(id),
        ]
    );
    assert_eq!(lc.state(), LifecycleState::Closed);
}

#[test]
fn failed_handshake_never_disconnects() {
    let id = ConnectionId(10);
    let mut lc = ConnectionLifecycle::new(id);
    let events = lc.step(TransportSignal::HandshakeFailed);
    assert_eq!(
        events,
        vec![ReceiveEvent::NetworkError(NetworkError::HandshakeFailed { connection: id })]
    );
    assert_eq!(lc.state(), LifecycleState::Closed);
    // Silence afterwards: no Connected, no Disconnected, ever.
    assert!(lc.step(TransportSignal::HandshakeCompleted).is_empty());
    assert!(lc.step(TransportSignal::ConnectionClosed).is_empty());
    assert!(lc.step(TransportSignal::ConnectionLost).is_empty());
}

#[test]
fn fresh_connection_ids_differ() {
    let a = ConnectionId::new();
    let b = ConnectionId::new();
    assert_ne!(a, b);
}
