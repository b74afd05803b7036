//! The events that flow between the network tasks and the host loop.
//!
//! Every failure is a value on the same ordered channel as the data, tagged
//! with the connection (and stream kind, where one applies) it came from;
//! nothing in the session layer panics on remote misbehaviour.

use vstd::prelude::*;

use crate::id::ConnectionId;
use crate::packets::{Packet, PacketView, StreamType};
use crate::streams::{RecvError, SendError};

verus! {

/// An error generated by the network, tagged with where it originated.
#[derive(Debug, Clone, Copy, Eq, PartialEq, Structural)]
pub enum NetworkError {
    /// The transport handshake failed: the connection never opened, and no
    /// Connected or Disconnected event is ever produced for it.
    HandshakeFailed { connection: ConnectionId },
    /// Receiving a packet from the given connection failed.
    ReceiveError { connection: ConnectionId, err: RecvError },
    /// Sending a packet on a stream of the given connection failed.
    SendError { connection: ConnectionId, stream: StreamType, err: SendError },
    /// An established connection was lost to a transport error.
    ConnectionError { connection: ConnectionId },
    /// An outbound command named a connection with no table entry; the
    /// command was dropped without any transport activity.
    UnaddressableConnection { connection: ConnectionId, stream: StreamType },
}

/// An event generated by the network.
#[derive(Debug, Clone, PartialEq)]
pub enum ReceiveEvent {
    /// A new connection has opened.
    Connected(ConnectionId),
    /// A packet has arrived in a stream.
    ReceivedPacket { connection: ConnectionId, data: Packet },
    /// A connection has closed.
    Disconnected(ConnectionId),
    /// The network socket has closed.
    SocketClosed,
    /// An error occurred from the socket.
    NetworkError(NetworkError),
}

/// Mathematical view of a `ReceiveEvent`.
pub enum ReceiveEventView {
    Connected(ConnectionId),
    ReceivedPacket { connection: ConnectionId, data: PacketView },
    Disconnected(ConnectionId),
    SocketClosed,
    NetworkError(NetworkError),
}

impl View for ReceiveEvent {
    type V = ReceiveEventView;

    open spec fn view(&self) -> ReceiveEventView {
        match self {
            ReceiveEvent::Connected(id) => ReceiveEventView::Connected(*id),
            ReceiveEvent::ReceivedPacket { connection, data } => ReceiveEventView::ReceivedPacket {
                connection: *connection,
                data: data@,
            },
            ReceiveEvent::Disconnected(id) => ReceiveEventView::Disconnected(*id),
            ReceiveEvent::SocketClosed => ReceiveEventView::SocketClosed,
            ReceiveEvent::NetworkError(e) => ReceiveEventView::NetworkError(*e),
        }
    }
}

/// An event to send to the network.
#[derive(Debug, Clone, PartialEq)]
pub enum SendEvent {
    /// Send a packet through a specific stream on a specific connection.
    SendPacket { connection: ConnectionId, stream: StreamType, data: Packet },
}

/// Mathematical view of a `SendEvent`.
pub enum SendEventView {
    SendPacket { connection: ConnectionId, stream: StreamType, data: PacketView },
}

impl View for SendEvent {
    type V = SendEventView;

    open spec fn view(&self) -> SendEventView {
        match self {
            SendEvent::SendPacket { connection, stream, data } => SendEventView::SendPacket {
                connection: *connection,
                stream: *stream,
                data: data@,
            },
        }
    }
}

impl SendEvent {
    /// The connection this command is addressed to.
    pub fn get_connection(&self) -> (r: ConnectionId)
        ensures
            r == self@.spec_connection(),
    {
        match self {
            SendEvent::SendPacket { connection, .. } => *connection,
        }
    }

    /// The stream kind this command names.
    pub fn get_stream(&self) -> (r: StreamType)
        ensures
            r == self@.spec_stream(),
    {
        match self {
            SendEvent::SendPacket { stream, .. } => *stream,
        }
    }
}

impl SendEventView {
    /// The connection this command is addressed to.
    pub open spec fn spec_connection(self) -> ConnectionId {
        match self {
            SendEventView::SendPacket { connection, .. } => connection,
        }
    }

    /// The stream kind this command names.
    pub open spec fn spec_stream(self) -> StreamType {
        match self {
            SendEventView::SendPacket { stream, .. } => stream,
        }
    }
}

/// The views of a sequence of inbound events, in the same order.
pub open spec fn receive_events_view(es: Seq<ReceiveEvent>) -> Seq<ReceiveEventView> {
    es.map_values(|e: ReceiveEvent| e@)
}

/// The views of a sequence of outbound commands, in the same order.
pub open spec fn send_events_view(es: Seq<SendEvent>) -> Seq<SendEventView> {
    es.map_values(|e: SendEvent| e@)
}

} // verus!
