//! The network session layer of the Bounded Planet game: a packet codec with a
//! length-prefixed wire format, a per-connection stream multiplexer, a
//! connection lifecycle state machine, and the session bridge that turns
//! concurrent network activity into one ordered, tick-polled event queue.

pub mod components;
pub mod events;
pub mod id;
pub mod mesh;
pub mod packets;
pub mod serialization;
pub mod streams;
pub mod systems;
pub mod wire;

pub use components::Connection;
pub use events::{NetworkError, ReceiveEvent, SendEvent};
pub use id::ConnectionId;
pub use mesh::{MeshData, UvBits, VertexBits};
pub use packets::{
    AuthRequest, AuthResponse, Packet, Ping, Pong, StreamType, TextChat, WorldTileData,
    WorldTileDataRequest, STREAM_TYPE_COUNT,
};
pub use serialization::{decode, encode, DecodeError};
pub use streams::{
    send_frame, try_send_frame, FrameReceiver, ReadError, RecvError, SendError, StreamSenders,
    WriteError,
};
pub use systems::{
    handle_stream_chunk, ConnectionLifecycle, LifecycleState, SessionEventListenerState,
    TransportSignal,
};
