//! The packet union of the network protocol, the closed set of logical stream
//! kinds, and the mathematical views of both.
//!
//! Terrain tile payloads carry `f32` coordinates on the wire; inside the
//! session layer each coordinate is held as its 32-bit pattern (`u32`), which
//! is exactly what is framed and transmitted.  The host converts with
//! `f32::to_bits` / `f32::from_bits` at the boundary.

use vstd::prelude::*;

use crate::mesh::{MeshData, MeshDataView};

verus! {

/// Uniquely identifies a single unidirectional stream of data within a single
/// network connection.  A closed set: each variant has a stable table index,
/// and the number of streams per connection is bounded by the variant count.
#[derive(Debug, Clone, Copy, Eq, Hash, PartialEq, Structural)]
pub enum StreamType {
    TextChat,
    PingPong,
    WorldTileData,
}

/// The number of `StreamType` variants, and so the most transport streams the
/// multiplexer will ever open on one connection.
pub const STREAM_TYPE_COUNT: usize = 3;

impl StreamType {
    /// The stable multiplexer table index of this stream kind.
    pub open spec fn spec_index(self) -> int {
        match self {
            StreamType::TextChat => 0,
            StreamType::PingPong => 1,
            StreamType::WorldTileData => 2,
        }
    }

    /// The stable multiplexer table index of this stream kind.
    pub fn index(self) -> (i: usize)
        ensures
            i == self.spec_index(),
            i < STREAM_TYPE_COUNT,
    {
        match self {
            StreamType::TextChat => 0,
            StreamType::PingPong => 1,
            StreamType::WorldTileData => 2,
        }
    }
}

/// Ping packet, expects a returned `Pong` response.
#[derive(Debug, Clone, Copy, Eq, PartialEq, Structural)]
pub struct Ping {
    pub timestamp: u64,
}

/// Pong packet, contains the timestamp of the `Ping` packet it responds to.
#[derive(Debug, Clone, Copy, Eq, PartialEq, Structural)]
pub struct Pong {
    pub timestamp: u64,
}

/// Authentication information sent from the client to the server.
#[derive(Debug, Clone, PartialEq)]
pub struct AuthRequest {
    pub username: String,
    pub password: String,
}

/// Authentication response sent from the server to the client.
#[derive(Debug, Clone, Copy, Eq, PartialEq, Structural)]
pub enum AuthResponse {
    Accepted,
    IncorrectUsername,
    IncorrectPassword,
}

/// A text chat message.
#[derive(Debug, Clone, PartialEq)]
pub struct TextChat {
    pub index: u64,
    pub message: String,
}

/// World tile data request packet, sent by the client to the server.
#[derive(Debug, Clone, Copy, Eq, PartialEq, Structural)]
pub struct WorldTileDataRequest {
    pub x: u32,
    pub y: u32,
    pub lod: u8,
}

/// World tile data packet, requested by the client.
#[derive(Debug, Clone, PartialEq)]
pub struct WorldTileData {
    pub mesh_data: MeshData,
}

/// Enum of all packets in the network protocol.
#[derive(Debug, Clone, PartialEq)]
pub enum Packet {
    AuthRequest(AuthRequest),
    AuthResponse(AuthResponse),
    TextChat(TextChat),
    Ping(Ping),
    Pong(Pong),
    WorldTileDataRequest(WorldTileDataRequest),
    WorldTileData(WorldTileData),
}

/// Mathematical view of an `AuthRequest`.
pub struct AuthRequestView {
    pub username: Seq<char>,
    pub password: Seq<char>,
}

/// Mathematical view of a `TextChat`.
pub struct TextChatView {
    pub index: u64,
    pub message: Seq<char>,
}

/// Mathematical view of a `WorldTileData`.
pub struct WorldTileDataView {
    pub mesh_data: MeshDataView,
}

/// Mathematical view of a `Packet`: the same union over views of the payloads.
pub enum PacketView {
    AuthRequest(AuthRequestView),
    AuthResponse(AuthResponse),
    TextChat(TextChatView),
    Ping(Ping),
    Pong(Pong),
    WorldTileDataRequest(WorldTileDataRequest),
    WorldTileData(WorldTileDataView),
}

impl View for AuthRequest {
    type V = AuthRequestView;

    open spec fn view(&self) -> AuthRequestView {
        AuthRequestView { username: self.username@, password: self.password@ }
    }
}

impl View for TextChat {
    type V = TextChatView;

    open spec fn view(&self) -> TextChatView {
        TextChatView { index: self.index, message: self.message@ }
    }
}

impl View for WorldTileData {
    type V = WorldTileDataView;

    open spec fn view(&self) -> WorldTileDataView {
        WorldTileDataView { mesh_data: self.mesh_data@ }
    }
}

impl View for Packet {
    type V = PacketView;

    open spec fn view(&self) -> PacketView {
        match self {
            Packet::AuthRequest(p) => PacketView::AuthRequest(p@),
            Packet::AuthResponse(p) => PacketView::AuthResponse(*p),
            Packet::TextChat(p) => PacketView::TextChat(p@),
            Packet::Ping(p) => PacketView::Ping(*p),
            Packet::Pong(p) => PacketView::Pong(*p),
            Packet::WorldTileDataRequest(p) => PacketView::WorldTileDataRequest(*p),
            Packet::WorldTileData(p) => PacketView::WorldTileData(p@),
        }
    }
}

} // verus!
