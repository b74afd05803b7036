//! Frames on the wire, and the per-connection stream multiplexer.
//!
//! A frame is a four-byte big-endian length prefix followed by exactly that
//! many bytes of encoded packet.  `send_frame` produces the bytes written for
//! one packet; `FrameReceiver` reassembles frames from arbitrarily chunked
//! reads and never begins decoding before the declared number of bytes has
//! fully arrived.  `StreamSenders` is the multiplexer table: one lazily
//! opened transport stream per stream kind, cached by the kind's index and
//! never reopened.

use vstd::prelude::*;

use crate::packets::{Packet, PacketView, StreamType};
use crate::serialization::{
    copy_range, decode, encodable, encode, lemma_encode_decode, push_slice, spec_decode,
    spec_encode, DecodeError,
};
use crate::wire::{lemma_u32_be_round_trip, push_u32_be, read_u32_be, spec_u32_be,
    spec_u32_from_be};

verus! {

/// Reading a frame from a stream could not complete.
#[derive(Debug, Clone, Copy, Eq, PartialEq, Structural)]
pub enum ReadError {
    /// The stream ended in the middle of a frame.
    EndOfStream,
    /// The transport reported a failure while reading.
    ConnectionLost,
}

/// Writing a frame to a stream could not complete.
#[derive(Debug, Clone, Copy, Eq, PartialEq, Structural)]
pub enum WriteError {
    /// The transport reported a failure while writing.
    ConnectionLost,
}

/// Receiving a packet failed.
#[derive(Debug, Clone, Copy, Eq, PartialEq, Structural)]
pub enum RecvError {
    /// A complete frame arrived, but its payload was not a valid packet.
    DecodeError(DecodeError),
    /// The stream ended, or the transport failed, before a full frame arrived.
    ReadExactError(ReadError),
}

/// Sending a packet failed.
#[derive(Debug, Clone, Copy, Eq, PartialEq, Structural)]
pub enum SendError {
    /// The packet could not be serialized for the wire.
    EncodeError,
    /// Writing to the transport stream failed.
    WriteError(WriteError),
}

/// The packet's encoding fits in one length-prefixed frame.
pub open spec fn frame_encodable(p: PacketView) -> bool {
    encodable(p) && spec_encode(p).len() <= u32::MAX
}

/// The frame holding `payload`: four length bytes, then the payload itself.
pub open spec fn spec_frame(payload: Seq<u8>) -> Seq<u8>
    recommends
        payload.len() <= u32::MAX,
{
    spec_u32_be(payload.len() as u32) + payload
}

/// The payload length declared by the frame's four-byte prefix.
pub open spec fn frame_len(b: Seq<u8>) -> int
    recommends
        b.len() >= 4,
{
    spec_u32_from_be(b.subrange(0, 4)) as int
}

/// The buffered bytes begin with one complete frame.
pub open spec fn frame_ready(b: Seq<u8>) -> bool {
    b.len() >= 4 && b.len() >= 4 + frame_len(b)
}

/// The payload of the first complete frame.
pub open spec fn frame_payload(b: Seq<u8>) -> Seq<u8>
    recommends
        frame_ready(b),
{
    b.subrange(4, 4 + frame_len(b))
}

/// The buffered bytes after the first complete frame.
pub open spec fn frame_rest(b: Seq<u8>) -> Seq<u8>
    recommends
        frame_ready(b),
{
    b.skip(4 + frame_len(b))
}

/// The bytes written to a stream for one packet: its encoding behind a
/// four-byte big-endian length prefix.
pub fn send_frame(p: &Packet) -> (r: Vec<u8>)
    requires
        frame_encodable(p@),
    ensures
        r@ == spec_frame(spec_encode(p@)),
{
    let payload = encode(p);
    let mut out: Vec<u8> = Vec::new();
    push_u32_be(&mut out, payload.len() as u32);
    push_slice(&mut out, payload.as_slice());
    assert(out@ =~= spec_frame(spec_encode(p@)));
    out
}

/// Runtime check of `encodable`: whether every variable-length field of the
/// packet fits its four-byte length prefix.
fn check_encodable(p: &Packet) -> (r: bool)
    ensures
        r == encodable(p@),
{
    match p {
        Packet::AuthRequest(a) => a.username.as_str().as_bytes().len() <= u32::MAX as usize
            && a.password.as_str().as_bytes().len() <= u32::MAX as usize,
        Packet::TextChat(t) => t.message.as_str().as_bytes().len() <= u32::MAX as usize,
        Packet::WorldTileData(w) => w.mesh_data.vertices.len() <= u32::MAX as usize
            && w.mesh_data.indices.len() <= u32::MAX as usize && w.mesh_data.normals.len()
            <= u32::MAX as usize && w.mesh_data.uvs.len() <= u32::MAX as usize,
        _ => true,
    }
}

/// Frame a packet for the wire, checking at run time that it fits its length
/// prefixes: the framed bytes on success, and the send-side encode error for
/// a packet too large for the format — the one send failure that is the
/// session layer's own rather than the transport's.
pub fn try_send_frame(p: &Packet) -> (r: Result<Vec<u8>, SendError>)
    ensures
        r is Ok <==> frame_encodable(p@),
        r matches Ok(bytes) ==> bytes@ == spec_frame(spec_encode(p@)),
        r is Err ==> r == Err::<Vec<u8>, SendError>(SendError::EncodeError),
{
    if !check_encodable(p) {
        return Err(SendError::EncodeError);
    }
    let payload = encode(p);
    if payload.len() > u32::MAX as usize {
        return Err(SendError::EncodeError);
    }
    let mut out: Vec<u8> = Vec::new();
    push_u32_be(&mut out, payload.len() as u32);
    push_slice(&mut out, payload.as_slice());
    assert(out@ =~= spec_frame(spec_encode(p@)));
    Ok(out)
}

/// Reassembles length-prefixed frames from a stream of byte chunks.  Only the
/// concatenation of the fed bytes matters: chunk boundaries are invisible.
/// The view is the sequence of bytes received and not yet consumed.
pub struct FrameReceiver {
    buf: Vec<u8>,
}

impl View for FrameReceiver {
    type V = Seq<u8>;

    closed spec fn view(&self) -> Seq<u8> {
        self.buf@
    }
}

impl FrameReceiver {
    /// A receiver with nothing buffered.
    pub fn new() -> (r: FrameReceiver)
        ensures
            r@ == Seq::<u8>::empty(),
    {
        FrameReceiver { buf: Vec::new() }
    }

    /// Add bytes that arrived from the stream, in order.
    pub fn feed(&mut self, chunk: &[u8])
        ensures
            final(self)@ == old(self)@ + chunk@,
    {
        push_slice(&mut self.buf, chunk);
    }

    /// Take the first complete frame, if one has fully arrived, and decode its
    /// payload.  Returns `None`, leaving the buffer unchanged, until the
    /// declared number of bytes has been read in full; never decodes early.
    pub fn poll_packet(&mut self) -> (r: Option<Result<Packet, DecodeError>>)
        ensures
            frame_ready(old(self)@) ==> {
                &&& final(self)@ == frame_rest(old(self)@)
                &&& match r {
                    Some(Ok(p)) => spec_decode(frame_payload(old(self)@)) == Some(p@),
                    Some(Err(_)) => spec_decode(frame_payload(old(self)@)) is None,
                    None => false,
                }
            },
            !frame_ready(old(self)@) ==> r is None && final(self)@ == old(self)@,
    {
        if self.buf.len() < 4 {
            return None;
        }
        let n = read_u32_be(&self.buf, 0);
        let m = n as usize;
        if self.buf.len() - 4 < m {
            return None;
        }
        let payload = copy_range(&self.buf, 4, m);
        let rest = copy_range(&self.buf, 4 + m, self.buf.len() - (4 + m));
        proof {
            assert(rest@ =~= old(self)@.skip(4 + frame_len(old(self)@)));
        }
        self.buf = rest;
        Some(decode(&payload))
    }

    /// How the stream may end: with an empty buffer, or in the middle of a
    /// frame, which is a read failure distinct from any decode failure.
    pub fn finish(&self) -> (r: Result<(), RecvError>)
        ensures
            r is Ok <==> self@.len() == 0,
            self@.len() > 0 ==> r == Err::<(), RecvError>(
                RecvError::ReadExactError(ReadError::EndOfStream),
            ),
    {
        if self.buf.len() == 0 {
            Ok(())
        } else {
            Err(RecvError::ReadExactError(ReadError::EndOfStream))
        }
    }
}

/// Framing: the bytes of `send_frame`, however they were split into chunks on
/// the way (feeding chunks only concatenates them), form one ready frame whose
/// payload decodes to exactly the packet that was sent, and consuming the
/// frame leaves exactly the bytes that followed it.
pub proof fn lemma_frame_round_trip(p: PacketView, rest: Seq<u8>)
    requires
        frame_encodable(p),
    ensures
        ({
            let b = spec_frame(spec_encode(p)) + rest;
            &&& frame_ready(b)
            &&& frame_payload(b) == spec_encode(p)
            &&& frame_rest(b) == rest
            &&& spec_decode(frame_payload(b)) == Some(p)
        }),
{
    let e = spec_encode(p);
    let b = spec_frame(e) + rest;
    lemma_u32_be_round_trip();
    assert(b.subrange(0, 4) =~= spec_u32_be(e.len() as u32));
    assert(frame_len(b) == e.len());
    assert(frame_payload(b) =~= e);
    assert(frame_rest(b) =~= rest);
    lemma_encode_decode(p);
}

/// The per-connection stream multiplexer table: for each stream kind, the
/// transport stream opened for it, if any.  A stream is opened on the first
/// send for its kind, cached for the remaining life of the connection, and
/// never reopened: `insert` demands an empty slot.  `S` is the host's
/// transport stream handle.
pub struct StreamSenders<S> {
    text_chat: Option<S>,
    ping_pong: Option<S>,
    world_tile_data: Option<S>,
}

impl<S> StreamSenders<S> {
    /// The table with no streams opened.
    pub closed spec fn spec_empty() -> StreamSenders<S> {
        StreamSenders { text_chat: None, ping_pong: None, world_tile_data: None }
    }

    /// The stream opened for `kind`, if any.
    pub closed spec fn spec_get(self, kind: StreamType) -> Option<S> {
        match kind {
            StreamType::TextChat => self.text_chat,
            StreamType::PingPong => self.ping_pong,
            StreamType::WorldTileData => self.world_tile_data,
        }
    }

    /// The table with the stream for `kind` set to `s`.
    pub closed spec fn spec_insert(self, kind: StreamType, s: S) -> StreamSenders<S> {
        match kind {
            StreamType::TextChat => StreamSenders { text_chat: Some(s), ..self },
            StreamType::PingPong => StreamSenders { ping_pong: Some(s), ..self },
            StreamType::WorldTileData => StreamSenders { world_tile_data: Some(s), ..self },
        }
    }

    /// How many transport streams have been opened: at most one per kind, so
    /// at most the number of `StreamType` variants.
    pub closed spec fn open_count(self) -> int {
        (if self.text_chat is Some {
            1int
        } else {
            0
        }) + (if self.ping_pong is Some {
            1int
        } else {
            0
        }) + (if self.world_tile_data is Some {
            1int
        } else {
            0
        })
    }

    /// A table with no streams opened.
    pub fn new() -> (r: StreamSenders<S>)
        ensures
            r == StreamSenders::<S>::spec_empty(),
    {
        StreamSenders { text_chat: None, ping_pong: None, world_tile_data: None }
    }

    /// The stream cached for `kind`, or `None` when one must first be opened.
    pub fn get(&self, kind: StreamType) -> (r: Option<&S>)
        ensures
            match r {
                Some(s) => self.spec_get(kind) == Some(*s),
                None => self.spec_get(kind) is None,
            },
    {
        match kind {
            StreamType::TextChat => self.text_chat.as_ref(),
            StreamType::PingPong => self.ping_pong.as_ref(),
            StreamType::WorldTileData => self.world_tile_data.as_ref(),
        }
    }

    /// Record the transport stream just opened for `kind`.  The slot must be
    /// empty: each kind's stream is opened at most once per connection.
    pub fn insert(&mut self, kind: StreamType, s: S)
        requires
            old(self).spec_get(kind) is None,
        ensures
            *final(self) == old(self).spec_insert(kind, s),
            final(self).open_count() == old(self).open_count() + 1,
    {
        match kind {
            StreamType::TextChat => {
                self.text_chat = Some(s);
            },
            StreamType::PingPong => {
                self.ping_pong = Some(s);
            },
            StreamType::WorldTileData => {
                self.world_tile_data = Some(s);
            },
        }
    }
}

/// Multiplexing: starting from an empty table, sending on two different
/// stream kinds opens exactly two transport streams; before the first send of
/// each kind no stream exists for it, and afterwards it is cached, so each is
/// opened exactly once.
pub proof fn lemma_multiplex_two_kinds<S>(k1: StreamType, k2: StreamType, s1: S, s2: S)
    requires
        k1 != k2,
    ensures
        ({
            let t0 = StreamSenders::<S>::spec_empty();
            let t1 = t0.spec_insert(k1, s1);
            let t2 = t1.spec_insert(k2, s2);
            &&& t0.spec_get(k1) is None
            &&& t0.open_count() == 0
            &&& t1.spec_get(k2) is None
            &&& t1.open_count() == 1
            &&& t2.open_count() == 2
            &&& t2.spec_get(k1) == Some(s1)
            &&& t2.spec_get(k2) == Some(s2)
        }),
{
}

} // verus!
