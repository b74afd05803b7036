//! Serialization of the packet union: a self-describing binary encoding with
//! one leading tag byte per packet, big-endian integers, and length-prefixed
//! UTF-8 strings.
//!
//! `encode` is total and deterministic on encodable packets; `decode` accepts
//! exactly the byte strings that `encode` produces and fails with a
//! `DecodeError` on every other input.  Both directions are pinned to the
//! specification functions `spec_encode` and `spec_decode`, and the round-trip
//! lemmas relate those two.

use vstd::prelude::*;

use crate::mesh::{
    lemma_read_mesh_gives_encoding, lemma_read_mesh_of_encoding, mesh_encodable, push_mesh,
    read_mesh, spec_encode_mesh, spec_read_mesh,
};
use crate::packets::{
    AuthRequest, AuthRequestView, AuthResponse, Packet, PacketView, Ping, Pong, TextChat,
    TextChatView, WorldTileData, WorldTileDataRequest, WorldTileDataView,
};
use crate::wire::{
    lemma_read_u32_gives_encoding, lemma_read_u32_of_encoding, lemma_read_u64_gives_encoding,
    lemma_read_u64_of_encoding, push_u32_be, push_u64_be, read_u32_be, read_u64_be, spec_read_u32,
    spec_read_u64, spec_read_u8, spec_u32_be, spec_u64_be,
};
use vstd::utf8::{
    decode_utf8, decode_utf8_encode_utf8, encode_utf8, encode_utf8_decode_utf8,
    encode_utf8_valid_utf8, valid_utf8,
};

verus! {

/// The bytes were not a valid serialization of any packet variant.
#[derive(Debug, Clone, Copy, Eq, PartialEq, Structural)]
pub struct DecodeError;

/// Tag byte introducing an `AuthRequest` packet.
pub const TAG_AUTH_REQUEST: u8 = 0;

/// Tag byte introducing an `AuthResponse` packet.
pub const TAG_AUTH_RESPONSE: u8 = 1;

/// Tag byte introducing a `TextChat` packet.
pub const TAG_TEXT_CHAT: u8 = 2;

/// Tag byte introducing a `Ping` packet.
pub const TAG_PING: u8 = 3;

/// Tag byte introducing a `Pong` packet.
pub const TAG_PONG: u8 = 4;

/// Tag byte introducing a `WorldTileDataRequest` packet.
pub const TAG_WORLD_TILE_DATA_REQUEST: u8 = 5;

/// Tag byte introducing a `WorldTileData` packet.
pub const TAG_WORLD_TILE_DATA: u8 = 6;

/// The string is short enough for its four-byte length prefix.
pub open spec fn str_encodable(s: Seq<char>) -> bool {
    encode_utf8(s).len() <= u32::MAX
}

/// A string on the wire: the byte length as a big-endian `u32`, then the
/// UTF-8 bytes.
pub open spec fn spec_encode_str(s: Seq<char>) -> Seq<u8> {
    spec_u32_be(encode_utf8(s).len() as u32) + encode_utf8(s)
}

/// Read a length-prefixed UTF-8 string at position `i`.
pub open spec fn spec_read_str(b: Seq<u8>, i: int) -> Option<(Seq<char>, int)> {
    match spec_read_u32(b, i) {
        Some((n, j)) => if j + n <= b.len() && valid_utf8(b.subrange(j, j + n)) {
            Some((decode_utf8(b.subrange(j, j + n)), j + n))
        } else {
            None
        },
        None => None,
    }
}

/// The code byte of an `AuthResponse` on the wire.
pub open spec fn spec_auth_code(r: AuthResponse) -> u8 {
    match r {
        AuthResponse::Accepted => 0,
        AuthResponse::IncorrectUsername => 1,
        AuthResponse::IncorrectPassword => 2,
    }
}

/// The `AuthResponse` named by a code byte, if any.
pub open spec fn spec_auth_from_code(c: u8) -> Option<AuthResponse> {
    if c == 0 {
        Some(AuthResponse::Accepted)
    } else if c == 1 {
        Some(AuthResponse::IncorrectUsername)
    } else if c == 2 {
        Some(AuthResponse::IncorrectPassword)
    } else {
        None
    }
}

/// Every variable-length field of the packet is short enough for its
/// four-byte length prefix; `encode` is total on exactly these packets.
pub open spec fn encodable(p: PacketView) -> bool {
    match p {
        PacketView::AuthRequest(a) => str_encodable(a.username) && str_encodable(a.password),
        PacketView::TextChat(t) => str_encodable(t.message),
        PacketView::WorldTileData(w) => mesh_encodable(w.mesh_data),
        _ => true,
    }
}

/// The encoding of a packet: one tag byte, then the payload fields.
pub open spec fn spec_encode(p: PacketView) -> Seq<u8> {
    match p {
        PacketView::AuthRequest(a) => seq![TAG_AUTH_REQUEST] + spec_encode_str(a.username)
            + spec_encode_str(a.password),
        PacketView::AuthResponse(r) => seq![TAG_AUTH_RESPONSE, spec_auth_code(r)],
        PacketView::TextChat(t) => seq![TAG_TEXT_CHAT] + spec_u64_be(t.index) + spec_encode_str(
            t.message,
        ),
        PacketView::Ping(p) => seq![TAG_PING] + spec_u64_be(p.timestamp),
        PacketView::Pong(p) => seq![TAG_PONG] + spec_u64_be(p.timestamp),
        PacketView::WorldTileDataRequest(r) => seq![TAG_WORLD_TILE_DATA_REQUEST] + spec_u32_be(r.x)
            + spec_u32_be(r.y) + seq![r.lod],
        PacketView::WorldTileData(w) => seq![TAG_WORLD_TILE_DATA] + spec_encode_mesh(w.mesh_data),
    }
}

/// The packet whose encoding is exactly `b`, if any: a tag byte, the payload
/// of that variant, and nothing after it.
pub open spec fn spec_decode(b: Seq<u8>) -> Option<PacketView> {
    match spec_read_u8(b, 0) {
        Some((tag, i)) => if tag == TAG_AUTH_REQUEST {
            match spec_read_str(b, i) {
                Some((username, j)) => match spec_read_str(b, j) {
                    Some((password, k)) => if k == b.len() {
                        Some(PacketView::AuthRequest(AuthRequestView { username, password }))
                    } else {
                        None
                    },
                    None => None,
                },
                None => None,
            }
        } else if tag == TAG_AUTH_RESPONSE {
            match spec_read_u8(b, i) {
                Some((c, j)) => if j == b.len() {
                    match spec_auth_from_code(c) {
                        Some(r) => Some(PacketView::AuthResponse(r)),
                        None => None,
                    }
                } else {
                    None
                },
                None => None,
            }
        } else if tag == TAG_TEXT_CHAT {
            match spec_read_u64(b, i) {
                Some((index, j)) => match spec_read_str(b, j) {
                    Some((message, k)) => if k == b.len() {
                        Some(PacketView::TextChat(TextChatView { index, message }))
                    } else {
                        None
                    },
                    None => None,
                },
                None => None,
            }
        } else if tag == TAG_PING {
            match spec_read_u64(b, i) {
                Some((timestamp, j)) => if j == b.len() {
                    Some(PacketView::Ping(Ping { timestamp }))
                } else {
                    None
                },
                None => None,
            }
        } else if tag == TAG_PONG {
            match spec_read_u64(b, i) {
                Some((timestamp, j)) => if j == b.len() {
                    Some(PacketView::Pong(Pong { timestamp }))
                } else {
                    None
                },
                None => None,
            }
        } else if tag == TAG_WORLD_TILE_DATA_REQUEST {
            match spec_read_u32(b, i) {
                Some((x, j)) => match spec_read_u32(b, j) {
                    Some((y, k)) => match spec_read_u8(b, k) {
                        Some((lod, l)) => if l == b.len() {
                            Some(
                                PacketView::WorldTileDataRequest(
                                    WorldTileDataRequest { x, y, lod },
                                ),
                            )
                        } else {
                            None
                        },
                        None => None,
                    },
                    None => None,
                },
                None => None,
            }
        } else if tag == TAG_WORLD_TILE_DATA {
            match spec_read_mesh(b, i) {
                Some((mesh_data, j)) => if j == b.len() {
                    Some(PacketView::WorldTileData(WorldTileDataView { mesh_data }))
                } else {
                    None
                },
                None => None,
            }
        } else {
            None
        },
        None => None,
    }
}

/// Relies on String::from_utf8: succeeds exactly when the bytes are UTF-8,
/// and then returns the string holding the characters those bytes encode.
#[verifier::external_body]
fn string_from_utf8(bytes: Vec<u8>) -> (r: Option<String>)
    ensures
        r is Some <==> valid_utf8(bytes@),
        r matches Some(s) ==> s@ == decode_utf8(bytes@),
{
    String::from_utf8(bytes).ok()
}

/// Copy `bytes[pos .. pos + n]` into a fresh vector.
pub(crate) fn copy_range(bytes: &Vec<u8>, pos: usize, n: usize) -> (r: Vec<u8>)
    requires
        pos + n <= bytes.len(),
    ensures
        r@ == bytes@.subrange(pos as int, pos + n),
{
    let mut r: Vec<u8> = Vec::new();
    let mut i: usize = 0;
    assert(r@ =~= bytes@.subrange(pos as int, pos as int));
    while i < n
        invariant
            i <= n,
            pos + n <= bytes.len(),
            r@ == bytes@.subrange(pos as int, pos + i),
        decreases n - i,
    {
        r.push(bytes[pos + i]);
        i = i + 1;
        assert(r@ =~= bytes@.subrange(pos as int, pos + i));
    }
    r
}

/// Append the bytes of a slice to `out`.
pub(crate) fn push_slice(out: &mut Vec<u8>, bs: &[u8])
    ensures
        final(out)@ == old(out)@ + bs@,
{
    let n = bs.len();
    let mut i: usize = 0;
    assert(out@ =~= old(out)@ + bs@.subrange(0, 0));
    while i < n
        invariant
            i <= n,
            n == bs@.len(),
            out@ == old(out)@ + bs@.subrange(0, i as int),
        decreases n - i,
    {
        out.push(bs[i]);
        i = i + 1;
        assert(out@ =~= old(out)@ + bs@.subrange(0, i as int));
    }
    assert(bs@.subrange(0, n as int) =~= bs@);
}

/// Append a length-prefixed UTF-8 string to `out`.
fn push_str(out: &mut Vec<u8>, s: &String)
    requires
        str_encodable(s@),
    ensures
        final(out)@ == old(out)@ + spec_encode_str(s@),
{
    let bs = s.as_str().as_bytes();
    let n = bs.len();
    push_u32_be(out, n as u32);
    push_slice(out, bs);
    assert(out@ =~= old(out)@ + spec_encode_str(s@));
}

/// Read a length-prefixed UTF-8 string from `bytes` at `pos`.
fn read_str(bytes: &Vec<u8>, pos: usize) -> (r: Option<(String, usize)>)
    requires
        pos <= bytes.len(),
    ensures
        match r {
            Some((s, j)) => spec_read_str(bytes@, pos as int) == Some((s@, j as int)) && pos <= j
                <= bytes.len(),
            None => spec_read_str(bytes@, pos as int) is None,
        },
{
    if bytes.len() - pos < 4 {
        return None;
    }
    let n = read_u32_be(bytes, pos);
    let j = pos + 4;
    let m = n as usize;
    if bytes.len() - j < m {
        return None;
    }
    let sub = copy_range(bytes, j, m);
    match string_from_utf8(sub) {
        Some(s) => Some((s, j + m)),
        None => None,
    }
}

/// Encode a packet: the tag byte of its variant, then its payload fields.
/// Total and deterministic: the result is exactly `spec_encode` of the
/// packet's view.
pub fn encode(p: &Packet) -> (r: Vec<u8>)
    requires
        encodable(p@),
    ensures
        r@ == spec_encode(p@),
{
    let mut out: Vec<u8> = Vec::new();
    match p {
        Packet::AuthRequest(a) => {
            out.push(TAG_AUTH_REQUEST);
            assert(out@ =~= seq![TAG_AUTH_REQUEST]);
            push_str(&mut out, &a.username);
            push_str(&mut out, &a.password);
        },
        Packet::AuthResponse(r) => {
            out.push(TAG_AUTH_RESPONSE);
            let c: u8 = match r {
                AuthResponse::Accepted => 0,
                AuthResponse::IncorrectUsername => 1,
                AuthResponse::IncorrectPassword => 2,
            };
            out.push(c);
            assert(out@ =~= seq![TAG_AUTH_RESPONSE, spec_auth_code(*r)]);
        },
        Packet::TextChat(t) => {
            out.push(TAG_TEXT_CHAT);
            assert(out@ =~= seq![TAG_TEXT_CHAT]);
            push_u64_be(&mut out, t.index);
            push_str(&mut out, &t.message);
        },
        Packet::Ping(ping) => {
            out.push(TAG_PING);
            assert(out@ =~= seq![TAG_PING]);
            push_u64_be(&mut out, ping.timestamp);
        },
        Packet::Pong(pong) => {
            out.push(TAG_PONG);
            assert(out@ =~= seq![TAG_PONG]);
            push_u64_be(&mut out, pong.timestamp);
        },
        Packet::WorldTileDataRequest(r) => {
            out.push(TAG_WORLD_TILE_DATA_REQUEST);
            assert(out@ =~= seq![TAG_WORLD_TILE_DATA_REQUEST]);
            push_u32_be(&mut out, r.x);
            push_u32_be(&mut out, r.y);
            out.push(r.lod);
        },
        Packet::WorldTileData(w) => {
            out.push(TAG_WORLD_TILE_DATA);
            assert(out@ =~= seq![TAG_WORLD_TILE_DATA]);
            push_mesh(&mut out, &w.mesh_data);
        },
    }
    assert(out@ =~= spec_encode(p@));
    out
}

/// Decode a packet from bytes.  Succeeds exactly when the bytes are a valid
/// serialization of some packet variant (`spec_decode`), and then returns
/// that packet; every other input gives a `DecodeError`.
pub fn decode(bytes: &Vec<u8>) -> (r: Result<Packet, DecodeError>)
    ensures
        match r {
            Ok(p) => spec_decode(bytes@) == Some(p@),
            Err(_) => spec_decode(bytes@) is None,
        },
{
    if bytes.len() < 1 {
        return Err(DecodeError);
    }
    let tag = bytes[0];
    let pos: usize = 1;
    if tag == TAG_AUTH_REQUEST {
        let (username, p1) = match read_str(bytes, pos) {
            Some(r) => r,
            None => {
                return Err(DecodeError);
            },
        };
        let (password, p2) = match read_str(bytes, p1) {
            Some(r) => r,
            None => {
                return Err(DecodeError);
            },
        };
        if p2 != bytes.len() {
            return Err(DecodeError);
        }
        Ok(Packet::AuthRequest(AuthRequest { username, password }))
    } else if tag == TAG_AUTH_RESPONSE {
        if bytes.len() - pos < 1 {
            return Err(DecodeError);
        }
        let c = bytes[pos];
        if pos + 1 != bytes.len() {
            return Err(DecodeError);
        }
        let r = if c == 0 {
            AuthResponse::Accepted
        } else if c == 1 {
            AuthResponse::IncorrectUsername
        } else if c == 2 {
            AuthResponse::IncorrectPassword
        } else {
            return Err(DecodeError);
        };
        Ok(Packet::AuthResponse(r))
    } else if tag == TAG_TEXT_CHAT {
        if bytes.len() - pos < 8 {
            return Err(DecodeError);
        }
        let index = read_u64_be(bytes, pos);
        let (message, p1) = match read_str(bytes, pos + 8) {
            Some(r) => r,
            None => {
                return Err(DecodeError);
            },
        };
        if p1 != bytes.len() {
            return Err(DecodeError);
        }
        Ok(Packet::TextChat(TextChat { index, message }))
    } else if tag == TAG_PING {
        if bytes.len() - pos < 8 {
            return Err(DecodeError);
        }
        let timestamp = read_u64_be(bytes, pos);
        if pos + 8 != bytes.len() {
            return Err(DecodeError);
        }
        Ok(Packet::Ping(Ping { timestamp }))
    } else if tag == TAG_PONG {
        if bytes.len() - pos < 8 {
            return Err(DecodeError);
        }
        let timestamp = read_u64_be(bytes, pos);
        if pos + 8 != bytes.len() {
            return Err(DecodeError);
        }
        Ok(Packet::Pong(Pong { timestamp }))
    } else if tag == TAG_WORLD_TILE_DATA_REQUEST {
        if bytes.len() - pos < 4 {
            return Err(DecodeError);
        }
        let x = read_u32_be(bytes, pos);
        if bytes.len() - (pos + 4) < 4 {
            return Err(DecodeError);
        }
        let y = read_u32_be(bytes, pos + 4);
        if bytes.len() - (pos + 8) < 1 {
            return Err(DecodeError);
        }
        let lod = bytes[pos + 8];
        if pos + 9 != bytes.len() {
            return Err(DecodeError);
        }
        Ok(Packet::WorldTileDataRequest(WorldTileDataRequest { x, y, lod }))
    } else if tag == TAG_WORLD_TILE_DATA {
        let (mesh_data, p1) = match read_mesh(bytes, pos) {
            Some(r) => r,
            None => {
                return Err(DecodeError);
            },
        };
        if p1 != bytes.len() {
            return Err(DecodeError);
        }
        Ok(Packet::WorldTileData(WorldTileData { mesh_data }))
    } else {
        Err(DecodeError)
    }
}

/// Reading at a position holding the encoding of a string yields it.
proof fn lemma_read_str_of_encoding(b: Seq<u8>, i: int, s: Seq<char>)
    requires
        str_encodable(s),
        0 <= i,
        i + 4 + encode_utf8(s).len() <= b.len(),
        b.subrange(i, i + 4 + encode_utf8(s).len()) == spec_encode_str(s),
    ensures
        spec_read_str(b, i) == Some((s, i + 4 + encode_utf8(s).len())),
{
    let e = encode_utf8(s);
    let all = b.subrange(i, i + 4 + e.len());
    assert(b.subrange(i, i + 4) =~= all.subrange(0, 4));
    assert(all.subrange(0, 4) =~= spec_u32_be(e.len() as u32));
    lemma_read_u32_of_encoding(b, i, e.len() as u32);
    assert(b.subrange(i + 4, i + 4 + e.len()) =~= all.subrange(4, 4 + e.len() as int));
    assert(all.subrange(4, 4 + e.len() as int) =~= e);
    encode_utf8_valid_utf8(s);
    encode_utf8_decode_utf8(s);
}

/// A successful string read consumed exactly the encoding of its result,
/// which is an encodable string.
proof fn lemma_read_str_gives_encoding(b: Seq<u8>, i: int)
    requires
        0 <= i <= b.len(),
        spec_read_str(b, i) is Some,
    ensures
        spec_read_str(b, i) matches Some((s, j)) ==> str_encodable(s) && i <= j <= b.len() && j
            == i + 4 + encode_utf8(s).len() && b.subrange(i, j) == spec_encode_str(s),
{
    let (n, j0) = spec_read_u32(b, i).unwrap();
    lemma_read_u32_gives_encoding(b, i);
    let sb = b.subrange(j0, j0 + n);
    let s = decode_utf8(sb);
    decode_utf8_encode_utf8(sb);
    assert(encode_utf8(s) == sb);
    assert(b.subrange(i, j0 + n) =~= b.subrange(i, j0) + b.subrange(j0, j0 + n));
    assert((encode_utf8(s).len() as u32) == n);
    assert(b.subrange(i, j0 + n) == spec_encode_str(s));
}

/// Round-trip: decoding the encoding of any encodable packet yields exactly
/// that packet, for every variant of the union.
#[verifier::rlimit(100)]
#[verifier::spinoff_prover]
pub proof fn lemma_encode_decode(p: PacketView)
    requires
        encodable(p),
    ensures
        spec_decode(spec_encode(p)) == Some(p),
{
    let b = spec_encode(p);
    match p {
        PacketView::AuthRequest(a) => {
            let eu = spec_encode_str(a.username);
            let ep = spec_encode_str(a.password);
            assert(eu.len() == 4 + encode_utf8(a.username).len());
            assert(ep.len() == 4 + encode_utf8(a.password).len());
            assert(b[0] == TAG_AUTH_REQUEST);
            assert(spec_read_u8(b, 0) == Some((TAG_AUTH_REQUEST, 1int)));
            assert(b.subrange(1, 1 + eu.len() as int) =~= eu);
            lemma_read_str_of_encoding(b, 1, a.username);
            assert(b.subrange(1 + eu.len() as int, 1 + eu.len() + ep.len() as int) =~= ep);
            lemma_read_str_of_encoding(b, 1 + eu.len() as int, a.password);
            assert(1 + eu.len() + ep.len() == b.len());
            assert(a == AuthRequestView { username: a.username, password: a.password });
        },
        PacketView::AuthResponse(r) => {
            assert(b.len() == 2);
            assert(b[0] == TAG_AUTH_RESPONSE);
            assert(b[1] == spec_auth_code(r));
            assert(spec_auth_from_code(spec_auth_code(r)) == Some(r));
        },
        PacketView::TextChat(t) => {
            let em = spec_encode_str(t.message);
            assert(em.len() == 4 + encode_utf8(t.message).len());
            assert(b[0] == TAG_TEXT_CHAT);
            assert(b.subrange(1, 9) =~= spec_u64_be(t.index));
            lemma_read_u64_of_encoding(b, 1, t.index);
            assert(b.subrange(9, 9 + em.len() as int) =~= em);
            lemma_read_str_of_encoding(b, 9, t.message);
            assert(9 + em.len() == b.len());
            assert(t == TextChatView { index: t.index, message: t.message });
        },
        PacketView::Ping(ping) => {
            assert(b[0] == TAG_PING);
            assert(b.subrange(1, 9) =~= spec_u64_be(ping.timestamp));
            lemma_read_u64_of_encoding(b, 1, ping.timestamp);
            assert(b.len() == 9);
        },
        PacketView::Pong(pong) => {
            assert(b[0] == TAG_PONG);
            assert(b.subrange(1, 9) =~= spec_u64_be(pong.timestamp));
            lemma_read_u64_of_encoding(b, 1, pong.timestamp);
            assert(b.len() == 9);
        },
        PacketView::WorldTileDataRequest(r) => {
            assert(b[0] == TAG_WORLD_TILE_DATA_REQUEST);
            assert(b.subrange(1, 5) =~= spec_u32_be(r.x));
            lemma_read_u32_of_encoding(b, 1, r.x);
            assert(b.subrange(5, 9) =~= spec_u32_be(r.y));
            lemma_read_u32_of_encoding(b, 5, r.y);
            assert(b[9] == r.lod);
            assert(b.len() == 10);
        },
        PacketView::WorldTileData(w) => {
            let em = spec_encode_mesh(w.mesh_data);
            assert(b[0] == TAG_WORLD_TILE_DATA);
            assert(b.subrange(1, 1 + em.len() as int) =~= em);
            lemma_read_mesh_of_encoding(b, 1, w.mesh_data);
            assert(1 + em.len() == b.len());
            assert(w == WorldTileDataView { mesh_data: w.mesh_data });
        },
    }
}

/// The encoding is canonical: whenever decoding succeeds, the input bytes are
/// exactly the encoding of the decoded packet, which is encodable.  Together
/// with `lemma_encode_decode` this says that decoding succeeds on precisely
/// the byte strings that `encode` can produce.
#[verifier::rlimit(100)]
#[verifier::spinoff_prover]
pub proof fn lemma_decode_encode(b: Seq<u8>)
    requires
        spec_decode(b) is Some,
    ensures
        spec_decode(b) matches Some(p) ==> encodable(p) && b == spec_encode(p),
{
    let p = spec_decode(b).unwrap();
    let tag = b[0];
    assert(b.len() >= 1);
    if tag == TAG_AUTH_REQUEST {
        lemma_read_str_gives_encoding(b, 1);
        let (username, j1) = spec_read_str(b, 1).unwrap();
        lemma_read_str_gives_encoding(b, j1);
        let (password, j2) = spec_read_str(b, j1).unwrap();
        assert(j2 == b.len());
        assert(b =~= b.subrange(0, 1) + b.subrange(1, j1) + b.subrange(j1, j2));
        assert(b.subrange(0, 1) =~= seq![TAG_AUTH_REQUEST]);
        assert(b == spec_encode(p));
    } else if tag == TAG_AUTH_RESPONSE {
        let (c, j) = spec_read_u8(b, 1).unwrap();
        assert(j == b.len());
        let r = spec_auth_from_code(c).unwrap();
        assert(spec_auth_code(r) == c);
        assert(b =~= seq![TAG_AUTH_RESPONSE, spec_auth_code(r)]);
    } else if tag == TAG_TEXT_CHAT {
        lemma_read_u64_gives_encoding(b, 1);
        let (index, j1) = spec_read_u64(b, 1).unwrap();
        lemma_read_str_gives_encoding(b, j1);
        let (message, j2) = spec_read_str(b, j1).unwrap();
        assert(j2 == b.len());
        assert(b =~= b.subrange(0, 1) + b.subrange(1, j1) + b.subrange(j1, j2));
        assert(b.subrange(0, 1) =~= seq![TAG_TEXT_CHAT]);
        assert(b == spec_encode(p));
    } else if tag == TAG_PING {
        lemma_read_u64_gives_encoding(b, 1);
        let (timestamp, j) = spec_read_u64(b, 1).unwrap();
        assert(j == b.len());
        assert(b =~= b.subrange(0, 1) + b.subrange(1, j));
        assert(b.subrange(0, 1) =~= seq![TAG_PING]);
        assert(b == spec_encode(p));
    } else if tag == TAG_PONG {
        lemma_read_u64_gives_encoding(b, 1);
        let (timestamp, j) = spec_read_u64(b, 1).unwrap();
        assert(j == b.len());
        assert(b =~= b.subrange(0, 1) + b.subrange(1, j));
        assert(b.subrange(0, 1) =~= seq![TAG_PONG]);
        assert(b == spec_encode(p));
    } else if tag == TAG_WORLD_TILE_DATA_REQUEST {
        lemma_read_u32_gives_encoding(b, 1);
        let (x, j1) = spec_read_u32(b, 1).unwrap();
        lemma_read_u32_gives_encoding(b, j1);
        let (y, j2) = spec_read_u32(b, j1).unwrap();
        let (lod, j3) = spec_read_u8(b, j2).unwrap();
        assert(j3 == b.len());
        assert(b =~= b.subrange(0, 1) + b.subrange(1, j1) + b.subrange(j1, j2) + seq![lod]);
        assert(b.subrange(0, 1) =~= seq![TAG_WORLD_TILE_DATA_REQUEST]);
        assert(b == spec_encode(p));
    } else if tag == TAG_WORLD_TILE_DATA {
        lemma_read_mesh_gives_encoding(b, 1);
        let (mesh_data, j) = spec_read_mesh(b, 1).unwrap();
        assert(j == b.len());
        assert(b =~= b.subrange(0, 1) + b.subrange(1, j));
        assert(b.subrange(0, 1) =~= seq![TAG_WORLD_TILE_DATA]);
        assert(b == spec_encode(p));
    }
}

} // verus!
