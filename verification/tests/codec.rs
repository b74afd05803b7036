//! Round-trip and wire-format tests for the packet codec.

use bounded_planet::{
    decode, encode, AuthRequest, AuthResponse, MeshData, Packet, Ping, Pong, TextChat, UvBits,
    VertexBits, WorldTileData, WorldTileDataRequest,
};

fn sample_mesh() -> MeshData {
    MeshData {
        vertices: vec![
            VertexBits { x: 0x3f800000, y: 0, z: 0x40000000 },
            VertexBits { x: 1, y: 2, z: 3 },
        ],
        indices: vec![0, 1, 2],
        normals: vec![VertexBits { x: 0, y: 0x3f800000, z: 0 }],
        uvs: vec![UvBits { u: 0, v: 0x3f000000 }],
    }
}

#[test]
fn round_trip_auth_request() {
    let p = Packet::AuthRequest(AuthRequest {
        username: String::from("explorer"),
        password: String::from("hunter2"),
    });
    assert_eq!(decode(&encode(&p)).unwrap(), p);
}

#[test]
fn round_trip_auth_response() {
    for r in [
        AuthResponse::Accepted,
        AuthResponse::IncorrectUsername,
        AuthResponse::IncorrectPassword,
    ] {
        let p = Packet::AuthResponse(r);
        assert_eq!(decode(&encode(&p)).unwrap(), p);
    }
}

#[test]
fn round_trip_text_chat() {
    let p = Packet::TextChat(TextChat {
        index: 42,
        message: String::from("hello, planet"),
    });
    assert_eq!(decode(&encode(&p)).unwrap(), p);
}

#[test]
fn round_trip_text_chat_multibyte() {
    let p = Packet::TextChat(TextChat {
        index: 7,
        message: String::from("caf\u{e9} \u{1f30d} na\u{ef}ve"),
    });
    assert_eq!(decode(&encode(&p)).unwrap(), p);
}

#[test]
fn round_trip_ping_pong() {
    let ping = Packet::Ping(Ping { timestamp: u64::MAX });
    assert_eq!(decode(&encode(&ping)).unwrap(), ping);
    let pong = Packet::Pong(Pong { timestamp: 0 });
    assert_eq!(decode(&encode(&pong)).unwrap(), pong);
}

#[test]
fn round_trip_world_tile_data_request() {
    let p = Packet::WorldTileDataRequest(WorldTileDataRequest { x: 19, y: 7, lod: 3 });
    assert_eq!(decode(&encode(&p)).unwrap(), p);
}

#[test]
fn round_trip_world_tile_data() {
    let p = Packet::WorldTileData(WorldTileData { mesh_data: sample_mesh() });
    assert_eq!(decode(&encode(&p)).unwrap(), p);
}

#[test]
fn round_trip_empty_strings_and_mesh() {
    let p = Packet::AuthRequest(AuthRequest {
        username: String::new(),
        password: String::new(),
    });
    assert_eq!(decode(&encode(&p)).unwrap(), p);
    let q = Packet::WorldTileData(WorldTileData {
        mesh_data: MeshData { vertices: vec![], indices: vec![], normals: vec![], uvs: vec![] },
    });
    assert_eq!(decode(&encode(&q)).unwrap(), q);
}

#[test]
fn ping_exact_bytes() {
    let p = Packet::Ping(Ping { timestamp: 0x0102030405060708 });
    assert_eq!(encode(&p), vec![3, 1, 2, 3, 4, 5, 6, 7, 8]);
}

#[test]
fn auth_response_exact_bytes() {
    assert_eq!(encode(&Packet::AuthResponse(AuthResponse::Accepted)), vec![1, 0]);
    assert_eq!(encode(&Packet::AuthResponse(AuthResponse::IncorrectUsername)), vec![1, 1]);
    assert_eq!(encode(&Packet::AuthResponse(AuthResponse::IncorrectPassword)), vec![1, 2]);
}

#[test]
fn text_chat_exact_bytes() {
    let p = Packet::TextChat(TextChat { index: 5, message: String::from("ab") });
    assert_eq!(
        encode(&p),
        vec![2, 0, 0, 0, 0, 0, 0, 0, 5, 0, 0, 0, 2, b'a', b'b']
    );
}

#[test]
fn world_tile_data_request_exact_bytes() {
    let p = Packet::WorldTileDataRequest(WorldTileDataRequest { x: 0x0a0b0c0d, y: 1, lod: 9 });
    assert_eq!(encode(&p), vec![5, 0x0a, 0x0b, 0x0c, 0x0d, 0, 0, 0, 1, 9]);
}

#[test]
fn utf8_decoding_is_real() {
    // "é" is two bytes on the wire but one character; a decoder that handed
    // the raw bytes through unchanged would produce a different string.
    let p = Packet::TextChat(TextChat { index: 0, message: String::from("\u{e9}") });
    let bytes = encode(&p);
    assert_eq!(bytes, vec![2, 0, 0, 0, 0, 0, 0, 0, 0, 0, 0, 0, 2, 0xc3, 0xa9]);
    match decode(&bytes).unwrap() {
        Packet::TextChat(t) => {
            assert_eq!(t.message.chars().count(), 1);
            assert_eq!(t.message, "\u{e9}");
        }
        other => panic!("decoded wrong variant: {:?}", other),
    }
}

#[test]
fn decode_rejects_empty_input() {
    assert!(decode(&vec![]).is_err());
}

#[test]
fn decode_rejects_unknown_tag() {
    assert!(decode(&vec![9, 0, 0]).is_err());
    assert!(decode(&vec![255]).is_err());
}

#[test]
fn decode_rejects_truncated_payload() {
    assert!(decode(&vec![3, 0, 0]).is_err());
    // A text chat whose declared string length runs past the input.
    assert!(decode(&vec![2, 0, 0, 0, 0, 0, 0, 0, 0, 0, 0, 0, 9, b'a']).is_err());
}

#[test]
fn decode_rejects_trailing_bytes() {
    let mut bytes = encode(&Packet::Ping(Ping { timestamp: 1 }));
    bytes.push(0);
    assert!(decode(&bytes).is_err());
}

#[test]
fn decode_rejects_bad_auth_code() {
    assert!(decode(&vec![1, 3]).is_err());
}

#[test]
fn decode_rejects_invalid_utf8() {
    // AuthRequest whose username bytes are not UTF-8.
    let bytes = vec![0, 0, 0, 0, 1, 0xff, 0, 0, 0, 0];
    assert!(decode(&bytes).is_err());
}

#[test]
fn decode_rejects_overlong_mesh_counts() {
    // WorldTileData declaring one vertex but providing no bytes for it.
    assert!(decode(&vec![6, 0, 0, 0, 1]).is_err());
}
