//! Mesh data for one chunk of land, and its place in the wire format.
//!
//! Every coordinate travels as an `f32` bit pattern held in a `u32`; the host
//! converts with `f32::to_bits` / `f32::from_bits` at the boundary.  On the
//! wire a mesh is four counted lists, each prefixed by a big-endian `u32`
//! element count: vertices, triangle indices, normals, texture coordinates.

use vstd::prelude::*;

use crate::wire::{
    lemma_read_u32_gives_encoding, lemma_read_u32_of_encoding, push_u32_be, read_u32_be,
    spec_read_u32, spec_u32_be,
};

verus! {

/// One mesh vertex position or normal: three `f32` bit patterns.
#[derive(Debug, Clone, Copy, Eq, PartialEq, Structural)]
pub struct VertexBits {
    pub x: u32,
    pub y: u32,
    pub z: u32,
}

/// One texture coordinate pair: two `f32` bit patterns.
#[derive(Debug, Clone, Copy, Eq, PartialEq, Structural)]
pub struct UvBits {
    pub u: u32,
    pub v: u32,
}

/// Stores information for a chunk of the land, stored on the server and sent
/// to clients.
#[derive(Debug, Clone, PartialEq)]
pub struct MeshData {
    pub vertices: Vec<VertexBits>,
    pub indices: Vec<u32>,
    pub normals: Vec<VertexBits>,
    pub uvs: Vec<UvBits>,
}

/// Mathematical view of a `MeshData`.
pub struct MeshDataView {
    pub vertices: Seq<VertexBits>,
    pub indices: Seq<u32>,
    pub normals: Seq<VertexBits>,
    pub uvs: Seq<UvBits>,
}

impl View for MeshData {
    type V = MeshDataView;

    open spec fn view(&self) -> MeshDataView {
        MeshDataView {
            vertices: self.vertices@,
            indices: self.indices@,
            normals: self.normals@,
            uvs: self.uvs@,
        }
    }
}

/// Each of the four lists is short enough for its `u32` count prefix.
pub open spec fn mesh_encodable(m: MeshDataView) -> bool {
    &&& m.vertices.len() <= u32::MAX
    &&& m.indices.len() <= u32::MAX
    &&& m.normals.len() <= u32::MAX
    &&& m.uvs.len() <= u32::MAX
}

/// The twelve bytes of one vertex on the wire.
pub open spec fn spec_encode_vertex(v: VertexBits) -> Seq<u8> {
    spec_u32_be(v.x) + spec_u32_be(v.y) + spec_u32_be(v.z)
}

/// The eight bytes of one texture coordinate pair on the wire.
pub open spec fn spec_encode_uv(u: UvBits) -> Seq<u8> {
    spec_u32_be(u.u) + spec_u32_be(u.v)
}

/// The concatenated encodings of a vertex list, without its count prefix.
pub open spec fn spec_encode_vertices(vs: Seq<VertexBits>) -> Seq<u8>
    decreases vs.len(),
{
    if vs.len() == 0 {
        Seq::empty()
    } else {
        spec_encode_vertex(vs[0]) + spec_encode_vertices(vs.skip(1))
    }
}

/// The concatenated encodings of an index list, without its count prefix.
pub open spec fn spec_encode_u32s(xs: Seq<u32>) -> Seq<u8>
    decreases xs.len(),
{
    if xs.len() == 0 {
        Seq::empty()
    } else {
        spec_u32_be(xs[0]) + spec_encode_u32s(xs.skip(1))
    }
}

/// The concatenated encodings of a texture coordinate list, without its count
/// prefix.
pub open spec fn spec_encode_uvs(us: Seq<UvBits>) -> Seq<u8>
    decreases us.len(),
{
    if us.len() == 0 {
        Seq::empty()
    } else {
        spec_encode_uv(us[0]) + spec_encode_uvs(us.skip(1))
    }
}

/// The full encoding of a mesh: four count-prefixed lists.
pub open spec fn spec_encode_mesh(m: MeshDataView) -> Seq<u8> {
    spec_u32_be(m.vertices.len() as u32) + spec_encode_vertices(m.vertices) + spec_u32_be(
        m.indices.len() as u32,
    ) + spec_encode_u32s(m.indices) + spec_u32_be(m.normals.len() as u32) + spec_encode_vertices(
        m.normals,
    ) + spec_u32_be(m.uvs.len() as u32) + spec_encode_uvs(m.uvs)
}

/// A vertex list encodes to twelve bytes per element.
pub proof fn lemma_encode_vertices_len(vs: Seq<VertexBits>)
    ensures
        spec_encode_vertices(vs).len() == 12 * vs.len() as int,
    decreases vs.len(),
{
    if vs.len() > 0 {
        lemma_encode_vertices_len(vs.skip(1));
    }
}

/// An index list encodes to four bytes per element.
pub proof fn lemma_encode_u32s_len(xs: Seq<u32>)
    ensures
        spec_encode_u32s(xs).len() == 4 * xs.len(),
    decreases xs.len(),
{
    if xs.len() > 0 {
        lemma_encode_u32s_len(xs.skip(1));
    }
}

/// A texture coordinate list encodes to eight bytes per element.
pub proof fn lemma_encode_uvs_len(us: Seq<UvBits>)
    ensures
        spec_encode_uvs(us).len() == 8 * us.len(),
    decreases us.len(),
{
    if us.len() > 0 {
        lemma_encode_uvs_len(us.skip(1));
    }
}

/// Append the encoding of a vertex list (without count prefix) to `out`.
fn push_vertices(out: &mut Vec<u8>, vs: &Vec<VertexBits>)
    ensures
        final(out)@ == old(out)@ + spec_encode_vertices(vs@),
{
    let ghost target = old(out)@ + spec_encode_vertices(vs@);
    let n = vs.len();
    let mut i: usize = 0;
    assert(vs@.skip(0) =~= vs@);
    while i < n
        invariant
            i <= n,
            n == vs@.len(),
            out@ + spec_encode_vertices(vs@.skip(i as int)) == target,
        decreases n - i,
    {
        let ghost pre = out@;
        let v = vs[i];
        push_u32_be(out, v.x);
        push_u32_be(out, v.y);
        push_u32_be(out, v.z);
        proof {
            assert(out@ =~= pre + spec_encode_vertex(v));
            assert(vs@.skip(i as int)[0] == vs@[i as int]);
            assert(vs@.skip(i as int).skip(1) =~= vs@.skip(i as int + 1));
            assert(pre + spec_encode_vertices(vs@.skip(i as int)) =~= (pre + spec_encode_vertex(v))
                + spec_encode_vertices(vs@.skip(i as int + 1)));
        }
        i = i + 1;
    }
    proof {
        assert(vs@.skip(n as int) =~= Seq::<VertexBits>::empty());
        assert(out@ =~= target);
    }
}

/// Append the encoding of an index list (without count prefix) to `out`.
fn push_u32s(out: &mut Vec<u8>, xs: &Vec<u32>)
    ensures
        final(out)@ == old(out)@ + spec_encode_u32s(xs@),
{
    let ghost target = old(out)@ + spec_encode_u32s(xs@);
    let n = xs.len();
    let mut i: usize = 0;
    assert(xs@.skip(0) =~= xs@);
    while i < n
        invariant
            i <= n,
            n == xs@.len(),
            out@ + spec_encode_u32s(xs@.skip(i as int)) == target,
        decreases n - i,
    {
        let ghost pre = out@;
        push_u32_be(out, xs[i]);
        proof {
            assert(xs@.skip(i as int)[0] == xs@[i as int]);
            assert(xs@.skip(i as int).skip(1) =~= xs@.skip(i as int + 1));
            assert(pre + spec_encode_u32s(xs@.skip(i as int)) =~= (pre + spec_u32_be(xs@[i as int]))
                + spec_encode_u32s(xs@.skip(i as int + 1)));
        }
        i = i + 1;
    }
    proof {
        assert(xs@.skip(n as int) =~= Seq::<u32>::empty());
        assert(out@ =~= target);
    }
}

/// Append the encoding of a texture coordinate list (without count prefix) to
/// `out`.
fn push_uvs(out: &mut Vec<u8>, us: &Vec<UvBits>)
    ensures
        final(out)@ == old(out)@ + spec_encode_uvs(us@),
{
    let ghost target = old(out)@ + spec_encode_uvs(us@);
    let n = us.len();
    let mut i: usize = 0;
    assert(us@.skip(0) =~= us@);
    while i < n
        invariant
            i <= n,
            n == us@.len(),
            out@ + spec_encode_uvs(us@.skip(i as int)) == target,
        decreases n - i,
    {
        let ghost pre = out@;
        let u = us[i];
        push_u32_be(out, u.u);
        push_u32_be(out, u.v);
        proof {
            assert(out@ =~= pre + spec_encode_uv(u));
            assert(us@.skip(i as int)[0] == us@[i as int]);
            assert(us@.skip(i as int).skip(1) =~= us@.skip(i as int + 1));
            assert(pre + spec_encode_uvs(us@.skip(i as int)) =~= (pre + spec_encode_uv(u))
                + spec_encode_uvs(us@.skip(i as int + 1)));
        }
        i = i + 1;
    }
    proof {
        assert(us@.skip(n as int) =~= Seq::<UvBits>::empty());
        assert(out@ =~= target);
    }
}

/// Append the full encoding of a mesh to `out`.
pub fn push_mesh(out: &mut Vec<u8>, m: &MeshData)
    requires
        mesh_encodable(m@),
    ensures
        final(out)@ == old(out)@ + spec_encode_mesh(m@),
{
    push_u32_be(out, m.vertices.len() as u32);
    push_vertices(out, &m.vertices);
    push_u32_be(out, m.indices.len() as u32);
    push_u32s(out, &m.indices);
    push_u32_be(out, m.normals.len() as u32);
    push_vertices(out, &m.normals);
    push_u32_be(out, m.uvs.len() as u32);
    push_uvs(out, &m.uvs);
    assert(out@ =~= old(out)@ + spec_encode_mesh(m@));
}

/// Read one vertex at position `i`, with the position after it.
pub open spec fn spec_read_vertex(b: Seq<u8>, i: int) -> Option<(VertexBits, int)> {
    match spec_read_u32(b, i) {
        Some((x, j)) => match spec_read_u32(b, j) {
            Some((y, k)) => match spec_read_u32(b, k) {
                Some((z, l)) => Some((VertexBits { x, y, z }, l)),
                None => None,
            },
            None => None,
        },
        None => None,
    }
}

/// Read one texture coordinate pair at position `i`, with the position after
/// it.
pub open spec fn spec_read_uv(b: Seq<u8>, i: int) -> Option<(UvBits, int)> {
    match spec_read_u32(b, i) {
        Some((u, j)) => match spec_read_u32(b, j) {
            Some((v, k)) => Some((UvBits { u, v }, k)),
            None => None,
        },
        None => None,
    }
}

/// Read `n` vertices starting at position `i`, with the position after them.
pub open spec fn spec_read_vertices(b: Seq<u8>, i: int, n: int) -> Option<(Seq<VertexBits>, int)>
    decreases n,
{
    if n <= 0 {
        Some((Seq::empty(), i))
    } else {
        match spec_read_vertex(b, i) {
            Some((v, j)) => match spec_read_vertices(b, j, n - 1) {
                Some((vs, k)) => Some((seq![v] + vs, k)),
                None => None,
            },
            None => None,
        }
    }
}

/// Read `n` big-endian `u32` values starting at position `i`.
pub open spec fn spec_read_u32s(b: Seq<u8>, i: int, n: int) -> Option<(Seq<u32>, int)>
    decreases n,
{
    if n <= 0 {
        Some((Seq::empty(), i))
    } else {
        match spec_read_u32(b, i) {
            Some((x, j)) => match spec_read_u32s(b, j, n - 1) {
                Some((xs, k)) => Some((seq![x] + xs, k)),
                None => None,
            },
            None => None,
        }
    }
}

/// Read `n` texture coordinate pairs starting at position `i`.
pub open spec fn spec_read_uvs(b: Seq<u8>, i: int, n: int) -> Option<(Seq<UvBits>, int)>
    decreases n,
{
    if n <= 0 {
        Some((Seq::empty(), i))
    } else {
        match spec_read_uv(b, i) {
            Some((u, j)) => match spec_read_uvs(b, j, n - 1) {
                Some((us, k)) => Some((seq![u] + us, k)),
                None => None,
            },
            None => None,
        }
    }
}

/// Read a full mesh at position `i`: four count-prefixed lists.
pub open spec fn spec_read_mesh(b: Seq<u8>, i: int) -> Option<(MeshDataView, int)> {
    match spec_read_u32(b, i) {
        Some((nv, i1)) => match spec_read_vertices(b, i1, nv as int) {
            Some((vertices, i2)) => match spec_read_u32(b, i2) {
                Some((ni, i3)) => match spec_read_u32s(b, i3, ni as int) {
                    Some((indices, i4)) => match spec_read_u32(b, i4) {
                        Some((nn, i5)) => match spec_read_vertices(b, i5, nn as int) {
                            Some((normals, i6)) => match spec_read_u32(b, i6) {
                                Some((nu, i7)) => match spec_read_uvs(b, i7, nu as int) {
                                    Some((uvs, i8)) => Some(
                                        (MeshDataView { vertices, indices, normals, uvs }, i8),
                                    ),
                                    None => None,
                                },
                                None => None,
                            },
                            None => None,
                        },
                        None => None,
                    },
                    None => None,
                },
                None => None,
            },
            None => None,
        },
        None => None,
    }
}

/// Prepend already-read vertices to the outcome of reading the rest.
spec fn compose_vertices(acc: Seq<VertexBits>, r: Option<(Seq<VertexBits>, int)>) -> Option<
    (Seq<VertexBits>, int),
> {
    match r {
        Some((vs, j)) => Some((acc + vs, j)),
        None => None,
    }
}

/// Prepend already-read values to the outcome of reading the rest.
spec fn compose_u32s(acc: Seq<u32>, r: Option<(Seq<u32>, int)>) -> Option<(Seq<u32>, int)> {
    match r {
        Some((xs, j)) => Some((acc + xs, j)),
        None => None,
    }
}

/// Prepend already-read pairs to the outcome of reading the rest.
spec fn compose_uvs(acc: Seq<UvBits>, r: Option<(Seq<UvBits>, int)>) -> Option<(Seq<UvBits>, int)> {
    match r {
        Some((us, j)) => Some((acc + us, j)),
        None => None,
    }
}

/// Read `n` vertices from `bytes` starting at `pos`.
fn read_vertices(bytes: &Vec<u8>, pos: usize, n: u32) -> (r: Option<(Vec<VertexBits>, usize)>)
    requires
        pos <= bytes.len(),
    ensures
        match r {
            Some((vs, j)) => spec_read_vertices(bytes@, pos as int, n as int) == Some(
                (vs@, j as int),
            ) && pos <= j <= bytes.len(),
            None => spec_read_vertices(bytes@, pos as int, n as int) is None,
        },
{
    let mut vs: Vec<VertexBits> = Vec::new();
    let mut i: u32 = 0;
    let mut cur: usize = pos;
    proof {
        match spec_read_vertices(bytes@, pos as int, n as int) {
            Some((s, j)) => {
                assert(Seq::<VertexBits>::empty() + s =~= s);
            },
            None => {},
        }
    }
    while i < n
        invariant
            i <= n,
            pos <= cur <= bytes.len(),
            compose_vertices(vs@, spec_read_vertices(bytes@, cur as int, n - i))
                == spec_read_vertices(bytes@, pos as int, n as int),
        decreases n - i,
    {
        if bytes.len() - cur < 12 {
            return None;
        }
        let x = read_u32_be(bytes, cur);
        let y = read_u32_be(bytes, cur + 4);
        let z = read_u32_be(bytes, cur + 8);
        let v = VertexBits { x, y, z };
        proof {
            assert(spec_read_vertex(bytes@, cur as int) == Some((v, cur as int + 12)));
            let rest = spec_read_vertices(bytes@, cur as int + 12, n - i - 1);
            match rest {
                Some((s, j)) => {
                    assert(vs@ + (seq![v] + s) =~= vs@.push(v) + s);
                },
                None => {},
            }
        }
        vs.push(v);
        cur = cur + 12;
        i = i + 1;
    }
    proof {
        assert(spec_read_vertices(bytes@, cur as int, 0) == Some(
            (Seq::<VertexBits>::empty(), cur as int),
        ));
        assert(vs@ + Seq::<VertexBits>::empty() =~= vs@);
    }
    Some((vs, cur))
}

/// Read `n` big-endian `u32` values from `bytes` starting at `pos`.
fn read_u32s(bytes: &Vec<u8>, pos: usize, n: u32) -> (r: Option<(Vec<u32>, usize)>)
    requires
        pos <= bytes.len(),
    ensures
        match r {
            Some((xs, j)) => spec_read_u32s(bytes@, pos as int, n as int) == Some((xs@, j as int))
                && pos <= j <= bytes.len(),
            None => spec_read_u32s(bytes@, pos as int, n as int) is None,
        },
{
    let mut xs: Vec<u32> = Vec::new();
    let mut i: u32 = 0;
    let mut cur: usize = pos;
    proof {
        match spec_read_u32s(bytes@, pos as int, n as int) {
            Some((s, j)) => {
                assert(Seq::<u32>::empty() + s =~= s);
            },
            None => {},
        }
    }
    while i < n
        invariant
            i <= n,
            pos <= cur <= bytes.len(),
            compose_u32s(xs@, spec_read_u32s(bytes@, cur as int, n - i)) == spec_read_u32s(
                bytes@,
                pos as int,
                n as int,
            ),
        decreases n - i,
    {
        if bytes.len() - cur < 4 {
            return None;
        }
        let x = read_u32_be(bytes, cur);
        proof {
            let rest = spec_read_u32s(bytes@, cur as int + 4, n - i - 1);
            match rest {
                Some((s, j)) => {
                    assert(xs@ + (seq![x] + s) =~= xs@.push(x) + s);
                },
                None => {},
            }
        }
        xs.push(x);
        cur = cur + 4;
        i = i + 1;
    }
    proof {
        assert(xs@ + Seq::<u32>::empty() =~= xs@);
    }
    Some((xs, cur))
}

/// Read `n` texture coordinate pairs from `bytes` starting at `pos`.
fn read_uvs(bytes: &Vec<u8>, pos: usize, n: u32) -> (r: Option<(Vec<UvBits>, usize)>)
    requires
        pos <= bytes.len(),
    ensures
        match r {
            Some((us, j)) => spec_read_uvs(bytes@, pos as int, n as int) == Some((us@, j as int))
                && pos <= j <= bytes.len(),
            None => spec_read_uvs(bytes@, pos as int, n as int) is None,
        },
{
    let mut us: Vec<UvBits> = Vec::new();
    let mut i: u32 = 0;
    let mut cur: usize = pos;
    proof {
        match spec_read_uvs(bytes@, pos as int, n as int) {
            Some((s, j)) => {
                assert(Seq::<UvBits>::empty() + s =~= s);
            },
            None => {},
        }
    }
    while i < n
        invariant
            i <= n,
            pos <= cur <= bytes.len(),
            compose_uvs(us@, spec_read_uvs(bytes@, cur as int, n - i)) == spec_read_uvs(
                bytes@,
                pos as int,
                n as int,
            ),
        decreases n - i,
    {
        if bytes.len() - cur < 8 {
            return None;
        }
        let a = read_u32_be(bytes, cur);
        let b = read_u32_be(bytes, cur + 4);
        let u = UvBits { u: a, v: b };
        proof {
            assert(spec_read_uv(bytes@, cur as int) == Some((u, cur as int + 8)));
            let rest = spec_read_uvs(bytes@, cur as int + 8, n - i - 1);
            match rest {
                Some((s, j)) => {
                    assert(us@ + (seq![u] + s) =~= us@.push(u) + s);
                },
                None => {},
            }
        }
        us.push(u);
        cur = cur + 8;
        i = i + 1;
    }
    proof {
        assert(us@ + Seq::<UvBits>::empty() =~= us@);
    }
    Some((us, cur))
}

/// Read a full mesh from `bytes` starting at `pos`.
pub fn read_mesh(bytes: &Vec<u8>, pos: usize) -> (r: Option<(MeshData, usize)>)
    requires
        pos <= bytes.len(),
    ensures
        match r {
            Some((m, j)) => spec_read_mesh(bytes@, pos as int) == Some((m@, j as int)) && pos <= j
                <= bytes.len(),
            None => spec_read_mesh(bytes@, pos as int) is None,
        },
{
    if bytes.len() - pos < 4 {
        return None;
    }
    let nv = read_u32_be(bytes, pos);
    let (vertices, p1) = match read_vertices(bytes, pos + 4, nv) {
        Some(r) => r,
        None => {
            return None;
        },
    };
    if bytes.len() - p1 < 4 {
        return None;
    }
    let ni = read_u32_be(bytes, p1);
    let (indices, p2) = match read_u32s(bytes, p1 + 4, ni) {
        Some(r) => r,
        None => {
            return None;
        },
    };
    if bytes.len() - p2 < 4 {
        return None;
    }
    let nn = read_u32_be(bytes, p2);
    let (normals, p3) = match read_vertices(bytes, p2 + 4, nn) {
        Some(r) => r,
        None => {
            return None;
        },
    };
    if bytes.len() - p3 < 4 {
        return None;
    }
    let nu = read_u32_be(bytes, p3);
    let (uvs, p4) = match read_uvs(bytes, p3 + 4, nu) {
        Some(r) => r,
        None => {
            return None;
        },
    };
    Some((MeshData { vertices, indices, normals, uvs }, p4))
}

/// Reading at a position holding the encoding of a vertex list yields it.
pub proof fn lemma_read_vertices_of_encoding(b: Seq<u8>, i: int, vs: Seq<VertexBits>)
    requires
        0 <= i,
        i + 12 * vs.len() <= b.len(),
        b.subrange(i, i + 12 * vs.len()) == spec_encode_vertices(vs),
    ensures
        spec_read_vertices(b, i, vs.len() as int) == Some((vs, i + 12 * vs.len())),
    decreases vs.len(),
{
    lemma_encode_vertices_len(vs);
    if vs.len() == 0 {
        assert(vs =~= Seq::<VertexBits>::empty());
    } else {
        let v = vs[0];
        let all = b.subrange(i, i + 12 * vs.len());
        lemma_encode_vertices_len(vs.skip(1));
        assert(spec_encode_vertices(vs) == spec_encode_vertex(v) + spec_encode_vertices(
            vs.skip(1),
        ));
        assert(b.subrange(i, i + 4) =~= all.subrange(0, 4));
        assert(all.subrange(0, 4) =~= spec_u32_be(v.x));
        assert(b.subrange(i + 4, i + 8) =~= all.subrange(4, 8));
        assert(all.subrange(4, 8) =~= spec_u32_be(v.y));
        assert(b.subrange(i + 8, i + 12) =~= all.subrange(8, 12));
        assert(all.subrange(8, 12) =~= spec_u32_be(v.z));
        lemma_read_u32_of_encoding(b, i, v.x);
        lemma_read_u32_of_encoding(b, i + 4, v.y);
        lemma_read_u32_of_encoding(b, i + 8, v.z);
        assert(spec_read_vertex(b, i) == Some((v, i + 12)));
        assert(b.subrange(i + 12, i + 12 + 12 * vs.skip(1).len()) =~= all.subrange(
            12,
            12 * vs.len() as int,
        ));
        assert(all.subrange(12, 12 * vs.len() as int) =~= spec_encode_vertices(vs.skip(1)));
        lemma_read_vertices_of_encoding(b, i + 12, vs.skip(1));
        assert(seq![v] + vs.skip(1) =~= vs);
    }
}

/// Reading at a position holding the encoding of an index list yields it.
pub proof fn lemma_read_u32s_of_encoding(b: Seq<u8>, i: int, xs: Seq<u32>)
    requires
        0 <= i,
        i + 4 * xs.len() <= b.len(),
        b.subrange(i, i + 4 * xs.len()) == spec_encode_u32s(xs),
    ensures
        spec_read_u32s(b, i, xs.len() as int) == Some((xs, i + 4 * xs.len())),
    decreases xs.len(),
{
    lemma_encode_u32s_len(xs);
    if xs.len() == 0 {
        assert(xs =~= Seq::<u32>::empty());
    } else {
        let x = xs[0];
        let all = b.subrange(i, i + 4 * xs.len());
        lemma_encode_u32s_len(xs.skip(1));
        assert(spec_encode_u32s(xs) == spec_u32_be(x) + spec_encode_u32s(xs.skip(1)));
        assert(b.subrange(i, i + 4) =~= all.subrange(0, 4));
        assert(all.subrange(0, 4) =~= spec_u32_be(x));
        lemma_read_u32_of_encoding(b, i, x);
        assert(b.subrange(i + 4, i + 4 + 4 * xs.skip(1).len()) =~= all.subrange(4, 4 * xs.len() as int));
        assert(all.subrange(4, 4 * xs.len() as int) =~= spec_encode_u32s(xs.skip(1)));
        lemma_read_u32s_of_encoding(b, i + 4, xs.skip(1));
        assert(seq![x] + xs.skip(1) =~= xs);
    }
}

/// Reading at a position holding the encoding of a texture coordinate list
/// yields it.
pub proof fn lemma_read_uvs_of_encoding(b: Seq<u8>, i: int, us: Seq<UvBits>)
    requires
        0 <= i,
        i + 8 * us.len() <= b.len(),
        b.subrange(i, i + 8 * us.len()) == spec_encode_uvs(us),
    ensures
        spec_read_uvs(b, i, us.len() as int) == Some((us, i + 8 * us.len())),
    decreases us.len(),
{
    lemma_encode_uvs_len(us);
    if us.len() == 0 {
        assert(us =~= Seq::<UvBits>::empty());
    } else {
        let u = us[0];
        let all = b.subrange(i, i + 8 * us.len());
        lemma_encode_uvs_len(us.skip(1));
        assert(spec_encode_uvs(us) == spec_encode_uv(u) + spec_encode_uvs(us.skip(1)));
        assert(b.subrange(i, i + 4) =~= all.subrange(0, 4));
        assert(all.subrange(0, 4) =~= spec_u32_be(u.u));
        assert(b.subrange(i + 4, i + 8) =~= all.subrange(4, 8));
        assert(all.subrange(4, 8) =~= spec_u32_be(u.v));
        lemma_read_u32_of_encoding(b, i, u.u);
        lemma_read_u32_of_encoding(b, i + 4, u.v);
        assert(spec_read_uv(b, i) == Some((u, i + 8)));
        assert(b.subrange(i + 8, i + 8 + 8 * us.skip(1).len()) =~= all.subrange(8, 8 * us.len() as int));
        assert(all.subrange(8, 8 * us.len() as int) =~= spec_encode_uvs(us.skip(1)));
        lemma_read_uvs_of_encoding(b, i + 8, us.skip(1));
        assert(seq![u] + us.skip(1) =~= us);
    }
}

/// Reading at a position holding the encoding of a mesh yields it.
#[verifier::rlimit(50)]
pub proof fn lemma_read_mesh_of_encoding(b: Seq<u8>, i: int, m: MeshDataView)
    requires
        mesh_encodable(m),
        0 <= i,
        i + spec_encode_mesh(m).len() <= b.len(),
        b.subrange(i, i + spec_encode_mesh(m).len()) == spec_encode_mesh(m),
    ensures
        spec_read_mesh(b, i) == Some((m, i + spec_encode_mesh(m).len())),
{
    lemma_encode_vertices_len(m.vertices);
    lemma_encode_u32s_len(m.indices);
    lemma_encode_vertices_len(m.normals);
    lemma_encode_uvs_len(m.uvs);
    let body = spec_encode_mesh(m);
    let o1 = i + 4;
    let o2 = o1 + 12 * m.vertices.len();
    let o3 = o2 + 4;
    let o4 = o3 + 4 * m.indices.len();
    let o5 = o4 + 4;
    let o6 = o5 + 12 * m.normals.len();
    let o7 = o6 + 4;
    let o8 = o7 + 8 * m.uvs.len();
    assert(body.len() == o8 - i);
    let all = b.subrange(i, i + body.len());
    assert(b.subrange(i, o1) =~= all.subrange(0, 4));
    assert(all.subrange(0, 4) =~= spec_u32_be(m.vertices.len() as u32));
    lemma_read_u32_of_encoding(b, i, m.vertices.len() as u32);
    assert(b.subrange(o1, o2) =~= all.subrange(o1 - i, o2 - i));
    assert(all.subrange(o1 - i, o2 - i) =~= spec_encode_vertices(m.vertices));
    lemma_read_vertices_of_encoding(b, o1, m.vertices);
    assert(b.subrange(o2, o3) =~= all.subrange(o2 - i, o3 - i));
    assert(all.subrange(o2 - i, o3 - i) =~= spec_u32_be(m.indices.len() as u32));
    lemma_read_u32_of_encoding(b, o2, m.indices.len() as u32);
    assert(b.subrange(o3, o4) =~= all.subrange(o3 - i, o4 - i));
    assert(all.subrange(o3 - i, o4 - i) =~= spec_encode_u32s(m.indices));
    lemma_read_u32s_of_encoding(b, o3, m.indices);
    assert(b.subrange(o4, o5) =~= all.subrange(o4 - i, o5 - i));
    assert(all.subrange(o4 - i, o5 - i) =~= spec_u32_be(m.normals.len() as u32));
    lemma_read_u32_of_encoding(b, o4, m.normals.len() as u32);
    assert(b.subrange(o5, o6) =~= all.subrange(o5 - i, o6 - i));
    assert(all.subrange(o5 - i, o6 - i) =~= spec_encode_vertices(m.normals));
    lemma_read_vertices_of_encoding(b, o5, m.normals);
    assert(b.subrange(o6, o7) =~= all.subrange(o6 - i, o7 - i));
    assert(all.subrange(o6 - i, o7 - i) =~= spec_u32_be(m.uvs.len() as u32));
    lemma_read_u32_of_encoding(b, o6, m.uvs.len() as u32);
    assert(b.subrange(o7, o8) =~= all.subrange(o7 - i, o8 - i));
    assert(all.subrange(o7 - i, o8 - i) =~= spec_encode_uvs(m.uvs));
    lemma_read_uvs_of_encoding(b, o7, m.uvs);
    assert(m == MeshDataView {
        vertices: m.vertices,
        indices: m.indices,
        normals: m.normals,
        uvs: m.uvs,
    });
}

/// A successful vertex list read consumed exactly the encoding of its result.
pub proof fn lemma_read_vertices_gives_encoding(b: Seq<u8>, i: int, n: int)
    requires
        0 <= i <= b.len(),
        0 <= n,
        spec_read_vertices(b, i, n) is Some,
    ensures
        spec_read_vertices(b, i, n) matches Some((vs, j)) ==> vs.len() == n && j == i + 12 * n && i
            <= j <= b.len() && b.subrange(i, j) == spec_encode_vertices(vs),
    decreases n,
{
    if n == 0 {
        assert(b.subrange(i, i) =~= spec_encode_vertices(Seq::<VertexBits>::empty()));
    } else {
        let (v, j1) = spec_read_vertex(b, i).unwrap();
        lemma_read_u32_gives_encoding(b, i);
        lemma_read_u32_gives_encoding(b, i + 4);
        lemma_read_u32_gives_encoding(b, i + 8);
        assert(j1 == i + 12);
        assert(b.subrange(i, i + 12) =~= spec_encode_vertex(v));
        lemma_read_vertices_gives_encoding(b, i + 12, n - 1);
        let (rest, j) = spec_read_vertices(b, i + 12, n - 1).unwrap();
        let vs = seq![v] + rest;
        assert(vs[0] == v);
        assert(vs.skip(1) =~= rest);
        assert(b.subrange(i, j) =~= b.subrange(i, i + 12) + b.subrange(i + 12, j));
        assert(b.subrange(i, j) == spec_encode_vertices(vs));
    }
}

/// A successful index list read consumed exactly the encoding of its result.
pub proof fn lemma_read_u32s_gives_encoding(b: Seq<u8>, i: int, n: int)
    requires
        0 <= i <= b.len(),
        0 <= n,
        spec_read_u32s(b, i, n) is Some,
    ensures
        spec_read_u32s(b, i, n) matches Some((xs, j)) ==> xs.len() == n && j == i + 4 * n && i <= j
            <= b.len() && b.subrange(i, j) == spec_encode_u32s(xs),
    decreases n,
{
    if n == 0 {
        assert(b.subrange(i, i) =~= spec_encode_u32s(Seq::<u32>::empty()));
    } else {
        let (x, j1) = spec_read_u32(b, i).unwrap();
        lemma_read_u32_gives_encoding(b, i);
        lemma_read_u32s_gives_encoding(b, i + 4, n - 1);
        let (rest, j) = spec_read_u32s(b, i + 4, n - 1).unwrap();
        let xs = seq![x] + rest;
        assert(xs[0] == x);
        assert(xs.skip(1) =~= rest);
        assert(b.subrange(i, j) =~= b.subrange(i, i + 4) + b.subrange(i + 4, j));
        assert(b.subrange(i, j) == spec_encode_u32s(xs));
    }
}

/// A successful texture coordinate list read consumed exactly the encoding of
/// its result.
pub proof fn lemma_read_uvs_gives_encoding(b: Seq<u8>, i: int, n: int)
    requires
        0 <= i <= b.len(),
        0 <= n,
        spec_read_uvs(b, i, n) is Some,
    ensures
        spec_read_uvs(b, i, n) matches Some((us, j)) ==> us.len() == n && j == i + 8 * n && i <= j
            <= b.len() && b.subrange(i, j) == spec_encode_uvs(us),
    decreases n,
{
    if n == 0 {
        assert(b.subrange(i, i) =~= spec_encode_uvs(Seq::<UvBits>::empty()));
    } else {
        let (u, j1) = spec_read_uv(b, i).unwrap();
        lemma_read_u32_gives_encoding(b, i);
        lemma_read_u32_gives_encoding(b, i + 4);
        assert(j1 == i + 8);
        assert(b.subrange(i, i + 8) =~= spec_encode_uv(u));
        lemma_read_uvs_gives_encoding(b, i + 8, n - 1);
        let (rest, j) = spec_read_uvs(b, i + 8, n - 1).unwrap();
        let us = seq![u] + rest;
        assert(us[0] == u);
        assert(us.skip(1) =~= rest);
        assert(b.subrange(i, j) =~= b.subrange(i, i + 8) + b.subrange(i + 8, j));
        assert(b.subrange(i, j) == spec_encode_uvs(us));
    }
}

/// A successful mesh read consumed exactly the encoding of its result, which
/// is an encodable mesh.
#[verifier::rlimit(50)]
pub proof fn lemma_read_mesh_gives_encoding(b: Seq<u8>, i: int)
    requires
        0 <= i <= b.len(),
        spec_read_mesh(b, i) is Some,
    ensures
        spec_read_mesh(b, i) matches Some((m, j)) ==> mesh_encodable(m) && i <= j <= b.len()
            && j == i + spec_encode_mesh(m).len() && b.subrange(i, j) == spec_encode_mesh(m),
{
    let (m, j) = spec_read_mesh(b, i).unwrap();
    let (nv, o1) = spec_read_u32(b, i).unwrap();
    lemma_read_u32_gives_encoding(b, i);
    lemma_read_vertices_gives_encoding(b, o1, nv as int);
    let (vertices, o2) = spec_read_vertices(b, o1, nv as int).unwrap();
    let (ni, o3) = spec_read_u32(b, o2).unwrap();
    lemma_read_u32_gives_encoding(b, o2);
    lemma_read_u32s_gives_encoding(b, o3, ni as int);
    let (indices, o4) = spec_read_u32s(b, o3, ni as int).unwrap();
    let (nn, o5) = spec_read_u32(b, o4).unwrap();
    lemma_read_u32_gives_encoding(b, o4);
    lemma_read_vertices_gives_encoding(b, o5, nn as int);
    let (normals, o6) = spec_read_vertices(b, o5, nn as int).unwrap();
    let (nu, o7) = spec_read_u32(b, o6).unwrap();
    lemma_read_u32_gives_encoding(b, o6);
    lemma_read_uvs_gives_encoding(b, o7, nu as int);
    let (uvs, o8) = spec_read_uvs(b, o7, nu as int).unwrap();
    lemma_encode_vertices_len(vertices);
    lemma_encode_u32s_len(indices);
    lemma_encode_vertices_len(normals);
    lemma_encode_uvs_len(uvs);
    assert(nv == vertices.len() && ni == indices.len() && nn == normals.len() && nu == uvs.len());
    assert(b.subrange(i, o2) =~= b.subrange(i, o1) + b.subrange(o1, o2));
    assert(b.subrange(i, o3) =~= b.subrange(i, o2) + b.subrange(o2, o3));
    assert(b.subrange(i, o4) =~= b.subrange(i, o3) + b.subrange(o3, o4));
    assert(b.subrange(i, o5) =~= b.subrange(i, o4) + b.subrange(o4, o5));
    assert(b.subrange(i, o6) =~= b.subrange(i, o5) + b.subrange(o5, o6));
    assert(b.subrange(i, o7) =~= b.subrange(i, o6) + b.subrange(o6, o7));
    assert(b.subrange(i, o8) =~= b.subrange(i, o7) + b.subrange(o7, o8));
    assert(b.subrange(i, o8) == spec_encode_mesh(m));
}

} // verus!
