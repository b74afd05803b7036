//! Big-endian byte-order helpers for the wire format: `u32` and `u64` values
//! written most-significant byte first, with round-trip lemmas in both
//! directions.

use vstd::prelude::*;

verus! {

/// The four bytes of `x` in network (big-endian) order.
pub open spec fn spec_u32_be(x: u32) -> Seq<u8> {
    seq![
        ((x >> 24) & 0xff) as u8,
        ((x >> 16) & 0xff) as u8,
        ((x >> 8) & 0xff) as u8,
        (x & 0xff) as u8,
    ]
}

/// The `u32` read from four bytes in network (big-endian) order.
pub open spec fn spec_u32_from_be(s: Seq<u8>) -> u32
    recommends
        s.len() == 4,
{
    (((s[0] as u32) << 24) | ((s[1] as u32) << 16) | ((s[2] as u32) << 8) | (s[3] as u32)) as u32
}

/// The eight bytes of `x` in network (big-endian) order.
pub open spec fn spec_u64_be(x: u64) -> Seq<u8> {
    seq![
        ((x >> 56) & 0xff) as u8,
        ((x >> 48) & 0xff) as u8,
        ((x >> 40) & 0xff) as u8,
        ((x >> 32) & 0xff) as u8,
        ((x >> 24) & 0xff) as u8,
        ((x >> 16) & 0xff) as u8,
        ((x >> 8) & 0xff) as u8,
        (x & 0xff) as u8,
    ]
}

/// The `u64` read from eight bytes in network (big-endian) order.
pub open spec fn spec_u64_from_be(s: Seq<u8>) -> u64
    recommends
        s.len() == 8,
{
    (((s[0] as u64) << 56) | ((s[1] as u64) << 48) | ((s[2] as u64) << 40) | ((s[3] as u64)
        << 32) | ((s[4] as u64) << 24) | ((s[5] as u64) << 16) | ((s[6] as u64) << 8) | (
    s[7] as u64)) as u64
}

/// Writing a `u32` and reading it back yields the same value, and reading four
/// bytes and writing the result back yields the same bytes.
pub proof fn lemma_u32_be_round_trip()
    ensures
        forall|x: u32| #[trigger] spec_u32_from_be(spec_u32_be(x)) == x,
        forall|s: Seq<u8>| s.len() == 4 ==> #[trigger] spec_u32_be(spec_u32_from_be(s)) =~= s,
{
    assert forall|x: u32| #[trigger] spec_u32_from_be(spec_u32_be(x)) == x by {
        assert((((((x >> 24) & 0xff) as u8) as u32) << 24) | (((((x >> 16) & 0xff) as u8) as u32)
            << 16) | (((((x >> 8) & 0xff) as u8) as u32) << 8) | ((((x & 0xff) as u8) as u32))
            == x) by (bit_vector);
    }
    assert forall|s: Seq<u8>| s.len() == 4 implies #[trigger] spec_u32_be(spec_u32_from_be(s))
        =~= s by {
        let a = s[0];
        let b = s[1];
        let c = s[2];
        let d = s[3];
        let x = spec_u32_from_be(s);
        assert({
            let y = (((a as u32) << 24) | ((b as u32) << 16) | ((c as u32) << 8) | (
            d as u32)) as u32;
            &&& ((y >> 24) & 0xff) as u8 == a
            &&& ((y >> 16) & 0xff) as u8 == b
            &&& ((y >> 8) & 0xff) as u8 == c
            &&& (y & 0xff) as u8 == d
        }) by (bit_vector);
        assert(spec_u32_be(x)[0] == a);
        assert(spec_u32_be(x)[1] == b);
        assert(spec_u32_be(x)[2] == c);
        assert(spec_u32_be(x)[3] == d);
    }
}

/// Writing a `u64` and reading it back yields the same value, and reading
/// eight bytes and writing the result back yields the same bytes.
pub proof fn lemma_u64_be_round_trip()
    ensures
        forall|x: u64| #[trigger] spec_u64_from_be(spec_u64_be(x)) == x,
        forall|s: Seq<u8>| s.len() == 8 ==> #[trigger] spec_u64_be(spec_u64_from_be(s)) =~= s,
{
    assert forall|x: u64| #[trigger] spec_u64_from_be(spec_u64_be(x)) == x by {
        assert((((((x >> 56) & 0xff) as u8) as u64) << 56) | (((((x >> 48) & 0xff) as u8) as u64)
            << 48) | (((((x >> 40) & 0xff) as u8) as u64) << 40) | (((((x >> 32) & 0xff) as u8)
            as u64) << 32) | (((((x >> 24) & 0xff) as u8) as u64) << 24) | (((((x >> 16)
            & 0xff) as u8) as u64) << 16) | (((((x >> 8) & 0xff) as u8) as u64) << 8) | ((((x
            & 0xff) as u8) as u64)) == x) by (bit_vector);
    }
    assert forall|s: Seq<u8>| s.len() == 8 implies #[trigger] spec_u64_be(spec_u64_from_be(s))
        =~= s by {
        let b0 = s[0];
        let b1 = s[1];
        let b2 = s[2];
        let b3 = s[3];
        let b4 = s[4];
        let b5 = s[5];
        let b6 = s[6];
        let b7 = s[7];
        let x = spec_u64_from_be(s);
        assert({
            let y = (((b0 as u64) << 56) | ((b1 as u64) << 48) | ((b2 as u64) << 40) | ((
            b3 as u64) << 32) | ((b4 as u64) << 24) | ((b5 as u64) << 16) | ((b6 as u64) << 8)
                | (b7 as u64)) as u64;
            &&& ((y >> 56) & 0xff) as u8 == b0
            &&& ((y >> 48) & 0xff) as u8 == b1
            &&& ((y >> 40) & 0xff) as u8 == b2
            &&& ((y >> 32) & 0xff) as u8 == b3
            &&& ((y >> 24) & 0xff) as u8 == b4
            &&& ((y >> 16) & 0xff) as u8 == b5
            &&& ((y >> 8) & 0xff) as u8 == b6
            &&& (y & 0xff) as u8 == b7
        }) by (bit_vector);
        assert(spec_u64_be(x)[0] == b0);
        assert(spec_u64_be(x)[1] == b1);
        assert(spec_u64_be(x)[2] == b2);
        assert(spec_u64_be(x)[3] == b3);
        assert(spec_u64_be(x)[4] == b4);
        assert(spec_u64_be(x)[5] == b5);
        assert(spec_u64_be(x)[6] == b6);
        assert(spec_u64_be(x)[7] == b7);
    }
}

/// Read one byte at position `i`, with the position after it.
pub open spec fn spec_read_u8(b: Seq<u8>, i: int) -> Option<(u8, int)> {
    if 0 <= i && i + 1 <= b.len() {
        Some((b[i], i + 1))
    } else {
        None
    }
}

/// Read a big-endian `u32` at position `i`, with the position after it.
pub open spec fn spec_read_u32(b: Seq<u8>, i: int) -> Option<(u32, int)> {
    if 0 <= i && i + 4 <= b.len() {
        Some((spec_u32_from_be(b.subrange(i, i + 4)), i + 4))
    } else {
        None
    }
}

/// Read a big-endian `u64` at position `i`, with the position after it.
pub open spec fn spec_read_u64(b: Seq<u8>, i: int) -> Option<(u64, int)> {
    if 0 <= i && i + 8 <= b.len() {
        Some((spec_u64_from_be(b.subrange(i, i + 8)), i + 8))
    } else {
        None
    }
}

/// Reading at a position holding the encoding of `x` yields `x`.
pub proof fn lemma_read_u32_of_encoding(b: Seq<u8>, i: int, x: u32)
    requires
        0 <= i,
        i + 4 <= b.len(),
        b.subrange(i, i + 4) == spec_u32_be(x),
    ensures
        spec_read_u32(b, i) == Some((x, i + 4)),
{
    lemma_u32_be_round_trip();
}

/// A successful `u32` read consumed exactly the encoding of its result.
pub proof fn lemma_read_u32_gives_encoding(b: Seq<u8>, i: int)
    requires
        spec_read_u32(b, i) is Some,
    ensures
        spec_read_u32(b, i) matches Some((x, j)) ==> j == i + 4 && b.subrange(i, j)
            == spec_u32_be(x),
{
    lemma_u32_be_round_trip();
}

/// Reading at a position holding the encoding of `x` yields `x`.
pub proof fn lemma_read_u64_of_encoding(b: Seq<u8>, i: int, x: u64)
    requires
        0 <= i,
        i + 8 <= b.len(),
        b.subrange(i, i + 8) == spec_u64_be(x),
    ensures
        spec_read_u64(b, i) == Some((x, i + 8)),
{
    lemma_u64_be_round_trip();
}

/// A successful `u64` read consumed exactly the encoding of its result.
pub proof fn lemma_read_u64_gives_encoding(b: Seq<u8>, i: int)
    requires
        spec_read_u64(b, i) is Some,
    ensures
        spec_read_u64(b, i) matches Some((x, j)) ==> j == i + 8 && b.subrange(i, j)
            == spec_u64_be(x),
{
    lemma_u64_be_round_trip();
}

/// Append the four big-endian bytes of `x` to `out`.
pub fn push_u32_be(out: &mut Vec<u8>, x: u32)
    ensures
        final(out)@ == old(out)@ + spec_u32_be(x),
{
    proof {
        assert(((x >> 24) & 0xff) < 256 && ((x >> 16) & 0xff) < 256 && ((x >> 8) & 0xff) < 256
            && (x & 0xff) < 256) by (bit_vector);
    }
    out.push(((x >> 24) & 0xff) as u8);
    out.push(((x >> 16) & 0xff) as u8);
    out.push(((x >> 8) & 0xff) as u8);
    out.push((x & 0xff) as u8);
    assert(out@ =~= old(out)@ + spec_u32_be(x));
}

/// Append the eight big-endian bytes of `x` to `out`.
pub fn push_u64_be(out: &mut Vec<u8>, x: u64)
    ensures
        final(out)@ == old(out)@ + spec_u64_be(x),
{
    proof {
        assert(((x >> 56) & 0xff) < 256 && ((x >> 48) & 0xff) < 256 && ((x >> 40) & 0xff) < 256
            && ((x >> 32) & 0xff) < 256 && ((x >> 24) & 0xff) < 256 && ((x >> 16) & 0xff) < 256
            && ((x >> 8) & 0xff) < 256 && (x & 0xff) < 256) by (bit_vector);
    }
    out.push(((x >> 56) & 0xff) as u8);
    out.push(((x >> 48) & 0xff) as u8);
    out.push(((x >> 40) & 0xff) as u8);
    out.push(((x >> 32) & 0xff) as u8);
    out.push(((x >> 24) & 0xff) as u8);
    out.push(((x >> 16) & 0xff) as u8);
    out.push(((x >> 8) & 0xff) as u8);
    out.push((x & 0xff) as u8);
    assert(out@ =~= old(out)@ + spec_u64_be(x));
}

/// Read a big-endian `u32` from `bytes` at position `pos`.
pub fn read_u32_be(bytes: &Vec<u8>, pos: usize) -> (x: u32)
    requires
        pos + 4 <= bytes.len(),
    ensures
        x == spec_u32_from_be(bytes@.subrange(pos as int, pos as int + 4)),
{
    let x = ((bytes[pos] as u32) << 24) | ((bytes[pos + 1] as u32) << 16) | ((bytes[pos + 2]
        as u32) << 8) | (bytes[pos + 3] as u32);
    proof {
        let s = bytes@.subrange(pos as int, pos as int + 4);
        assert(s[0] == bytes@[pos as int] && s[1] == bytes@[pos as int + 1] && s[2] == bytes@[
            pos as int + 2] && s[3] == bytes@[pos as int + 3]);
    }
    x
}

/// Read a big-endian `u64` from `bytes` at position `pos`.
pub fn read_u64_be(bytes: &Vec<u8>, pos: usize) -> (x: u64)
    requires
        pos + 8 <= bytes.len(),
    ensures
        x == spec_u64_from_be(bytes@.subrange(pos as int, pos as int + 8)),
{
    let x = ((bytes[pos] as u64) << 56) | ((bytes[pos + 1] as u64) << 48) | ((bytes[pos + 2]
        as u64) << 40) | ((bytes[pos + 3] as u64) << 32) | ((bytes[pos + 4] as u64) << 24) | ((
    bytes[pos + 5] as u64) << 16) | ((bytes[pos + 6] as u64) << 8) | (bytes[pos + 7] as u64);
    proof {
        let s = bytes@.subrange(pos as int, pos as int + 8);
        assert(s[0] == bytes@[pos as int] && s[1] == bytes@[pos as int + 1] && s[2] == bytes@[
            pos as int + 2] && s[3] == bytes@[pos as int + 3] && s[4] == bytes@[pos as int + 4]
            && s[5] == bytes@[pos as int + 5] && s[6] == bytes@[pos as int + 6] && s[7]
            == bytes@[pos as int + 7]);
    }
    x
}

} // verus!
