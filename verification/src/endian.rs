//! Reading and writing unsigned integers in either byte order.

use vstd::prelude::*;
use vstd::slice::slice_subrange;

use crate::error::Error;

verus! {

/// The order in which the bytes of an integer are stored.
#[derive(Clone, Copy, Debug, PartialEq, Eq, Structural)]
pub enum Endianness {
    /// Least significant byte first.
    Little,
    /// Most significant byte first.
    Big,
}

/// The 16-bit integer stored at `p`.
#[verifier::opaque]
pub open spec fn u16_at(e: Endianness, s: Seq<u8>, p: int) -> int {
    match e {
        Endianness::Little => s[p] + 256 * s[p + 1],
        Endianness::Big => 256 * s[p] + s[p + 1],
    }
}

/// The 32-bit integer stored at `p`.
#[verifier::opaque]
pub open spec fn u32_at(e: Endianness, s: Seq<u8>, p: int) -> int {
    match e {
        Endianness::Little => u16_at(e, s, p) + 0x1_0000 * u16_at(e, s, p + 2),
        Endianness::Big => 0x1_0000 * u16_at(e, s, p) + u16_at(e, s, p + 2),
    }
}

/// The 64-bit integer stored at `p`.
#[verifier::opaque]
pub open spec fn u64_at(e: Endianness, s: Seq<u8>, p: int) -> int {
    match e {
        Endianness::Little => u32_at(e, s, p) + 0x1_0000_0000 * u32_at(e, s, p + 4),
        Endianness::Big => 0x1_0000_0000 * u32_at(e, s, p) + u32_at(e, s, p + 4),
    }
}

/// The two bytes that store `v`.
#[verifier::opaque]
pub open spec fn u16_bytes(e: Endianness, v: int) -> Seq<u8> {
    match e {
        Endianness::Little => seq![(v % 256) as u8, (v / 256) as u8],
        Endianness::Big => seq![(v / 256) as u8, (v % 256) as u8],
    }
}

/// The four bytes that store `v`.
#[verifier::opaque]
pub open spec fn u32_bytes(e: Endianness, v: int) -> Seq<u8> {
    match e {
        Endianness::Little => u16_bytes(e, v % 0x1_0000) + u16_bytes(e, v / 0x1_0000),
        Endianness::Big => u16_bytes(e, v / 0x1_0000) + u16_bytes(e, v % 0x1_0000),
    }
}

/// The eight bytes that store `v`.
#[verifier::opaque]
pub open spec fn u64_bytes(e: Endianness, v: int) -> Seq<u8> {
    match e {
        Endianness::Little => u32_bytes(e, v % 0x1_0000_0000) + u32_bytes(e, v / 0x1_0000_0000),
        Endianness::Big => u32_bytes(e, v / 0x1_0000_0000) + u32_bytes(e, v % 0x1_0000_0000),
    }
}

pub broadcast proof fn lemma_u16_bytes_len(e: Endianness, v: int)
    ensures
        (#[trigger] u16_bytes(e, v)).len() == 2,
{
    reveal(u16_bytes);
}

pub broadcast proof fn lemma_u32_bytes_len(e: Endianness, v: int)
    ensures
        (#[trigger] u32_bytes(e, v)).len() == 4,
{
    reveal(u32_bytes);
    reveal(u16_bytes);
}

pub broadcast proof fn lemma_u64_bytes_len(e: Endianness, v: int)
    ensures
        (#[trigger] u64_bytes(e, v)).len() == 8,
{
    broadcast use lemma_u32_bytes_len;

    reveal(u64_bytes);
}

pub broadcast proof fn lemma_u16_range(e: Endianness, s: Seq<u8>, p: int)
    ensures
        0 <= #[trigger] u16_at(e, s, p) < 0x1_0000,
{
    reveal(u16_at);
}

pub broadcast proof fn lemma_u32_range(e: Endianness, s: Seq<u8>, p: int)
    ensures
        0 <= #[trigger] u32_at(e, s, p) < 0x1_0000_0000,
{
    broadcast use lemma_u16_range;

    reveal(u32_at);
}

pub broadcast proof fn lemma_u64_range(e: Endianness, s: Seq<u8>, p: int)
    ensures
        0 <= #[trigger] u64_at(e, s, p) < 0x1_0000_0000_0000_0000,
{
    broadcast use lemma_u32_range;

    reveal(u64_at);
}

/// The widths of stored integers, and the ranges of read ones.
pub broadcast group group_widths {
    lemma_u16_bytes_len,
    lemma_u32_bytes_len,
    lemma_u64_bytes_len,
    lemma_u16_range,
    lemma_u32_range,
    lemma_u64_range,
}

/// What is stored at a place depends on the bytes there alone.
pub proof fn lemma_u16_agree(e: Endianness, a: Seq<u8>, p: int, b: Seq<u8>, q: int)
    requires
        forall|i: int| 0 <= i < 2 ==> #[trigger] a[p + i] == b[q + i],
    ensures
        u16_at(e, a, p) == u16_at(e, b, q),
{
    reveal(u16_at);
    assert(a[p + 0] == b[q + 0]);
    assert(a[p + 1] == b[q + 1]);
}

/// What is stored at a place depends on the bytes there alone.
pub proof fn lemma_u32_agree(e: Endianness, a: Seq<u8>, p: int, b: Seq<u8>, q: int)
    requires
        forall|i: int| 0 <= i < 4 ==> #[trigger] a[p + i] == b[q + i],
    ensures
        u32_at(e, a, p) == u32_at(e, b, q),
{
    reveal(u32_at);
    lemma_u16_agree(e, a, p, b, q);
    assert forall|i: int| 0 <= i < 2 implies #[trigger] a[p + 2 + i] == b[q + 2 + i] by {
        assert(a[p + (2 + i)] == b[q + (2 + i)]);
    }
    lemma_u16_agree(e, a, p + 2, b, q + 2);
}

/// What is stored at a place depends on the bytes there alone.
pub proof fn lemma_u64_agree(e: Endianness, a: Seq<u8>, p: int, b: Seq<u8>, q: int)
    requires
        forall|i: int| 0 <= i < 8 ==> #[trigger] a[p + i] == b[q + i],
    ensures
        u64_at(e, a, p) == u64_at(e, b, q),
{
    reveal(u64_at);
    lemma_u32_agree(e, a, p, b, q);
    assert forall|i: int| 0 <= i < 4 implies #[trigger] a[p + 4 + i] == b[q + 4 + i] by {
        assert(a[p + (4 + i)] == b[q + (4 + i)]);
    }
    lemma_u32_agree(e, a, p + 4, b, q + 4);
}

/// An integer that was stored in a byte order is read back in the same order.
pub proof fn lemma_u16_round_trip(e: Endianness, s: Seq<u8>, p: int, v: int)
    requires
        0 <= v < 0x1_0000,
        0 <= p,
        p + 2 <= s.len(),
        s.subrange(p, p + 2) == u16_bytes(e, v),
    ensures
        u16_at(e, s, p) == v,
{
    broadcast use group_widths;

    reveal(u16_at);
    reveal(u16_bytes);
    let t = s.subrange(p, p + 2);
    assert(t[0] == s[p]);
    assert(t[1] == s[p + 1]);
}

/// An integer that was stored in a byte order is read back in the same order.
pub proof fn lemma_u32_round_trip(e: Endianness, s: Seq<u8>, p: int, v: int)
    requires
        0 <= v < 0x1_0000_0000,
        0 <= p,
        p + 4 <= s.len(),
        s.subrange(p, p + 4) == u32_bytes(e, v),
    ensures
        u32_at(e, s, p) == v,
{
    broadcast use group_widths;

    reveal(u32_at);
    reveal(u32_bytes);
    let t = s.subrange(p, p + 4);
    assert(s.subrange(p, p + 2) =~= t.subrange(0, 2));
    assert(s.subrange(p + 2, p + 4) =~= t.subrange(2, 4));
    let hi = v / 0x1_0000;
    let lo = v % 0x1_0000;
    match e {
        Endianness::Little => {
            assert(t.subrange(0, 2) =~= u16_bytes(e, lo));
            assert(t.subrange(2, 4) =~= u16_bytes(e, hi));
            lemma_u16_round_trip(e, s, p, lo);
            lemma_u16_round_trip(e, s, p + 2, hi);
        },
        Endianness::Big => {
            assert(t.subrange(0, 2) =~= u16_bytes(e, hi));
            assert(t.subrange(2, 4) =~= u16_bytes(e, lo));
            lemma_u16_round_trip(e, s, p, hi);
            lemma_u16_round_trip(e, s, p + 2, lo);
        },
    }
}

/// An integer that was stored in a byte order is read back in the same order.
pub proof fn lemma_u64_round_trip(e: Endianness, s: Seq<u8>, p: int, v: int)
    requires
        0 <= v < 0x1_0000_0000_0000_0000,
        0 <= p,
        p + 8 <= s.len(),
        s.subrange(p, p + 8) == u64_bytes(e, v),
    ensures
        u64_at(e, s, p) == v,
{
    broadcast use group_widths;

    reveal(u64_at);
    reveal(u64_bytes);
    let t = s.subrange(p, p + 8);
    assert(s.subrange(p, p + 4) =~= t.subrange(0, 4));
    assert(s.subrange(p + 4, p + 8) =~= t.subrange(4, 8));
    let hi = v / 0x1_0000_0000;
    let lo = v % 0x1_0000_0000;
    match e {
        Endianness::Little => {
            assert(t.subrange(0, 4) =~= u32_bytes(e, lo));
            assert(t.subrange(4, 8) =~= u32_bytes(e, hi));
            lemma_u32_round_trip(e, s, p, lo);
            lemma_u32_round_trip(e, s, p + 4, hi);
        },
        Endianness::Big => {
            assert(t.subrange(0, 4) =~= u32_bytes(e, hi));
            assert(t.subrange(4, 8) =~= u32_bytes(e, lo));
            lemma_u32_round_trip(e, s, p, hi);
            lemma_u32_round_trip(e, s, p + 4, lo);
        },
    }
}

/// The bytes at a place are those of the integer that is read there.
pub proof fn lemma_u16_bytes_of_at(e: Endianness, s: Seq<u8>, p: int)
    requires
        0 <= p,
        p + 2 <= s.len(),
    ensures
        u16_bytes(e, u16_at(e, s, p)) == s.subrange(p, p + 2),
{
    broadcast use group_widths;

    reveal(u16_at);
    reveal(u16_bytes);
    assert(u16_bytes(e, u16_at(e, s, p)) =~= s.subrange(p, p + 2));
}

/// The bytes at a place are those of the integer that is read there.
pub proof fn lemma_u32_bytes_of_at(e: Endianness, s: Seq<u8>, p: int)
    requires
        0 <= p,
        p + 4 <= s.len(),
    ensures
        u32_bytes(e, u32_at(e, s, p)) == s.subrange(p, p + 4),
{
    broadcast use group_widths;

    reveal(u32_at);
    reveal(u32_bytes);
    lemma_u16_bytes_of_at(e, s, p);
    lemma_u16_bytes_of_at(e, s, p + 2);
    assert(s.subrange(p, p + 4) =~= s.subrange(p, p + 2) + s.subrange(p + 2, p + 4));
}

/// The bytes at a place are those of the integer that is read there.
pub proof fn lemma_u64_bytes_of_at(e: Endianness, s: Seq<u8>, p: int)
    requires
        0 <= p,
        p + 8 <= s.len(),
    ensures
        u64_bytes(e, u64_at(e, s, p)) == s.subrange(p, p + 8),
{
    broadcast use group_widths;

    reveal(u64_at);
    reveal(u64_bytes);
    lemma_u32_bytes_of_at(e, s, p);
    lemma_u32_bytes_of_at(e, s, p + 4);
    assert(s.subrange(p, p + 8) =~= s.subrange(p, p + 4) + s.subrange(p + 4, p + 8));
}

/// Reads the 16-bit integer stored at `pos`.
pub fn read_u16(source: &[u8], pos: u64, e: Endianness) -> (r: Result<u16, Error>)
    ensures
        match r {
            Ok(v) => pos + 2 <= source@.len() && v == u16_at(e, source@, pos as int),
            Err(err) => pos + 2 > source@.len() && err == Error::IoError,
        },
{
    proof {
        broadcast use group_widths;

        reveal(u16_at);
    }
    if !in_range(source, pos, 2) {
        return Err(Error::IoError);
    }
    let p: usize = pos as usize;
    let a: u16 = source[p] as u16;
    let b: u16 = source[p + 1] as u16;
    Ok(
        match e {
            Endianness::Little => a + 256 * b,
            Endianness::Big => 256 * a + b,
        },
    )
}

/// Reads the 32-bit integer stored at `pos`.
pub fn read_u32(source: &[u8], pos: u64, e: Endianness) -> (r: Result<u32, Error>)
    ensures
        match r {
            Ok(v) => pos + 4 <= source@.len() && v == u32_at(e, source@, pos as int),
            Err(err) => pos + 4 > source@.len() && err == Error::IoError,
        },
{
    proof {
        broadcast use group_widths;

        reveal(u32_at);
    }
    if !in_range(source, pos, 4) {
        return Err(Error::IoError);
    }
    let a: u32 = read_u16(source, pos, e)? as u32;
    let b: u32 = read_u16(source, pos + 2, e)? as u32;
    Ok(
        match e {
            Endianness::Little => a + 0x1_0000 * b,
            Endianness::Big => 0x1_0000 * a + b,
        },
    )
}

/// Reads the 64-bit integer stored at `pos`.
pub fn read_u64(source: &[u8], pos: u64, e: Endianness) -> (r: Result<u64, Error>)
    ensures
        match r {
            Ok(v) => pos + 8 <= source@.len() && v == u64_at(e, source@, pos as int),
            Err(err) => pos + 8 > source@.len() && err == Error::IoError,
        },
{
    proof {
        broadcast use group_widths;

        reveal(u64_at);
    }
    if !in_range(source, pos, 8) {
        return Err(Error::IoError);
    }
    let a: u64 = read_u32(source, pos, e)? as u64;
    let b: u64 = read_u32(source, pos + 4, e)? as u64;
    Ok(
        match e {
            Endianness::Little => a + 0x1_0000_0000 * b,
            Endianness::Big => 0x1_0000_0000 * a + b,
        },
    )
}

/// Whether `len` bytes can be read at `pos`.
pub fn in_range(source: &[u8], pos: u64, len: u64) -> (r: bool)
    ensures
        r == (pos + len <= source@.len()),
        r ==> pos + len <= usize::MAX,
{
    let n: u64 = source.len() as u64;
    pos <= n && len <= n - pos
}

/// Appends a copy of `bytes`.
pub fn put_bytes(out: &mut Vec<u8>, bytes: &[u8])
    ensures
        final(out)@ == old(out)@ + bytes@,
{
    out.extend_from_slice(bytes);
    proof {
        assert(out@ =~= old(out)@ + bytes@);
    }
}

/// Copies `len` bytes from `pos`.
pub fn read_to_vec(source: &[u8], pos: u64, len: u64) -> (r: Result<Vec<u8>, Error>)
    ensures
        match r {
            Ok(v) => pos + len <= source@.len() && v@ == source@.subrange(
                pos as int,
                pos + len,
            ),
            Err(err) => pos + len > source@.len() && err == Error::BadParam(
                "read past end of stream",
            ),
        },
{
    if !in_range(source, pos, len) {
        return Err(Error::BadParam("read past end of stream"));
    }
    let mut out: Vec<u8> = Vec::new();
    put_bytes(&mut out, slice_subrange(source, pos as usize, (pos + len) as usize));
    proof {
        assert(out@ =~= source@.subrange(pos as int, pos + len));
    }
    Ok(out)
}

/// Appends the 16-bit integer `v`.
pub fn put_u16(out: &mut Vec<u8>, v: u16, e: Endianness)
    ensures
        final(out)@ == old(out)@ + u16_bytes(e, v as int),
{
    proof {
        broadcast use group_widths;

        reveal(u16_bytes);
    }
    let hi: u8 = (v / 256) as u8;
    let lo: u8 = (v % 256) as u8;
    match e {
        Endianness::Little => {
            out.push(lo);
            out.push(hi);
        },
        Endianness::Big => {
            out.push(hi);
            out.push(lo);
        },
    }
    proof {
        assert(out@ =~= old(out)@ + u16_bytes(e, v as int));
    }
}

/// Appends the 32-bit integer `v`.
pub fn put_u32(out: &mut Vec<u8>, v: u32, e: Endianness)
    ensures
        final(out)@ == old(out)@ + u32_bytes(e, v as int),
{
    proof {
        broadcast use group_widths;

        reveal(u32_bytes);
    }
    let hi: u16 = (v / 0x1_0000) as u16;
    let lo: u16 = (v % 0x1_0000) as u16;
    match e {
        Endianness::Little => {
            put_u16(out, lo, e);
            put_u16(out, hi, e);
        },
        Endianness::Big => {
            put_u16(out, hi, e);
            put_u16(out, lo, e);
        },
    }
    proof {
        assert(out@ =~= old(out)@ + u32_bytes(e, v as int));
    }
}

/// Appends the 64-bit integer `v`.
pub fn put_u64(out: &mut Vec<u8>, v: u64, e: Endianness)
    ensures
        final(out)@ == old(out)@ + u64_bytes(e, v as int),
{
    proof {
        broadcast use group_widths;

        reveal(u64_bytes);
    }
    let hi: u32 = (v / 0x1_0000_0000) as u32;
    let lo: u32 = (v % 0x1_0000_0000) as u32;
    match e {
        Endianness::Little => {
            put_u32(out, lo, e);
            put_u32(out, hi, e);
        },
        Endianness::Big => {
            put_u32(out, hi, e);
            put_u32(out, lo, e);
        },
    }
    proof {
        assert(out@ =~= old(out)@ + u64_bytes(e, v as int));
    }
}

} // verus!
