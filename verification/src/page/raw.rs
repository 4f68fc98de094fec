//! Bounds-checked little-endian integer codec over a byte buffer.
//!
//! Every access first checks the accessed range against the length of the
//! buffer and reports `DbError::OutOfBounds` instead of touching a byte
//! outside it. The higher layers rely on this single check.

use vstd::arithmetic::div_mod::lemma_fundamental_div_mod_converse;
use vstd::prelude::*;

use crate::error::{DbError, DbResult};

verus! {

/// The 16-bit number whose little-endian encoding starts at `off` in `s`.
pub open spec fn le_u16(s: Seq<u8>, off: int) -> u16 {
    (s[off] as int + 256 * (s[off + 1] as int)) as u16
}

/// The 32-bit number whose little-endian encoding starts at `off` in `s`.
pub open spec fn le_u32(s: Seq<u8>, off: int) -> u32 {
    (le_u16(s, off) as int + 65536 * (le_u16(s, off + 2) as int)) as u32
}

/// The 64-bit number whose little-endian encoding starts at `off` in `s`.
pub open spec fn le_u64(s: Seq<u8>, off: int) -> u64 {
    (le_u32(s, off) as int + 4294967296 * (le_u32(s, off + 4) as int)) as u64
}

/// The two bytes that encode `v`, least significant first.
pub open spec fn u16_le_bytes(v: u16) -> Seq<u8> {
    seq![(v % 256) as u8, (v / 256) as u8]
}

/// The four bytes that encode `v`, least significant first.
pub open spec fn u32_le_bytes(v: u32) -> Seq<u8> {
    u16_le_bytes((v % 65536) as u16) + u16_le_bytes((v / 65536) as u16)
}

/// The eight bytes that encode `v`, least significant first.
pub open spec fn u64_le_bytes(v: u64) -> Seq<u8> {
    u32_le_bytes((v % 4294967296) as u32) + u32_le_bytes((v / 4294967296) as u32)
}

/// `s` with the bytes from `off` on replaced by `bytes`; positions outside
/// `s` are dropped, so the length never changes.
#[verifier::opaque]
pub open spec fn overwrite(s: Seq<u8>, off: int, bytes: Seq<u8>) -> Seq<u8> {
    Seq::new(
        s.len(),
        |i: int|
            if off <= i < off + bytes.len() {
                bytes[i - off]
            } else {
                s[i]
            },
    )
}

/// What an access of `size` bytes at `off` answers on a buffer of `len`
/// bytes: the range must end inside the buffer.
pub open spec fn access_outcome(len: int, off: usize, size: usize) -> Result<(), DbError> {
    if off + size <= len {
        Ok(())
    } else {
        Err(DbError::OutOfBounds { off, size, len: len as usize })
    }
}

/// What a read of a `u16` at `off` answers on the bytes `s`.
pub open spec fn read_u16_outcome(s: Seq<u8>, off: usize) -> Result<u16, DbError> {
    match access_outcome(s.len() as int, off, 2) {
        Ok(()) => Ok(le_u16(s, off as int)),
        Err(e) => Err(e),
    }
}

/// What a read of a `u32` at `off` answers on the bytes `s`.
pub open spec fn read_u32_outcome(s: Seq<u8>, off: usize) -> Result<u32, DbError> {
    match access_outcome(s.len() as int, off, 4) {
        Ok(()) => Ok(le_u32(s, off as int)),
        Err(e) => Err(e),
    }
}

/// What a read of a `u64` at `off` answers on the bytes `s`.
pub open spec fn read_u64_outcome(s: Seq<u8>, off: usize) -> Result<u64, DbError> {
    match access_outcome(s.len() as int, off, 8) {
        Ok(()) => Ok(le_u64(s, off as int)),
        Err(e) => Err(e),
    }
}

/// The bytes `s` after a write of `bytes` at `off`: the write takes place
/// if its range ends inside `s`, and changes nothing otherwise.
pub open spec fn written(s: Seq<u8>, off: usize, bytes: Seq<u8>) -> Seq<u8> {
    if off + bytes.len() <= s.len() {
        overwrite(s, off as int, bytes)
    } else {
        s
    }
}

/// Checks that `size` bytes at `off` lie inside a buffer of `len` bytes.
///
/// This is the one place where a range is held against a buffer.
#[inline]
fn checked_range(len: usize, off: usize, size: usize) -> (r: DbResult<()>)
    ensures
        r == access_outcome(len as int, off, size),
{
    if off > len || size > len || size > len - off {
        return Err(DbError::OutOfBounds { off, size, len });
    }
    Ok(())
}

/// Reads the little-endian `u16` at `off`.
#[inline]
pub fn read_u16_le(buf: &[u8], off: usize) -> (r: DbResult<u16>)
    ensures
        r == read_u16_outcome(buf@, off),
{
    checked_range(buf.len(), off, 2)?;
    let b0: u16 = buf[off] as u16;
    let b1: u16 = buf[off + 1] as u16;
    Ok(b0 + 256 * b1)
}

/// Writes `v` as a little-endian `u16` at `off`.
#[inline]
pub fn write_u16_le(buf: &mut [u8], off: usize, v: u16) -> (r: DbResult<()>)
    ensures
        r == access_outcome(old(buf)@.len() as int, off, 2),
        final(buf)@ == written(old(buf)@, off, u16_le_bytes(v)),
        final(buf)@.len() == old(buf)@.len(),
{
    proof {
        reveal(overwrite);
    }
    checked_range(buf.len(), off, 2)?;
    buf[off] = (v % 256) as u8;
    buf[off + 1] = (v / 256) as u8;
    Ok(())
}

/// Reads the little-endian `u32` at `off`.
#[inline]
pub fn read_u32_le(buf: &[u8], off: usize) -> (r: DbResult<u32>)
    ensures
        r == read_u32_outcome(buf@, off),
{
    checked_range(buf.len(), off, 4)?;
    let b0: u32 = buf[off] as u32;
    let b1: u32 = buf[off + 1] as u32;
    let b2: u32 = buf[off + 2] as u32;
    let b3: u32 = buf[off + 3] as u32;
    Ok((b0 + 256 * b1) + 65536 * (b2 + 256 * b3))
}

/// Writes `v` as a little-endian `u32` at `off`.
#[inline]
pub fn write_u32_le(buf: &mut [u8], off: usize, v: u32) -> (r: DbResult<()>)
    ensures
        r == access_outcome(old(buf)@.len() as int, off, 4),
        final(buf)@ == written(old(buf)@, off, u32_le_bytes(v)),
        final(buf)@.len() == old(buf)@.len(),
{
    proof {
        reveal(overwrite);
    }
    checked_range(buf.len(), off, 4)?;
    let lo: u32 = v % 65536;
    let hi: u32 = v / 65536;
    buf[off] = (lo % 256) as u8;
    buf[off + 1] = (lo / 256) as u8;
    buf[off + 2] = (hi % 256) as u8;
    buf[off + 3] = (hi / 256) as u8;
    Ok(())
}

/// Reads the little-endian `u64` at `off`.
#[inline]
pub fn read_u64_le(buf: &[u8], off: usize) -> (r: DbResult<u64>)
    ensures
        r == read_u64_outcome(buf@, off),
{
    checked_range(buf.len(), off, 8)?;
    let b0: u64 = buf[off] as u64;
    let b1: u64 = buf[off + 1] as u64;
    let b2: u64 = buf[off + 2] as u64;
    let b3: u64 = buf[off + 3] as u64;
    let b4: u64 = buf[off + 4] as u64;
    let b5: u64 = buf[off + 5] as u64;
    let b6: u64 = buf[off + 6] as u64;
    let b7: u64 = buf[off + 7] as u64;
    let lo: u64 = (b0 + 256 * b1) + 65536 * (b2 + 256 * b3);
    let hi: u64 = (b4 + 256 * b5) + 65536 * (b6 + 256 * b7);
    Ok(lo + 4294967296 * hi)
}

/// Writes `v` as a little-endian `u64` at `off`.
#[inline]
pub fn write_u64_le(buf: &mut [u8], off: usize, v: u64) -> (r: DbResult<()>)
    ensures
        r == access_outcome(old(buf)@.len() as int, off, 8),
        final(buf)@ == written(old(buf)@, off, u64_le_bytes(v)),
        final(buf)@.len() == old(buf)@.len(),
{
    proof {
        reveal(overwrite);
    }
    checked_range(buf.len(), off, 8)?;
    let lo: u64 = v % 4294967296;
    let hi: u64 = v / 4294967296;
    let w0: u64 = lo % 65536;
    let w1: u64 = lo / 65536;
    let w2: u64 = hi % 65536;
    let w3: u64 = hi / 65536;
    buf[off] = (w0 % 256) as u8;
    buf[off + 1] = (w0 / 256) as u8;
    buf[off + 2] = (w1 % 256) as u8;
    buf[off + 3] = (w1 / 256) as u8;
    buf[off + 4] = (w2 % 256) as u8;
    buf[off + 5] = (w2 / 256) as u8;
    buf[off + 6] = (w3 % 256) as u8;
    buf[off + 7] = (w3 / 256) as u8;
    Ok(())
}

/// `n` zero bytes.
pub open spec fn zeros(n: int) -> Seq<u8> {
    Seq::new(n as nat, |i: int| 0u8)
}

/// Copies `data` over the bytes of `buf` that start at `at`.
pub fn copy_into(buf: &mut [u8], at: usize, data: &[u8])
    requires
        at + data@.len() <= old(buf)@.len(),
    ensures
        final(buf)@ == overwrite(old(buf)@, at as int, data@),
        final(buf)@.len() == old(buf)@.len(),
{
    proof {
        reveal(overwrite);
    }
    let n = data.len();
    let len = buf.len();
    let mut k: usize = 0;
    while k < n
        invariant
            k <= n,
            n == data@.len(),
            at + n <= len,
            buf@.len() == len,
            old(buf)@.len() == len,
            forall|i: int| 0 <= i < buf@.len() ==> buf@[i] == if at <= i < at + k {
                data@[i - at]
            } else {
                old(buf)@[i]
            },
        decreases n - k,
    {
        buf[at + k] = data[k];
        k += 1;
    }
}

/// Sets the bytes of `buf` from `from` up to `to` to zero.
pub fn zero_range(buf: &mut [u8], from: usize, to: usize)
    requires
        from <= to <= old(buf)@.len(),
    ensures
        final(buf)@ == overwrite(old(buf)@, from as int, zeros(to - from)),
        final(buf)@.len() == old(buf)@.len(),
{
    proof {
        reveal(overwrite);
    }
    let mut k: usize = from;
    while k < to
        invariant
            from <= k <= to,
            to <= buf@.len(),
            buf@.len() == old(buf)@.len(),
            forall|i: int| 0 <= i < buf@.len() ==> buf@[i] == if from <= i < k {
                0u8
            } else {
                old(buf)@[i]
            },
        decreases to - k,
    {
        buf[k] = 0;
        k += 1;
    }
}

/// Decoding the two bytes of `v` gives `v` back.
pub proof fn lemma_u16_decode_encode(s: Seq<u8>, off: int, v: u16)
    requires
        0 <= off,
        off + 2 <= s.len(),
    ensures
        le_u16(overwrite(s, off, u16_le_bytes(v)), off) == v,
{
    reveal(overwrite);
}

/// Decoding the four bytes of `v` gives `v` back.
pub proof fn lemma_u32_decode_encode(s: Seq<u8>, off: int, v: u32)
    requires
        0 <= off,
        off + 4 <= s.len(),
    ensures
        le_u32(overwrite(s, off, u32_le_bytes(v)), off) == v,
{
    reveal(overwrite);
    let t = overwrite(s, off, u32_le_bytes(v));
    let lo = (v % 65536) as u16;
    let hi = (v / 65536) as u16;
    assert(le_u16(t, off) == lo);
    assert(le_u16(t, off + 2) == hi);
}

/// Decoding the eight bytes of `v` gives `v` back.
pub proof fn lemma_u64_decode_encode(s: Seq<u8>, off: int, v: u64)
    requires
        0 <= off,
        off + 8 <= s.len(),
    ensures
        le_u64(overwrite(s, off, u64_le_bytes(v)), off) == v,
{
    reveal(overwrite);
    let t = overwrite(s, off, u64_le_bytes(v));
    let lo = (v % 4294967296) as u32;
    let hi = (v / 4294967296) as u32;
    let lo_bytes = u32_le_bytes(lo);
    let hi_bytes = u32_le_bytes(hi);
    assert(le_u32(overwrite(s, off, lo_bytes), off) == lo) by {
        lemma_u32_decode_encode(s, off, lo);
    }
    assert(le_u32(overwrite(s, off + 4, hi_bytes), off + 4) == hi) by {
        lemma_u32_decode_encode(s, off + 4, hi);
    }
    assert(le_u32(t, off) == lo) by {
        let a = overwrite(s, off, lo_bytes);
        assert(forall|i: int| off <= i < off + 4 ==> t[i] == a[i]);
    }
    assert(le_u32(t, off + 4) == hi) by {
        let b = overwrite(s, off + 4, hi_bytes);
        assert(forall|i: int| off + 4 <= i < off + 8 ==> t[i] == b[i]);
    }
}

/// Encoding the `u16` that `s` holds at `off` gives the same two bytes.
pub proof fn lemma_u16_encode_decode(s: Seq<u8>, off: int)
    requires
        0 <= off,
        off + 2 <= s.len(),
    ensures
        u16_le_bytes(le_u16(s, off)) == s.subrange(off, off + 2),
{
    let v = le_u16(s, off);
    let b0 = s[off];
    let b1 = s[off + 1];
    assert(v == b1 * 256 + b0);
    lemma_fundamental_div_mod_converse(v as int, 256, b1 as int, b0 as int);
    assert(u16_le_bytes(v) =~= s.subrange(off, off + 2));
}

/// Encoding the `u32` that `s` holds at `off` gives the same four bytes.
pub proof fn lemma_u32_encode_decode(s: Seq<u8>, off: int)
    requires
        0 <= off,
        off + 4 <= s.len(),
    ensures
        u32_le_bytes(le_u32(s, off)) == s.subrange(off, off + 4),
{
    let v = le_u32(s, off);
    let a = le_u16(s, off);
    let b = le_u16(s, off + 2);
    assert(v == b * 65536 + a);
    lemma_fundamental_div_mod_converse(v as int, 65536, b as int, a as int);
    lemma_u16_encode_decode(s, off);
    lemma_u16_encode_decode(s, off + 2);
    assert(u32_le_bytes(v) == s.subrange(off, off + 2) + s.subrange(off + 2, off + 4));
    assert(s.subrange(off, off + 2) + s.subrange(off + 2, off + 4) =~= s.subrange(off, off + 4));
}

/// Encoding the `u64` that `s` holds at `off` gives the same eight bytes.
pub proof fn lemma_u64_encode_decode(s: Seq<u8>, off: int)
    requires
        0 <= off,
        off + 8 <= s.len(),
    ensures
        u64_le_bytes(le_u64(s, off)) == s.subrange(off, off + 8),
{
    let v = le_u64(s, off);
    let a = le_u32(s, off);
    let b = le_u32(s, off + 4);
    assert(v == b * 4294967296 + a);
    lemma_fundamental_div_mod_converse(v as int, 4294967296, b as int, a as int);
    lemma_u32_encode_decode(s, off);
    lemma_u32_encode_decode(s, off + 4);
    assert(u64_le_bytes(v) == s.subrange(off, off + 4) + s.subrange(off + 4, off + 8));
    assert(s.subrange(off, off + 4) + s.subrange(off + 4, off + 8) =~= s.subrange(off, off + 8));
}

/// A write changes only the bytes of its own range, and never the length.
pub proof fn lemma_overwrite(s: Seq<u8>, off: int, bytes: Seq<u8>)
    ensures
        overwrite(s, off, bytes).len() == s.len(),
        forall|i: int|
            0 <= i < s.len() ==> #[trigger] overwrite(s, off, bytes)[i] == if off <= i < off
                + bytes.len() {
                bytes[i - off]
            } else {
                s[i]
            },
{
    reveal(overwrite);
}

} // verus!
