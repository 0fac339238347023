//! Little-endian integers in byte buffers.

use vstd::prelude::*;

use crate::error::{LibraryError, Result};

verus! {

/// Unsigned 16-bit value of the two bytes at `pos`.
pub open spec fn u16_le(s: Seq<u8>, pos: int) -> int {
    s[pos] as int + s[pos + 1] as int * 0x100
}

/// Unsigned 32-bit value of the four bytes at `pos`.
pub open spec fn u32_le(s: Seq<u8>, pos: int) -> int {
    u16_le(s, pos) + u16_le(s, pos + 2) * 0x10000
}

/// Signed (two's complement) 16-bit value of the two bytes at `pos`.
pub open spec fn i16_le(s: Seq<u8>, pos: int) -> int {
    if u16_le(s, pos) < 0x8000 {
        u16_le(s, pos)
    } else {
        u16_le(s, pos) - 0x10000
    }
}

/// Signed (two's complement) 32-bit value of the four bytes at `pos`.
pub open spec fn i32_le(s: Seq<u8>, pos: int) -> int {
    if u32_le(s, pos) < 0x8000_0000 {
        u32_le(s, pos)
    } else {
        u32_le(s, pos) - 0x1_0000_0000
    }
}

/// The two little-endian bytes of `v`, taken modulo 2^16.
pub open spec fn le16(v: int) -> Seq<u8> {
    let u = if v < 0 { v + 0x10000 } else { v };
    seq![(u % 0x100) as u8, (u / 0x100 % 0x100) as u8]
}

/// The four little-endian bytes of `v`, taken modulo 2^32.
pub open spec fn le32(v: int) -> Seq<u8> {
    let u = if v < 0 { v + 0x1_0000_0000 } else { v };
    le16(u % 0x10000) + le16(u / 0x10000)
}

/// The error for data that ends before a value it should hold.
pub open spec fn is_eof(e: LibraryError) -> bool {
    e is Io
}

fn eof() -> (e: LibraryError)
    ensures
        is_eof(e),
{
    LibraryError::Io(String::from_str("unexpected end of data"))
}

pub fn read_u8(data: &[u8], pos: usize) -> (r: Result<u8>)
    ensures
        pos + 1 <= data@.len() ==> r == Ok::<u8, LibraryError>(data@[pos as int]),
        pos + 1 > data@.len() ==> (r matches Err(e) && is_eof(e)),
{
    if pos < data.len() {
        Ok(data[pos])
    } else {
        Err(eof())
    }
}

pub fn read_u16(data: &[u8], pos: usize) -> (r: Result<u16>)
    ensures
        pos + 2 <= data@.len() ==> (r matches Ok(v) && v as int == u16_le(data@, pos as int)),
        pos + 2 > data@.len() ==> (r matches Err(e) && is_eof(e)),
{
    if pos < data.len() && data.len() - pos >= 2 {
        Ok(data[pos] as u16 + data[pos + 1] as u16 * 256)
    } else {
        Err(eof())
    }
}

pub fn read_i16(data: &[u8], pos: usize) -> (r: Result<i16>)
    ensures
        pos + 2 <= data@.len() ==> (r matches Ok(v) && v as int == i16_le(data@, pos as int)),
        pos + 2 > data@.len() ==> (r matches Err(e) && is_eof(e)),
{
    let u = read_u16(data, pos)?;
    if u < 0x8000 {
        Ok(u as i16)
    } else {
        Ok((u as i32 - 0x10000) as i16)
    }
}

pub fn read_u32(data: &[u8], pos: usize) -> (r: Result<u32>)
    ensures
        pos + 4 <= data@.len() ==> (r matches Ok(v) && v as int == u32_le(data@, pos as int)),
        pos + 4 > data@.len() ==> (r matches Err(e) && is_eof(e)),
{
    if pos < data.len() && data.len() - pos >= 4 {
        let lo = data[pos] as u32 + data[pos + 1] as u32 * 256;
        let hi = data[pos + 2] as u32 + data[pos + 3] as u32 * 256;
        Ok(lo + hi * 65536)
    } else {
        Err(eof())
    }
}

pub fn read_i32(data: &[u8], pos: usize) -> (r: Result<i32>)
    ensures
        pos + 4 <= data@.len() ==> (r matches Ok(v) && v as int == i32_le(data@, pos as int)),
        pos + 4 > data@.len() ==> (r matches Err(e) && is_eof(e)),
{
    let u = read_u32(data, pos)?;
    if u < 0x8000_0000 {
        Ok(u as i32)
    } else {
        Ok((u as i64 - 0x1_0000_0000) as i32)
    }
}

pub fn write_u16(out: &mut Vec<u8>, v: u16)
    ensures
        final(out)@ == old(out)@ + le16(v as int),
{
    out.push((v % 256) as u8);
    out.push((v / 256) as u8);
    assert(final(out)@ =~= old(out)@ + le16(v as int));
}

pub fn write_i16(out: &mut Vec<u8>, v: i16)
    ensures
        final(out)@ == old(out)@ + le16(v as int),
{
    let u: u16 = if v < 0 { (v as i32 + 0x10000) as u16 } else { v as u16 };
    out.push((u % 256) as u8);
    out.push((u / 256) as u8);
    assert(final(out)@ =~= old(out)@ + le16(v as int));
}

pub fn write_u32(out: &mut Vec<u8>, v: u32)
    ensures
        final(out)@ == old(out)@ + le32(v as int),
{
    write_u16(out, (v % 65536) as u16);
    write_u16(out, (v / 65536) as u16);
    assert(final(out)@ =~= old(out)@ + le32(v as int));
}

pub fn write_i32(out: &mut Vec<u8>, v: i32)
    ensures
        final(out)@ == old(out)@ + le32(v as int),
{
    let u: u32 = if v < 0 { (v as i64 + 0x1_0000_0000) as u32 } else { v as u32 };
    write_u32(out, u);
    assert(le32(u as int) == le32(v as int));
}

/// Reading back what `le16` writes gives the value, for `-2^15 <= v < 2^16`.
pub proof fn lemma_le16_read(s: Seq<u8>, pos: int, v: int)
    requires
        -0x8000 <= v < 0x10000,
        0 <= pos,
        pos + 2 <= s.len(),
        s.subrange(pos, pos + 2) == le16(v),
    ensures
        v >= 0 ==> u16_le(s, pos) == v,
        v < 0x8000 ==> i16_le(s, pos) == v,
{
    assert(s[pos] == le16(v)[0]);
    assert(s[pos + 1] == le16(v)[1]);
}

/// Reading back what `le32` writes gives the value, for `-2^31 <= v < 2^32`.
pub proof fn lemma_le32_read(s: Seq<u8>, pos: int, v: int)
    requires
        -0x8000_0000 <= v < 0x1_0000_0000,
        0 <= pos,
        pos + 4 <= s.len(),
        s.subrange(pos, pos + 4) == le32(v),
    ensures
        v >= 0 ==> u32_le(s, pos) == v,
        v < 0x8000_0000 ==> i32_le(s, pos) == v,
{
    let u = if v < 0 { v + 0x1_0000_0000 } else { v };
    assert(s.subrange(pos, pos + 2) =~= le16(u % 0x10000)) by {
        assert(s.subrange(pos, pos + 2) =~= s.subrange(pos, pos + 4).subrange(0, 2));
    }
    assert(s.subrange(pos + 2, pos + 4) =~= le16(u / 0x10000)) by {
        assert(s.subrange(pos + 2, pos + 4) =~= s.subrange(pos, pos + 4).subrange(2, 4));
    }
    lemma_le16_read(s, pos, u % 0x10000);
    lemma_le16_read(s, pos + 2, u / 0x10000);
}

/// Reads `count` little-endian `u32` values starting at `start`.
pub fn read_offsets(data: &[u8], start: usize, count: usize) -> (r: Result<Vec<u32>>)
    ensures
        start + 4 * count <= data@.len() ==> (r matches Ok(v) && v@.len() == count && forall|i: int|
            0 <= i < count ==> v@[i] as int == #[trigger] u32_le(data@, start + 4 * i)),
        start + 4 * count > data@.len() ==> (r matches Err(e) && is_eof(e)),
{
    let n = data.len();
    if start > n || (n - start) / 4 < count {
        return Err(eof());
    }
    let mut v: Vec<u32> = Vec::new();
    let mut i: usize = 0;
    while i < count
        invariant
            i <= count,
            n == data@.len(),
            start + 4 * count <= n,
            v@.len() == i,
            forall|j: int| 0 <= j < i ==> v@[j] as int == #[trigger] u32_le(data@, start + 4 * j),
        decreases count - i,
    {
        let x = read_u32(data, start + 4 * i)?;
        v.push(x);
        i = i + 1;
    }
    Ok(v)
}

} // verus!
