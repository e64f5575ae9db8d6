//! Little-endian readers over a byte slice at a given position.

use vstd::prelude::*;

verus! {

/// The little-endian `u16` at `p`.
pub open spec fn u16_at(s: Seq<u8>, p: int) -> u16 {
    (s[p] as int + s[p + 1] as int * 0x100) as u16
}

/// The little-endian `u32` at `p`.
pub open spec fn u32_at(s: Seq<u8>, p: int) -> u32 {
    (s[p] as int + s[p + 1] as int * 0x100 + s[p + 2] as int * 0x1_0000 + s[p + 3] as int
        * 0x100_0000) as u32
}

/// The little-endian `u64` at `p`.
pub open spec fn u64_at(s: Seq<u8>, p: int) -> u64 {
    (u32_at(s, p) as int + u32_at(s, p + 4) as int * 0x1_0000_0000) as u64
}

/// Whether `n` bytes can be read at `p`.
pub open spec fn fits(s: Seq<u8>, p: int, n: int) -> bool {
    0 <= p && p + n <= s.len()
}

pub fn has_room(data: &[u8], pos: usize, n: usize) -> (r: bool)
    ensures
        r == fits(data@, pos as int, n as int),
{
    pos <= data.len() && data.len() - pos >= n
}

pub fn read_u8(data: &[u8], pos: usize) -> (r: Option<u8>)
    ensures
        r == (if fits(data@, pos as int, 1) {
            Some(data@[pos as int])
        } else {
            None::<u8>
        }),
{
    if pos < data.len() {
        Some(data[pos])
    } else {
        None
    }
}

pub fn read_u16(data: &[u8], pos: usize) -> (r: Option<u16>)
    ensures
        r == (if fits(data@, pos as int, 2) {
            Some(u16_at(data@, pos as int))
        } else {
            None::<u16>
        }),
{
    if has_room(data, pos, 2) {
        Some((data[pos] as u16) + (data[pos + 1] as u16) * 0x100)
    } else {
        None
    }
}

pub fn read_u32(data: &[u8], pos: usize) -> (r: Option<u32>)
    ensures
        r == (if fits(data@, pos as int, 4) {
            Some(u32_at(data@, pos as int))
        } else {
            None::<u32>
        }),
{
    if has_room(data, pos, 4) {
        Some(
            (data[pos] as u32) + (data[pos + 1] as u32) * 0x100 + (data[pos + 2] as u32) * 0x1_0000
                + (data[pos + 3] as u32) * 0x100_0000,
        )
    } else {
        None
    }
}

pub fn read_i32(data: &[u8], pos: usize) -> (r: Option<i32>)
    ensures
        r == (if fits(data@, pos as int, 4) {
            Some(u32_at(data@, pos as int) as i32)
        } else {
            None::<i32>
        }),
{
    match read_u32(data, pos) {
        Some(v) => Some(v as i32),
        None => None,
    }
}

pub fn read_u64(data: &[u8], pos: usize) -> (r: Option<u64>)
    ensures
        r == (if fits(data@, pos as int, 8) {
            Some(u64_at(data@, pos as int))
        } else {
            None::<u64>
        }),
{
    if pos <= data.len() && data.len() - pos >= 8 {
        let lo = read_u32(data, pos).unwrap();
        let hi = read_u32(data, pos + 4).unwrap();
        Some((lo as u64) + (hi as u64) * 0x1_0000_0000)
    } else {
        None
    }
}

pub fn read_i64(data: &[u8], pos: usize) -> (r: Option<i64>)
    ensures
        r == (if fits(data@, pos as int, 8) {
            Some(u64_at(data@, pos as int) as i64)
        } else {
            None::<i64>
        }),
{
    match read_u64(data, pos) {
        Some(v) => Some(v as i64),
        None => None,
    }
}

/// Copies the `n` bytes at `pos`.
pub fn read_bytes(data: &[u8], pos: usize, n: usize) -> (r: Option<Vec<u8>>)
    ensures
        match r {
            Some(v) => fits(data@, pos as int, n as int) && v@ == data@.subrange(
                pos as int,
                pos + n,
            ),
            None => !fits(data@, pos as int, n as int),
        },
{
    if !(pos <= data.len() && data.len() - pos >= n) {
        return None;
    }
    let mut out: Vec<u8> = Vec::new();
    let mut i: usize = 0;
    while i < n
        invariant
            fits(data@, pos as int, n as int),
            data@.len() <= usize::MAX,
            i <= n,
            out@ == data@.subrange(pos as int, pos + i),
        decreases n - i,
    {
        out.push(data[pos + i]);
        i = i + 1;
        proof {
            assert(out@ =~= data@.subrange(pos as int, pos + i));
        }
    }
    Some(out)
}

} // verus!
