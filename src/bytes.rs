//! Little-endian integers read out of a byte buffer at a cursor.
use vstd::prelude::*;

verus! {

/// The unsigned 16-bit value stored little-endian at `p`.
pub open spec fn le_u16(d: Seq<u8>, p: int) -> int {
    d[p] + 0x100 * d[p + 1]
}

/// The signed 16-bit value stored little-endian (two's complement) at `p`.
pub open spec fn le_i16(d: Seq<u8>, p: int) -> int {
    let u = le_u16(d, p);
    if u >= 0x8000 {
        u - 0x1_0000
    } else {
        u
    }
}

/// The unsigned 32-bit value stored little-endian at `p`.
pub open spec fn le_u32(d: Seq<u8>, p: int) -> int {
    d[p] + 0x100 * d[p + 1] + 0x1_0000 * d[p + 2] + 0x100_0000 * d[p + 3]
}

/// The signed 32-bit value stored little-endian (two's complement) at `p`.
pub open spec fn le_i32(d: Seq<u8>, p: int) -> int {
    let u = le_u32(d, p);
    if u >= 0x8000_0000 {
        u - 0x1_0000_0000
    } else {
        u
    }
}

/// The unsigned 64-bit value stored little-endian at `p`.
pub open spec fn le_u64(d: Seq<u8>, p: int) -> int {
    le_u32(d, p) + 0x1_0000_0000 * le_u32(d, p + 4)
}

/// The byte at `p` read as a two's complement `i8`.
pub open spec fn byte_i8(d: Seq<u8>, p: int) -> int {
    if d[p] >= 0x80 {
        d[p] - 0x100
    } else {
        d[p] as int
    }
}

/// Whether `n` bytes can be read at `p`.
pub open spec fn fits(d: Seq<u8>, p: int, n: int) -> bool {
    0 <= p && p + n <= d.len()
}

/// Reads a little-endian `u16` at `*pos` and moves the cursor past it; `None`, with the
/// cursor left alone, when fewer than two bytes remain.
pub fn read_u16(d: &[u8], pos: &mut usize) -> (r: Option<u16>)
    ensures
        match r {
            Some(v) => fits(d@, *old(pos) as int, 2) && v == le_u16(d@, *old(pos) as int)
                && *final(pos) == *old(pos) + 2,
            None => !fits(d@, *old(pos) as int, 2) && *final(pos) == *old(pos),
        },
{
    let p = *pos;
    if p > d.len() || d.len() - p < 2 {
        return None;
    }
    *pos = p + 2;
    Some(d[p] as u16 + 0x100 * (d[p + 1] as u16))
}

/// Reads a little-endian `i16` at `*pos`, as `read_u16` does.
pub fn read_i16(d: &[u8], pos: &mut usize) -> (r: Option<i16>)
    ensures
        match r {
            Some(v) => fits(d@, *old(pos) as int, 2) && v == le_i16(d@, *old(pos) as int)
                && *final(pos) == *old(pos) + 2,
            None => !fits(d@, *old(pos) as int, 2) && *final(pos) == *old(pos),
        },
{
    match read_u16(d, pos) {
        None => None,
        Some(u) => {
            if u >= 0x8000 {
                Some(((u - 0x8000) as i16) - 0x4000 - 0x4000)
            } else {
                Some(u as i16)
            }
        },
    }
}

/// Reads a little-endian `u32` at `*pos` and moves the cursor past it; `None`, with the
/// cursor left alone, when fewer than four bytes remain.
pub fn read_u32(d: &[u8], pos: &mut usize) -> (r: Option<u32>)
    ensures
        match r {
            Some(v) => fits(d@, *old(pos) as int, 4) && v == le_u32(d@, *old(pos) as int)
                && *final(pos) == *old(pos) + 4,
            None => !fits(d@, *old(pos) as int, 4) && *final(pos) == *old(pos),
        },
{
    let p = *pos;
    if p > d.len() || d.len() - p < 4 {
        return None;
    }
    *pos = p + 4;
    Some(
        d[p] as u32 + 0x100 * (d[p + 1] as u32) + 0x1_0000 * (d[p + 2] as u32) + 0x100_0000 * (
        d[p + 3] as u32),
    )
}

/// Reads a little-endian `i32` at `*pos`, as `read_u32` does.
pub fn read_i32(d: &[u8], pos: &mut usize) -> (r: Option<i32>)
    ensures
        match r {
            Some(v) => fits(d@, *old(pos) as int, 4) && v == le_i32(d@, *old(pos) as int)
                && *final(pos) == *old(pos) + 4,
            None => !fits(d@, *old(pos) as int, 4) && *final(pos) == *old(pos),
        },
{
    match read_u32(d, pos) {
        None => None,
        Some(u) => {
            if u >= 0x8000_0000 {
                Some(((u - 0x8000_0000) as i32) - 0x4000_0000 - 0x4000_0000)
            } else {
                Some(u as i32)
            }
        },
    }
}

/// Reads a little-endian `u64` at `*pos`, as `read_u32` does with eight bytes.
pub fn read_u64(d: &[u8], pos: &mut usize) -> (r: Option<u64>)
    ensures
        match r {
            Some(v) => fits(d@, *old(pos) as int, 8) && v == le_u64(d@, *old(pos) as int)
                && *final(pos) == *old(pos) + 8,
            None => !fits(d@, *old(pos) as int, 8) && *final(pos) == *old(pos),
        },
{
    let p = *pos;
    if p > d.len() || d.len() - p < 8 {
        return None;
    }
    let mut q = p;
    let lo = read_u32(d, &mut q).unwrap();
    let hi = read_u32(d, &mut q).unwrap();
    *pos = q;
    Some(lo as u64 + 0x1_0000_0000 * (hi as u64))
}

/// Reads one byte at `*pos` as an `i8`, as `read_u32` does with one byte.
pub fn read_i8(d: &[u8], pos: &mut usize) -> (r: Option<i8>)
    ensures
        match r {
            Some(v) => fits(d@, *old(pos) as int, 1) && v == byte_i8(d@, *old(pos) as int)
                && *final(pos) == *old(pos) + 1,
            None => !fits(d@, *old(pos) as int, 1) && *final(pos) == *old(pos),
        },
{
    let p = *pos;
    if p >= d.len() {
        return None;
    }
    *pos = p + 1;
    let b = d[p];
    if b >= 0x80 {
        Some(((b - 0x80) as i8) - 0x40 - 0x40)
    } else {
        Some(b as i8)
    }
}

} // verus!
