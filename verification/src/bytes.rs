//! Fixed-width integers read out of byte sequences, in both byte orders.
use vstd::prelude::*;
use vstd::array::*;

use crate::format::{ImError, ImFormat, ImResult};

verus! {

/// Unsigned 16-bit value of `s[i..i+2]`, little endian.
pub open spec fn le16(s: Seq<u8>, i: int) -> int {
    s[i] + s[i + 1] * 256
}

/// Unsigned 16-bit value of `s[i..i+2]`, big endian.
pub open spec fn be16(s: Seq<u8>, i: int) -> int {
    s[i] * 256 + s[i + 1]
}

/// Unsigned 32-bit value of `s[i..i+4]`, little endian.
pub open spec fn le32(s: Seq<u8>, i: int) -> int {
    le16(s, i) + le16(s, i + 2) * 65536
}

/// Unsigned 32-bit value of `s[i..i+4]`, big endian.
pub open spec fn be32(s: Seq<u8>, i: int) -> int {
    be16(s, i) * 65536 + be16(s, i + 2)
}

/// Unsigned 64-bit value of `s[i..i+8]`, little endian.
pub open spec fn le64(s: Seq<u8>, i: int) -> int {
    le32(s, i) + le32(s, i + 4) * 0x1_0000_0000
}

/// Unsigned 64-bit value of `s[i..i+8]`, big endian.
pub open spec fn be64(s: Seq<u8>, i: int) -> int {
    be32(s, i) * 0x1_0000_0000 + be32(s, i + 4)
}

/// 16-bit value in the given byte order (`big` for big endian).
pub open spec fn u16_at(big: bool, s: Seq<u8>, i: int) -> int {
    if big { be16(s, i) } else { le16(s, i) }
}

/// 32-bit value in the given byte order.
pub open spec fn u32_at(big: bool, s: Seq<u8>, i: int) -> int {
    if big { be32(s, i) } else { le32(s, i) }
}

/// 64-bit value in the given byte order.
pub open spec fn u64_at(big: bool, s: Seq<u8>, i: int) -> int {
    if big { be64(s, i) } else { le64(s, i) }
}

/// Two's-complement reading of an 8-bit pattern.
pub open spec fn signed8(u: int) -> int {
    if u < 0x80 { u } else { u - 0x100 }
}

/// Two's-complement reading of a 16-bit pattern.
pub open spec fn signed16(u: int) -> int {
    if u < 0x8000 { u } else { u - 0x1_0000 }
}

/// Two's-complement reading of a 32-bit pattern.
pub open spec fn signed32(u: int) -> int {
    if u < 0x8000_0000 { u } else { u - 0x1_0000_0000 }
}

/// The 64-bit pattern of an integer in `[-2^64, 2^64)`, as an `as u64` cast gives it.
pub open spec fn wrap64(v: int) -> int {
    if v < 0 { v + 0x1_0000_0000_0000_0000 } else { v }
}

pub fn read_le16(s: &[u8], i: usize) -> (r: u16)
    requires
        i + 2 <= s@.len(),
    ensures
        r == le16(s@, i as int),
{
    s[i] as u16 + s[i + 1] as u16 * 256
}

pub fn read_be16(s: &[u8], i: usize) -> (r: u16)
    requires
        i + 2 <= s@.len(),
    ensures
        r == be16(s@, i as int),
{
    s[i] as u16 * 256 + s[i + 1] as u16
}

pub fn read_le32(s: &[u8], i: usize) -> (r: u32)
    requires
        i + 4 <= s@.len(),
    ensures
        r == le32(s@, i as int),
{
    let _n = s.len();
    read_le16(s, i) as u32 + read_le16(s, i + 2) as u32 * 65536
}

pub fn read_be32(s: &[u8], i: usize) -> (r: u32)
    requires
        i + 4 <= s@.len(),
    ensures
        r == be32(s@, i as int),
{
    let _n = s.len();
    read_be16(s, i) as u32 * 65536 + read_be16(s, i + 2) as u32
}

pub fn read_u16(big: bool, s: &[u8], i: usize) -> (r: u16)
    requires
        i + 2 <= s@.len(),
    ensures
        r == u16_at(big, s@, i as int),
{
    if big { read_be16(s, i) } else { read_le16(s, i) }
}

pub fn read_u32(big: bool, s: &[u8], i: usize) -> (r: u32)
    requires
        i + 4 <= s@.len(),
    ensures
        r == u32_at(big, s@, i as int),
{
    if big { read_be32(s, i) } else { read_le32(s, i) }
}

pub fn read_u64(big: bool, s: &[u8], i: usize) -> (r: u64)
    requires
        i + 8 <= s@.len(),
    ensures
        r == u64_at(big, s@, i as int),
{
    let _n = s.len();
    if big {
        read_be32(s, i) as u64 * 0x1_0000_0000 + read_be32(s, i + 4) as u64
    } else {
        read_le32(s, i) as u64 + read_le32(s, i + 4) as u64 * 0x1_0000_0000
    }
}

/// The first `LEN` bytes of `slice` as an array (the slice must hold at least that many).
pub fn get_array<const LEN: usize>(slice: &[u8], format: ImFormat) -> (r: ImResult<[u8; LEN]>)
    requires
        LEN <= slice@.len(),
    ensures
        r matches Ok(a) && a@ == slice@.subrange(0, LEN as int),
{
    let mut a: [u8; LEN] = array_fill_for_copy_types(0u8);
    let mut i: usize = 0;
    while i < LEN
        invariant
            i <= LEN,
            LEN <= slice@.len(),
            a@.len() == LEN,
            forall|j: int| 0 <= j < i ==> a@[j] == slice@[j],
        decreases LEN - i,
    {
        a[i] = slice[i];
        i = i + 1;
    }
    assert(a@ =~= slice@.subrange(0, LEN as int));
    Ok(a)
}

} // verus!
