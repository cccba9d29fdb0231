//! Big- and little-endian integer reads from untrusted byte slices.
//!
//! Table fields are big-endian on disk; the CRILAYLA header is little-endian.
//! Each executable reader is proved equal to the spec-level combination of
//! the bytes it covers.

use vstd::prelude::*;

verus! {

/// Big-endian u16 from two bytes.
pub open spec fn spec_be_u16(s: Seq<u8>, i: int) -> int {
    s[i] * 0x100 + s[i + 1]
}

/// Big-endian u32 from four bytes.
pub open spec fn spec_be_u32(s: Seq<u8>, i: int) -> int {
    s[i] * 0x1000000 + s[i + 1] * 0x10000 + s[i + 2] * 0x100 + s[i + 3]
}

/// Big-endian u64 from eight bytes.
pub open spec fn spec_be_u64(s: Seq<u8>, i: int) -> int {
    spec_be_u32(s, i) * 0x100000000 + spec_be_u32(s, i + 4)
}

/// Little-endian u32 from four bytes.
pub open spec fn spec_le_u32(s: Seq<u8>, i: int) -> int {
    s[i + 3] * 0x1000000 + s[i + 2] * 0x10000 + s[i + 1] * 0x100 + s[i]
}

/// Little-endian u64 from eight bytes.
pub open spec fn spec_le_u64(s: Seq<u8>, i: int) -> int {
    spec_le_u32(s, i + 4) * 0x100000000 + spec_le_u32(s, i)
}

pub fn be_u16(s: &Vec<u8>, i: usize) -> (r: u16)
    requires
        i + 2 <= s.len(),
    ensures
        r == spec_be_u16(s@, i as int),
{
    (s[i] as u16) * 0x100 + (s[i + 1] as u16)
}

pub fn be_u32(s: &Vec<u8>, i: usize) -> (r: u32)
    requires
        i + 4 <= s.len(),
    ensures
        r == spec_be_u32(s@, i as int),
{
    (s[i] as u32) * 0x1000000 + (s[i + 1] as u32) * 0x10000 + (s[i + 2] as u32) * 0x100 + (s[i
        + 3] as u32)
}

pub fn be_u64(s: &Vec<u8>, i: usize) -> (r: u64)
    requires
        i + 8 <= s.len(),
    ensures
        r == spec_be_u64(s@, i as int),
{
    (be_u32(s, i) as u64) * 0x100000000 + (be_u32(s, i + 4) as u64)
}

pub fn le_u32(s: &Vec<u8>, i: usize) -> (r: u32)
    requires
        i + 4 <= s.len(),
    ensures
        r == spec_le_u32(s@, i as int),
{
    (s[i + 3] as u32) * 0x1000000 + (s[i + 2] as u32) * 0x10000 + (s[i + 1] as u32) * 0x100 + (
    s[i] as u32)
}

pub fn le_u64(s: &Vec<u8>, i: usize) -> (r: u64)
    requires
        i + 8 <= s.len(),
    ensures
        r == spec_le_u64(s@, i as int),
{
    (le_u32(s, i + 4) as u64) * 0x100000000 + (le_u32(s, i) as u64)
}

} // verus!
