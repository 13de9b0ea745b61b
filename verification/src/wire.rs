//! Big-endian integer fields of wire formats.

use vstd::prelude::*;

verus! {

/// The 16-bit big-endian value at position `i` of a byte sequence.
pub open spec fn be16(d: Seq<u8>, i: int) -> u16
    recommends
        0 <= i,
        i + 2 <= d.len(),
{
    (d[i] as int * 256 + d[i + 1] as int) as u16
}

/// The 32-bit big-endian value at position `i` of a byte sequence.
pub open spec fn be32(d: Seq<u8>, i: int) -> u32
    recommends
        0 <= i,
        i + 4 <= d.len(),
{
    (d[i] as int * 0x1000000 + d[i + 1] as int * 0x10000 + d[i + 2] as int * 0x100
        + d[i + 3] as int) as u32
}

/// Read a 16-bit big-endian field.
pub fn read_be16(data: &[u8], i: usize) -> (r: u16)
    requires
        i + 2 <= data@.len(),
    ensures
        r == be16(data@, i as int),
{
    (data[i] as u16) * 256 + (data[i + 1] as u16)
}

/// Read a 32-bit big-endian field.
pub fn read_be32(data: &[u8], i: usize) -> (r: u32)
    requires
        i + 4 <= data@.len(),
    ensures
        r == be32(data@, i as int),
{
    (data[i] as u32) * 0x1000000 + (data[i + 1] as u32) * 0x10000
        + (data[i + 2] as u32) * 0x100 + (data[i + 3] as u32)
}

} // verus!
