//! Little-endian integer accessors over borrowed byte slices.
//!
//! All on-disk integers of a FAT volume are little-endian. The spec functions
//! here define what a stored 16-bit or 32-bit value means as a mathematical
//! integer, and the executable readers are proved to return exactly that.

use vstd::prelude::*;
use vstd::slice::slice_index_get;

verus! {

/// The little-endian 16-bit value stored at byte offset `off` of `s`.
pub open spec fn le16(s: Seq<u8>, off: int) -> int {
    s[off] + 0x100 * s[off + 1]
}

/// The little-endian 32-bit value stored at byte offset `off` of `s`.
pub open spec fn le32(s: Seq<u8>, off: int) -> int {
    s[off] + 0x100 * s[off + 1] + 0x10000 * s[off + 2] + 0x1000000 * s[off + 3]
}

/// Reads the byte at `offset`.
pub fn read_u8(data: &[u8], offset: usize) -> (r: u8)
    requires
        offset < data@.len(),
    ensures
        r == data@[offset as int],
{
    *slice_index_get(data, offset)
}

/// Reads the little-endian 16-bit value at `offset`.
pub fn read_u16_le(data: &[u8], offset: usize) -> (r: u16)
    requires
        offset + 2 <= data@.len(),
    ensures
        r == le16(data@, offset as int),
{
    let _n: usize = data.len();
    let b0 = *slice_index_get(data, offset);
    let b1 = *slice_index_get(data, offset + 1);
    (b0 as u16) + 0x100 * (b1 as u16)
}

/// Reads the little-endian 32-bit value at `offset`.
pub fn read_u32_le(data: &[u8], offset: usize) -> (r: u32)
    requires
        offset + 4 <= data@.len(),
    ensures
        r == le32(data@, offset as int),
{
    let _n: usize = data.len();
    let b0 = *slice_index_get(data, offset);
    let b1 = *slice_index_get(data, offset + 1);
    let b2 = *slice_index_get(data, offset + 2);
    let b3 = *slice_index_get(data, offset + 3);
    (b0 as u32) + 0x100 * (b1 as u32) + 0x10000 * (b2 as u32) + 0x1000000 * (b3 as u32)
}

} // verus!
