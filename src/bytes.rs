//! Little-endian integers read at byte offsets.
use vstd::prelude::*;

verus! {

/// The 16-bit little-endian value of the two bytes at `off`.
pub open spec fn le16(b: Seq<u8>, off: int) -> int {
    b[off] as int + 256 * b[off + 1] as int
}

/// The 32-bit little-endian value of the four bytes at `off`.
pub open spec fn le32(b: Seq<u8>, off: int) -> int {
    b[off] as int + 256 * b[off + 1] as int + 65536 * b[off + 2] as int + 16777216 * b[off + 3] as int
}

/// Whether `n` bytes starting at `off` lie inside `b`.
pub open spec fn fits(b: Seq<u8>, off: int, n: int) -> bool {
    0 <= off && off + n <= b.len()
}

/// Whether `n` bytes starting at `off` lie inside the buffer.
pub fn in_bounds(buffer: &[u8], off: u64, n: u64) -> (r: bool)
    ensures
        r == fits(buffer@, off as int, n as int),
{
    let len = buffer.len() as u64;
    off <= len && n <= len - off
}

/// The offset `off` as an index into the buffer, once `n` bytes there are
/// known to lie inside it.
pub fn to_index(buffer: &[u8], off: u64, n: u64) -> (r: usize)
    requires
        fits(buffer@, off as int, n as int),
    ensures
        r as int == off as int,
        r as int + n as int <= buffer@.len() <= usize::MAX,
{
    assert(buffer@.len() == buffer.len());
    off as usize
}

/// Reads the two bytes at `off` as a little-endian `u16`.
pub fn read_u16(buffer: &[u8], off: usize) -> (r: u16)
    requires
        fits(buffer@, off as int, 2),
    ensures
        r as int == le16(buffer@, off as int),
{
    buffer[off] as u16 + 256 * (buffer[off + 1] as u16)
}

/// Reads the four bytes at `off` as a little-endian `u32`.
pub fn read_u32(buffer: &[u8], off: usize) -> (r: u32)
    requires
        fits(buffer@, off as int, 4),
    ensures
        r as int == le32(buffer@, off as int),
{
    buffer[off] as u32 + 256 * (buffer[off + 1] as u32) + 65536 * (buffer[off + 2] as u32)
        + 16777216 * (buffer[off + 3] as u32)
}

} // verus!
