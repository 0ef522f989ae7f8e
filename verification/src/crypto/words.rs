//! Big-endian packing of bytes into 32-bit words.

use vstd::prelude::*;

verus! {

/// The big-endian word made of four bytes.
pub open spec fn be32(b0: u8, b1: u8, b2: u8, b3: u8) -> u32 {
    ((b0 as u32) << 24u32) | ((b1 as u32) << 16u32) | ((b2 as u32) << 8u32) | (b3 as u32)
}

/// Byte `j` (0 = most significant) of a word.
pub open spec fn word_byte(w: u32, j: int) -> u8 {
    if j == 0 {
        (w >> 24u32) as u8
    } else if j == 1 {
        (w >> 16u32) as u8
    } else if j == 2 {
        (w >> 8u32) as u8
    } else {
        w as u8
    }
}

/// Packs four bytes into a big-endian word.
pub fn be32_exec(b0: u8, b1: u8, b2: u8, b3: u8) -> (r: u32)
    ensures
        r == be32(b0, b1, b2, b3),
{
    ((b0 as u32) << 24u32) | ((b1 as u32) << 16u32) | ((b2 as u32) << 8u32) | (b3 as u32)
}

} // verus!
