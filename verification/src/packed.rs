//! Pairs of 32 bit numbers that Media Foundation packs into one of 64 bits.

use vstd::prelude::*;

verus! {

/// The first number of a packed pair.
pub open spec fn upper_half(packed: u64) -> u32 {
    (packed / 0x1_0000_0000) as u32
}

/// The second number of a packed pair.
pub open spec fn lower_half(packed: u64) -> u32 {
    (packed % 0x1_0000_0000) as u32
}

/// The two halves of a packed pair.
pub fn unpacked(packed: u64) -> (halves: (u32, u32))
    ensures
        halves == (upper_half(packed), lower_half(packed)),
{
    ((packed / 0x1_0000_0000) as u32, (packed % 0x1_0000_0000) as u32)
}

/// The two halves of a pair make up the whole: the first counts multiples of `2^32`.
pub proof fn halves_make_up_the_whole(packed: u64)
    ensures
        upper_half(packed) * 0x1_0000_0000 + lower_half(packed) == packed,
{
}

}
