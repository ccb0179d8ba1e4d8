//! Row-pitch alignment for buffer copies.

use vstd::prelude::*;

verus! {

/// Round `num` up to the next multiple of `align`, which must be a power
/// of two; the sum `num + align - 1` must fit in the type.  The result is
/// the least multiple of `align` at or above `num`.
pub fn align_up(num: u32, align: u32) -> (r: u32)
    requires
        align >= 1,
        align & ((align - 1) as u32) == 0,
        num + align - 1 <= u32::MAX,
    ensures
        r % align == 0,
        num <= r,
        r < num + align,
{
    let am1 = align - 1;
    let s = num + am1;
    let r = s & !am1;
    proof {
        assert(r % align == 0 && num <= r && r <= s) by (bit_vector)
            requires
                align >= 1u32,
                am1 == align - 1u32,
                align & am1 == 0u32,
                num <= 0xffff_ffffu32 - am1,
                s == num + am1,
                r == s & !am1,
        ;
    }
    r
}

} // verus!
