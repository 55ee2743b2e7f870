use vstd::prelude::*;

pub mod back;
pub mod error;
pub mod front;
pub mod reflect;
pub mod runtime;

verus! {

/// Gives a size aligned to a 16 byte boundary.
pub fn align_uniform_size(size: u32) -> (r: u32)
    requires
        size <= u32::MAX - 15,
    ensures
        r as int == ((size as int + 15) / 16) * 16,
        r % 16 == 0,
        size <= r < size + 16,
{
    let r = (size + 0xf) & !0xfu32;
    assert(r == ((size + 15) / 16) * 16) by (bit_vector)
        requires size <= u32::MAX - 15, r == ((size + 0xf) as u32) & !0xfu32;
    r
}

} // verus!
