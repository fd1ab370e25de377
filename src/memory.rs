use vstd::prelude::*;

verus! {

/// Size of one page of guest memory, in bytes.
pub const PAGE_SIZE: u32 = 4096;

/// `size` rounded up to the next multiple of `PAGE_SIZE`.
pub open spec fn align_up(size: u32) -> int {
    (size + 4095) - (size + 4095) % 4096
}

/// Whether `r` is `size` rounded up to the next multiple of `PAGE_SIZE`.
pub open spec fn is_page_aligned_up(size: u32, r: u32) -> bool {
    &&& r as int % PAGE_SIZE as int == 0
    &&& size <= r
    &&& r < size + PAGE_SIZE
}

/// Rounds `size` up to the next multiple of `PAGE_SIZE`.
pub fn page_align(size: u32) -> (r: u32)
    requires
        size <= u32::MAX - (PAGE_SIZE - 1),
    ensures
        is_page_aligned_up(size, r),
        r == align_up(size),
{
    let sum: u32 = PAGE_SIZE - 1 + size;
    let r = sum & !(PAGE_SIZE - 1);
    assert(r as int % 4096 == 0 && sum - 4095 <= r && r <= sum && r == sum - sum % 4096) by (bit_vector)
        requires
            sum == 4095 + size,
            r == sum & !4095u32,
            size <= 0xffff_f000u32,
    ;
    r
}

} // verus!
