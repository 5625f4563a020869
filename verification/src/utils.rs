use vstd::prelude::*;

verus! {

/// Width of a cache line in bytes.
pub const CACHE_LINE_SIZE: usize = 64;

/// Whether an address falls on a cache-line boundary.
pub fn is_cache_aligned(addr: usize) -> (aligned: bool)
    ensures
        aligned == (addr % 64 == 0),
{
    addr % CACHE_LINE_SIZE == 0
}

} // verus!
