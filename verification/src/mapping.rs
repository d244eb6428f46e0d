//! Anonymously mapped memory regions, the backing store that slot pools
//! carve into frames. The region is reserved here; every address the
//! library hands out is an offset into one of these regions.

use vstd::prelude::*;

use crate::PageError;

verus! {

#[verifier::external_type_specification]
#[verifier::external_body]
/// `memmap2::MmapMut`, an owned mutable memory-mapped region.
pub struct ExMmapMut(memmap2::MmapMut);

/// The length in bytes of a mapped region.
pub uninterp spec fn mmap_len(m: memmap2::MmapMut) -> nat;

/// Relies on `memmap2::MmapMut::map_anon`: it creates a private,
/// zero-initialized anonymous map of exactly `len` bytes, or reports the
/// operating system's refusal.
#[verifier::external_body]
pub(crate) fn map_anon(len: usize) -> (r: Result<memmap2::MmapMut, PageError>)
    ensures
        match r {
            Ok(m) => mmap_len(m) == len,
            Err(e) => e == PageError::MapFailed,
        },
{
    match memmap2::MmapMut::map_anon(len) {
        Ok(m) => Ok(m),
        Err(_) => Err(PageError::MapFailed),
    }
}

/// Relies on the slice view of `memmap2::MmapMut` (through `Deref`): its
/// length is the length the region was mapped with.
#[verifier::external_body]
pub(crate) fn mmap_region_len(m: &memmap2::MmapMut) -> (r: usize)
    ensures
        r == mmap_len(*m),
{
    m.len()
}

} // verus!
