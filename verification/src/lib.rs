//! In-memory core of a page-oriented storage engine: size-classed slot
//! pools carved from anonymously mapped regions, swizzlable page handles,
//! a versioned optimistic latch packed into each frame header, and the
//! page manager that ties them together.
//!
//! Every latch operation is one compare-and-swap step on the whole
//! packed word, the shape a concurrent caller would execute atomically;
//! here Rust ownership carries the exclusivity between those steps, so
//! an operation that would spin on contention instead reports it and
//! leaves the retry to the caller. Persistence is a collaborator's job:
//! a cold fetch or an eviction is out of scope for this core.

use vstd::prelude::*;

pub mod latch_word;
pub mod mapping;
pub mod page;
pub mod page_class;
pub mod page_guard;
pub mod page_handle;
pub mod page_manager;

pub use crate::page::Page;
pub use crate::page_guard::PageGuard;
pub use crate::page_handle::PageHandle;
pub use crate::page_manager::PageManager;

verus! {

/// Width in bytes of the handle (SWIP) word at the start of a frame.
pub const SWIP_LEN: usize = 8;

/// Width in bytes of the version-latch-dirty (VLDS) word that follows it.
pub const VLDS_LEN: usize = 8;

/// Total width in bytes of a frame header, identical for every size class.
pub const HEADER_LEN: usize = 16;

/// Smallest size-class exponent: pages are at least 2^12 = 4096 bytes.
pub const MIN_CLASS_ID: usize = 12;

/// Largest size-class exponent: pages are at most 2^31 = 2 GiB.
pub const MAX_CLASS_ID: usize = 31;

/// Everything that can go wrong inside the page manager.
#[derive(Clone, Copy, Debug, PartialEq, Eq, Structural)]
pub enum PageError {
    /// No size class in [`MIN_CLASS_ID`, `MAX_CLASS_ID`] can hold the
    /// requested payload, or a class identifier lies outside that range.
    ClassOutOfRange,
    /// An allocation was attempted through a handle that is already
    /// swizzled (backed by a resident frame).
    AlreadyAllocated,
    /// The slot pool of the requested size class has no free slot left.
    PoolExhausted,
    /// A slot address was freed that is not currently in use: a double
    /// free or a free of a never-allocated address.
    InvalidFree,
    /// A byte range lies outside the zone it addresses.
    OutOfBounds,
    /// A pool size that no whole number of slots can cover, or one too
    /// large to account for.
    InvalidPoolSize,
    /// The page latch is not open, so the operation cannot take the page
    /// exclusively.
    LatchContended,
    /// The operating system refused to map an anonymous memory region.
    MapFailed,
}

} // verus!
