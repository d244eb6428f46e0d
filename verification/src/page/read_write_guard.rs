//! A plain read-write wrapper over a page that is already held
//! exclusively: frame access plus writes into the data zone, with no
//! latch transitions of its own.

use vstd::prelude::*;

use crate::latch_word::{latch_is_exclusive, word_latch};
use crate::page::Page;
use crate::page_manager::frame::{Frame, FrameView};
use crate::PageError;

verus! {

/// Read and write access to one exclusively held page.
pub struct ReadWriteGuard {
    page: Page,
}

impl ReadWriteGuard {
    /// The slot address of the guarded page.
    pub closed spec fn spec_addr(&self) -> usize {
        self.page.spec_addr()
    }

    /// The guarded frame's fields.
    pub closed spec fn spec_frame(&self) -> FrameView {
        self.page.spec_frame()
    }

    /// Wrap a page whose latch already reads Exclusive.
    pub fn new(page: Page) -> (r: ReadWriteGuard)
        requires
            latch_is_exclusive(word_latch(page.spec_frame().vlds)),
        ensures
            r.spec_frame() == page.spec_frame(),
            r.spec_addr() == page.spec_addr(),
    {
        ReadWriteGuard { page }
    }

    /// The frame this guard protects.
    pub fn frame(&self) -> (r: &Frame)
        ensures
            r@ == self.spec_frame(),
    {
        self.page.frame()
    }

    /// Copy bytes from the front of `data` into the data zone at
    /// `offset`: as many as `data` offers, at most `len`. Refused when
    /// the destination range leaves the data zone.
    pub fn write(&mut self, offset: usize, len: usize, data: &Vec<u8>) -> (r: Result<
        usize,
        PageError,
    >)
        ensures
            final(self).spec_addr() == old(self).spec_addr(),
            final(self).spec_frame().swip == old(self).spec_frame().swip,
            final(self).spec_frame().vlds == old(self).spec_frame().vlds,
            offset + len <= old(self).spec_frame().data.len() ==> {
                let count = if data@.len() < len {
                    data@.len() as int
                } else {
                    len as int
                };
                &&& r == Ok::<usize, PageError>(count as usize)
                &&& final(self).spec_frame().data.len() == old(self).spec_frame().data.len()
                &&& forall|i: int|
                    offset <= i < offset + count ==> final(self).spec_frame().data[i] == data@[i
                        - offset]
                &&& forall|i: int|
                    0 <= i < old(self).spec_frame().data.len() && !(offset <= i < offset + count)
                        ==> final(self).spec_frame().data[i] == old(self).spec_frame().data[i]
            },
            offset + len > old(self).spec_frame().data.len() ==> {
                &&& r == Err::<usize, PageError>(PageError::OutOfBounds)
                &&& final(self).spec_frame().data == old(self).spec_frame().data
            },
    {
        self.page.frame.data.try_write(offset, len, data)
    }

    /// Hand the page back without touching the latch.
    pub fn into_page(self) -> (r: Page)
        ensures
            r.spec_frame() == self.spec_frame(),
            r.spec_addr() == self.spec_addr(),
    {
        self.page
    }
}

} // verus!
