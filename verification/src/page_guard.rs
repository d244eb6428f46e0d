//! The guard a successful allocation hands out: it owns the page and
//! opens the way to the latched access modes.

use vstd::prelude::*;

use crate::latch_word::{latch_is_open, word_latch};
use crate::page::write_guard::WriteGuard;
use crate::page::Page;
use crate::page_manager::frame::FrameView;

verus! {

/// An owned, not yet latched page.
pub struct PageGuard {
    page: Page,
}

impl PageGuard {
    /// The slot address of the held page.
    pub closed spec fn spec_addr(&self) -> usize {
        self.page.spec_addr()
    }

    /// The held frame's fields.
    pub closed spec fn spec_frame(&self) -> FrameView {
        self.page.spec_frame()
    }

    /// Hold a page.
    pub fn new(page: Page) -> (r: PageGuard)
        ensures
            r.spec_addr() == page.spec_addr(),
            r.spec_frame() == page.spec_frame(),
    {
        PageGuard { page }
    }

    /// Take the held page exclusively for writing; on refusal (the latch
    /// is not open) the guard comes back unchanged.
    pub fn try_write(self) -> (r: Result<WriteGuard, PageGuard>)
        ensures
            latch_is_open(word_latch(self.spec_frame().vlds)) ==> (r matches Ok(g) && {
                &&& g.spec_addr() == self.spec_addr()
                &&& g.spec_frame().swip == self.spec_frame().swip
                &&& g.spec_frame().data == self.spec_frame().data
            }),
            !latch_is_open(word_latch(self.spec_frame().vlds)) ==> (r matches Err(p) && {
                &&& p.spec_addr() == self.spec_addr()
                &&& p.spec_frame() == self.spec_frame()
            }),
    {
        match WriteGuard::try_new(self.page) {
            Ok(g) => Ok(g),
            Err(page) => Err(PageGuard { page }),
        }
    }

    /// Surrender the page.
    pub fn into_page(self) -> (r: Page)
        ensures
            r.spec_addr() == self.spec_addr(),
            r.spec_frame() == self.spec_frame(),
    {
        self.page
    }
}

} // verus!
