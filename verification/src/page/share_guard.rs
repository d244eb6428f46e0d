//! The shared read guard: it holds one unit of the latch's reader count,
//! which keeps every writer out for its lifetime while letting other
//! readers in beside it.

use vstd::prelude::*;

use crate::latch_word::{
    latch_is_exclusive, latch_is_open, latch_is_shared, word_dirty, word_latch, word_version,
    LATCH_FIELD_MAX,
};
use crate::page::Page;
use crate::page_manager::frame::FrameView;
use crate::PageError;

verus! {

/// Shared read access to one page.
pub struct ShareGuard {
    page: Page,
}

impl ShareGuard {
    /// The slot address of the guarded page.
    pub closed spec fn spec_addr(&self) -> usize {
        self.page.spec_addr()
    }

    /// The guarded frame's fields.
    pub closed spec fn spec_frame(&self) -> FrameView {
        self.page.spec_frame()
    }

    /// Take one shared unit of the page's latch: the open latch gains
    /// its first reader, a shared latch one more. Refused — the page
    /// comes back unchanged — while a writer holds the latch or the
    /// reader count is at its cap.
    pub fn try_new(page: Page) -> (r: Result<ShareGuard, Page>)
        ensures
            !latch_is_exclusive(word_latch(page.spec_frame().vlds)) && word_latch(
                page.spec_frame().vlds,
            ) < LATCH_FIELD_MAX ==> (r matches Ok(g) && {
                &&& g.spec_addr() == page.spec_addr()
                &&& g.spec_frame().swip == page.spec_frame().swip
                &&& g.spec_frame().data == page.spec_frame().data
                &&& latch_is_shared(word_latch(g.spec_frame().vlds))
                &&& word_latch(g.spec_frame().vlds) == (if latch_is_open(
                    word_latch(page.spec_frame().vlds),
                ) {
                    2u64
                } else {
                    (word_latch(page.spec_frame().vlds) + 1) as u64
                })
                &&& word_version(g.spec_frame().vlds) == word_version(page.spec_frame().vlds)
                &&& word_dirty(g.spec_frame().vlds) == word_dirty(page.spec_frame().vlds)
            }),
            latch_is_exclusive(word_latch(page.spec_frame().vlds)) || word_latch(
                page.spec_frame().vlds,
            ) == LATCH_FIELD_MAX ==> (r matches Err(p) && {
                &&& p.spec_addr() == page.spec_addr()
                &&& p.spec_frame() == page.spec_frame()
            }),
    {
        let mut page = page;
        match page.frame.vlds.latch_read() {
            Ok(_) => Ok(ShareGuard { page }),
            Err(_) => Err(page),
        }
    }

    /// Append the `len` data-zone bytes starting at `offset` to `dest`;
    /// refused when the range leaves the data zone.
    pub fn read(&self, offset: usize, len: usize, dest: &mut Vec<u8>) -> (r: Result<
        usize,
        PageError,
    >)
        ensures
            offset + len <= self.spec_frame().data.len() ==> {
                &&& r == Ok::<usize, PageError>(len)
                &&& final(dest)@ == old(dest)@ + self.spec_frame().data.subrange(
                    offset as int,
                    offset + len,
                )
            },
            offset + len > self.spec_frame().data.len() ==> {
                &&& r == Err::<usize, PageError>(PageError::OutOfBounds)
                &&& final(dest)@ == old(dest)@
            },
    {
        self.page.frame.data.try_read(offset, len, dest)
    }

    /// Give the shared unit back: one fewer reader, the last reader
    /// reopens the latch. The version does not move — shared readers
    /// mutate nothing. The page is handed back.
    pub fn release(self) -> (page: Page)
        requires
            latch_is_shared(word_latch(self.spec_frame().vlds)),
        ensures
            page.spec_addr() == self.spec_addr(),
            page.spec_frame().swip == self.spec_frame().swip,
            page.spec_frame().data == self.spec_frame().data,
            word_latch(page.spec_frame().vlds) == (if word_latch(self.spec_frame().vlds) == 2 {
                0u64
            } else {
                (word_latch(self.spec_frame().vlds) - 1) as u64
            }),
            word_version(page.spec_frame().vlds) == word_version(self.spec_frame().vlds),
            word_dirty(page.spec_frame().vlds) == word_dirty(self.spec_frame().vlds),
    {
        let mut page = self.page;
        let _ = page.frame.vlds.latch_read_release();
        page
    }
}

} // verus!
