//! The exclusive write guard: it owns the page for the length of one
//! critical section. Taking it is the Open-to-Exclusive latch
//! transition; releasing it reopens the latch, bumps the version by
//! exactly one, and marks the page dirty.

use vstd::prelude::*;

use crate::latch_word::{
    latch_is_exclusive, latch_is_open, word_dirty, word_latch, word_version, VERSION_FIELD_MAX,
};
use crate::page::Page;
use crate::page_manager::frame::{frame_view_wf, FrameView};
use crate::PageError;

verus! {

/// Sole access to one page.
pub struct WriteGuard {
    page: Page,
}

impl WriteGuard {
    /// The slot address of the guarded page.
    pub closed spec fn spec_addr(&self) -> usize {
        self.page.spec_addr()
    }

    /// The guarded frame's fields.
    pub closed spec fn spec_frame(&self) -> FrameView {
        self.page.spec_frame()
    }

    /// The guard is well formed when the page is and the latch reads
    /// Exclusive, as it does from taking the guard to releasing it.
    pub open spec fn wf(&self) -> bool {
        &&& frame_view_wf(self.spec_frame())
        &&& latch_is_exclusive(word_latch(self.spec_frame().vlds))
    }

    /// Take the page exclusively: only an open latch can be taken, and
    /// every other observer then reads Exclusive until the release. On
    /// refusal the page comes back unchanged.
    pub fn try_new(page: Page) -> (r: Result<WriteGuard, Page>)
        ensures
            latch_is_open(word_latch(page.spec_frame().vlds)) ==> (r matches Ok(g) && {
                &&& g.spec_addr() == page.spec_addr()
                &&& g.spec_frame().swip == page.spec_frame().swip
                &&& g.spec_frame().data == page.spec_frame().data
                &&& latch_is_exclusive(word_latch(g.spec_frame().vlds))
                &&& word_version(g.spec_frame().vlds) == word_version(page.spec_frame().vlds)
                &&& word_dirty(g.spec_frame().vlds) == word_dirty(page.spec_frame().vlds)
                &&& (page.wf() ==> g.wf())
            }),
            !latch_is_open(word_latch(page.spec_frame().vlds)) ==> (r matches Err(p) && {
                &&& p.spec_addr() == page.spec_addr()
                &&& p.spec_frame() == page.spec_frame()
            }),
    {
        let mut page = page;
        match page.frame.vlds.latch_write() {
            Ok(_) => Ok(WriteGuard { page }),
            Err(_) => Err(page),
        }
    }

    /// Append the `len` data-zone bytes starting at `offset` to `dest`;
    /// refused when the range leaves the data zone.
    pub fn read(&self, offset: usize, len: usize, dest: &mut Vec<u8>) -> (r: Result<
        usize,
        PageError,
    >)
        ensures
            offset + len <= self.spec_frame().data.len() ==> {
                &&& r == Ok::<usize, PageError>(len)
                &&& final(dest)@ == old(dest)@ + self.spec_frame().data.subrange(
                    offset as int,
                    offset + len,
                )
            },
            offset + len > self.spec_frame().data.len() ==> {
                &&& r == Err::<usize, PageError>(PageError::OutOfBounds)
                &&& final(dest)@ == old(dest)@
            },
    {
        self.page.frame.data.try_read(offset, len, dest)
    }

    /// Copy bytes from the front of `data` into the data zone at
    /// `offset`: as many as `data` offers, at most `len`. Refused when
    /// the destination range leaves the data zone. Nothing else of the
    /// page changes.
    pub fn write(&mut self, offset: usize, len: usize, data: &Vec<u8>) -> (r: Result<
        usize,
        PageError,
    >)
        ensures
            final(self).spec_addr() == old(self).spec_addr(),
            final(self).spec_frame().swip == old(self).spec_frame().swip,
            final(self).spec_frame().vlds == old(self).spec_frame().vlds,
            final(self).wf() == old(self).wf(),
            offset + len <= old(self).spec_frame().data.len() ==> {
                let count = if data@.len() < len {
                    data@.len() as int
                } else {
                    len as int
                };
                &&& r == Ok::<usize, PageError>(count as usize)
                &&& final(self).spec_frame().data.len() == old(self).spec_frame().data.len()
                &&& forall|i: int|
                    offset <= i < offset + count ==> final(self).spec_frame().data[i] == data@[i
                        - offset]
                &&& forall|i: int|
                    0 <= i < old(self).spec_frame().data.len() && !(offset <= i < offset + count)
                        ==> final(self).spec_frame().data[i] == old(self).spec_frame().data[i]
            },
            offset + len > old(self).spec_frame().data.len() ==> {
                &&& r == Err::<usize, PageError>(PageError::OutOfBounds)
                &&& final(self).spec_frame().data == old(self).spec_frame().data
            },
    {
        self.page.frame.data.try_write(offset, len, data)
    }

    /// End the critical section: reopen the latch, move the version
    /// forward by exactly one so every optimistic snapshot taken before
    /// is invalidated, and mark the page dirty. The page is handed back.
    pub fn release(self) -> (page: Page)
        requires
            word_version(self.spec_frame().vlds) < VERSION_FIELD_MAX,
        ensures
            page.spec_addr() == self.spec_addr(),
            page.spec_frame().swip == self.spec_frame().swip,
            page.spec_frame().data == self.spec_frame().data,
            latch_is_open(word_latch(page.spec_frame().vlds)),
            word_version(page.spec_frame().vlds) == word_version(self.spec_frame().vlds) + 1,
            word_dirty(page.spec_frame().vlds) == 1,
            page.wf() == frame_view_wf(self.spec_frame()),
    {
        let mut page = self.page;
        let _ = page.frame.vlds.increment_version();
        let _ = page.frame.vlds.mark_dirty();
        let _ = page.frame.vlds.latch_open();
        page
    }
}

} // verus!
