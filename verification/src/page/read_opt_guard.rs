//! The optimistic read guard over a whole page: a version snapshot taken
//! at creation, validated again after every copy out of the data zone.

use vstd::prelude::*;

use crate::latch_word::{spec_validate, word_version};
use crate::page::Page;
use crate::page_manager::frame::frame_vlds::FrameVLDS;
use crate::PageError;

verus! {

/// An optimistic reader of one page.
pub struct ReadOptGuard<'a> {
    page: &'a Page,
    version: u64,
}

impl<'a> ReadOptGuard<'a> {
    /// The version snapshot the guard validates against.
    pub closed spec fn spec_version(&self) -> u64 {
        self.version
    }

    /// The page the guard reads.
    pub closed spec fn spec_page(&self) -> &'a Page {
        self.page
    }

    /// Start an optimistic read of `page`: record its version now.
    pub fn new(page: &'a Page) -> (r: ReadOptGuard<'a>)
        ensures
            r.spec_page() == page,
            r.spec_version() == word_version(page.spec_frame().vlds),
    {
        let version = FrameVLDS::version(page.frame.vlds.value());
        ReadOptGuard { page, version }
    }

    /// The page under the guard.
    pub fn page(&self) -> (r: &Page)
        ensures
            r == self.spec_page(),
    {
        self.page
    }

    /// The recorded version snapshot.
    pub fn version(&self) -> (r: u64)
        ensures
            r == self.spec_version(),
    {
        self.version
    }

    /// Give the guard up. An optimistic read holds no latch, so there is
    /// nothing to release; the guard is merely consumed.
    pub fn unlock(self) {
    }

    /// Copy the `len` bytes at `offset` of the data zone into `dest`,
    /// but only if the snapshot still validates: the version is unchanged
    /// and no writer holds the latch. `None` reports a conflict; the
    /// caller must retry the whole logical operation, since a conflicted
    /// copy may be torn.
    pub fn try_read(&self, offset: usize, len: usize, dest: &mut Vec<u8>) -> (r: Result<
        Option<usize>,
        PageError,
    >)
        ensures
            !spec_validate(self.spec_page().spec_frame().vlds, self.spec_version()) ==> {
                &&& r == Ok::<Option<usize>, PageError>(None)
                &&& final(dest)@ == old(dest)@
            },
            spec_validate(self.spec_page().spec_frame().vlds, self.spec_version()) && offset + len
                > self.spec_page().spec_frame().data.len() ==> {
                &&& r == Err::<Option<usize>, PageError>(PageError::OutOfBounds)
                &&& final(dest)@ == old(dest)@
            },
            spec_validate(self.spec_page().spec_frame().vlds, self.spec_version()) && offset + len
                <= self.spec_page().spec_frame().data.len() ==> {
                &&& r == Ok::<Option<usize>, PageError>(Some(len))
                &&& final(dest)@ == old(dest)@ + self.spec_page().spec_frame().data.subrange(
                    offset as int,
                    offset + len,
                )
            },
    {
        let value = self.page.frame.vlds.value();
        if FrameVLDS::version(value) != self.version {
            return Ok(None);
        }
        if FrameVLDS::is_exclusive(FrameVLDS::latch(value)) {
            // A writer is in its critical section; its release will move
            // the version past the snapshot, so the read cannot validate.
            return Ok(None);
        }
        match self.page.frame.data.try_read(offset, len, dest) {
            Ok(n) => Ok(Some(n)),
            Err(e) => Err(e),
        }
    }
}

} // verus!
