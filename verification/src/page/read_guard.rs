//! The optimistic read guard over a frame's words: it records a version
//! snapshot at creation and copies bytes only while the snapshot still
//! validates, so it never blocks a writer and is invalidated
//! retroactively by one.

use vstd::prelude::*;

use crate::latch_word::{latch_is_exclusive, spec_validate, word_latch, word_version};
use crate::page_manager::frame::frame_data::FrameData;
use crate::page_manager::frame::frame_vlds::FrameVLDS;
use crate::PageError;

verus! {

/// An optimistic reader of one frame.
pub struct ReadGuard<'a> {
    vlds: &'a FrameVLDS,
    data: &'a FrameData,
    version: u64,
}

impl<'a> ReadGuard<'a> {
    /// The latch word the guard watches.
    pub closed spec fn vlds_word(&self) -> u64 {
        self.vlds@
    }

    /// The data zone the guard reads.
    pub closed spec fn data_view(&self) -> Seq<u8> {
        self.data@
    }

    /// The version snapshot the guard validates against.
    pub closed spec fn spec_version(&self) -> u64 {
        self.version
    }

    /// Start an optimistic read: record the version now.
    pub fn new(vlds: &'a FrameVLDS, data: &'a FrameData) -> (r: ReadGuard<'a>)
        ensures
            r.vlds_word() == vlds@,
            r.data_view() == data@,
            r.spec_version() == word_version(vlds@),
    {
        let version = FrameVLDS::version(vlds.value());
        ReadGuard { vlds, data, version }
    }

    /// Copy the `len` bytes at `offset` of the data zone into `dest`,
    /// but only if the snapshot still validates: the version is unchanged
    /// and no writer holds the latch. `None` reports a conflict; the
    /// caller must retry the whole logical operation, since a conflicted
    /// copy may be torn.
    pub fn try_read(&self, offset: usize, len: usize, dest: &mut Vec<u8>) -> (r: Result<
        Option<usize>,
        PageError,
    >)
        ensures
            !spec_validate(self.vlds_word(), self.spec_version()) ==> {
                &&& r == Ok::<Option<usize>, PageError>(None)
                &&& final(dest)@ == old(dest)@
            },
            spec_validate(self.vlds_word(), self.spec_version()) && offset + len
                > self.data_view().len() ==> {
                &&& r == Err::<Option<usize>, PageError>(PageError::OutOfBounds)
                &&& final(dest)@ == old(dest)@
            },
            spec_validate(self.vlds_word(), self.spec_version()) && offset + len
                <= self.data_view().len() ==> {
                &&& r == Ok::<Option<usize>, PageError>(Some(len))
                &&& final(dest)@ == old(dest)@ + self.data_view().subrange(
                    offset as int,
                    offset + len,
                )
            },
    {
        let value = self.vlds.value();
        if FrameVLDS::version(value) != self.version {
            return Ok(None);
        }
        if FrameVLDS::is_exclusive(FrameVLDS::latch(value)) {
            // A writer is in its critical section; its release will move
            // the version past the snapshot, so the read cannot validate.
            return Ok(None);
        }
        match self.data.try_read(offset, len, dest) {
            Ok(n) => Ok(Some(n)),
            Err(e) => Err(e),
        }
    }
}

} // verus!
