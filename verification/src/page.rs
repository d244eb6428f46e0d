//! A page: a frame paired with the slot address it lives at. Created
//! when a handle is swizzled, consumed when the page is freed; a page
//! never outlives its frame.

pub mod exclusive_page_guard;
pub mod page_data;
pub mod page_latch;
pub mod page_vlds;
pub mod read_guard;
pub mod read_opt_guard;
pub mod read_write_guard;
pub mod share_guard;
pub mod write_guard;

use vstd::prelude::*;
use vstd::arithmetic::power2::pow2;

use crate::latch_word::{latch_is_open, word_latch};
use crate::page::write_guard::WriteGuard;
use crate::page_handle::PageHandle;
use crate::page_manager::frame::frame_swip::{swip_cid, swip_pid, FrameSWIP, PID_FIELD_MAX};
use crate::page_manager::frame::{frame_view_wf, Frame, FrameView};
use crate::{PageError, HEADER_LEN, MAX_CLASS_ID, MIN_CLASS_ID};

verus! {

/// One resident page.
pub struct Page {
    /// The slot address the frame lives at.
    pub addr: usize,
    /// The frame itself.
    pub frame: Frame,
}

impl Page {
    /// The slot address this page resides at.
    pub open spec fn spec_addr(&self) -> usize {
        self.addr
    }

    /// The frame's fields.
    pub open spec fn spec_frame(&self) -> FrameView {
        self.frame@
    }

    /// A page is well formed when its frame is.
    pub open spec fn wf(&self) -> bool {
        frame_view_wf(self.spec_frame())
    }

    /// The size class of this page.
    pub open spec fn spec_cid(&self) -> u64 {
        swip_cid(self.spec_frame().swip)
    }

    /// The page identifier of this page.
    pub open spec fn spec_pid(&self) -> u64 {
        swip_pid(self.spec_frame().swip)
    }

    /// Activate the slot at `addr` for page `pid` of class `cid`: the
    /// frame is brought to life with a fresh header and a zeroed data
    /// zone. Refused when the class lies outside the valid range.
    pub fn try_alloc(addr: usize, pid: u64, cid: usize) -> (r: Result<Page, PageError>)
        requires
            pid <= PID_FIELD_MAX,
        ensures
            MIN_CLASS_ID <= cid <= MAX_CLASS_ID ==> (r matches Ok(p) && {
                &&& p.wf()
                &&& p.spec_addr() == addr
                &&& p.spec_pid() == pid
                &&& p.spec_cid() == cid
                &&& p.spec_frame().vlds == 1
                &&& p.spec_frame().data.len() + HEADER_LEN == pow2(cid as nat)
                &&& forall|i: int|
                    0 <= i < p.spec_frame().data.len() ==> p.spec_frame().data[i] == 0u8
            }),
            !(MIN_CLASS_ID <= cid <= MAX_CLASS_ID) ==> r == Err::<Page, PageError>(
                PageError::ClassOutOfRange,
            ),
    {
        let frame = match Frame::try_activate(pid, cid) {
            Ok(frame) => frame,
            Err(e) => {
                return Err(e);
            },
        };
        Ok(Page { addr, frame })
    }

    /// The handle this page answers to, in the fizzled form its header
    /// carries.
    pub fn try_handle(&self) -> (r: Result<PageHandle, PageError>)
        ensures
            r matches Ok(h) && h@ == self.spec_frame().swip,
    {
        Ok(PageHandle::new(FrameSWIP::new(self.frame.swip.value())))
    }

    /// The frame this page wraps.
    pub fn frame(&self) -> (r: &Frame)
        ensures
            r@ == self.spec_frame(),
    {
        &self.frame
    }

    /// Take the page exclusively for writing; on refusal (the latch is
    /// not open) the page comes back unchanged.
    pub fn try_write(self) -> (r: Result<WriteGuard, Page>)
        ensures
            latch_is_open(word_latch(self.spec_frame().vlds)) ==> (r matches Ok(g) && {
                &&& g.spec_addr() == self.spec_addr()
                &&& g.spec_frame().swip == self.spec_frame().swip
                &&& g.spec_frame().data == self.spec_frame().data
                &&& (self.wf() ==> g.wf())
            }),
            !latch_is_open(word_latch(self.spec_frame().vlds)) ==> (r matches Err(p) && {
                &&& p.spec_addr() == self.spec_addr()
                &&& p.spec_frame() == self.spec_frame()
            }),
    {
        WriteGuard::try_new(self)
    }
}

} // verus!
