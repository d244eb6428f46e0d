//! A page handle: one word that identifies a page logically while it is
//! cold and by its slot address while it is resident.

pub mod page_swip;

use vstd::prelude::*;

use crate::page_handle::page_swip::PageSWIP;
use crate::page_manager::frame::frame_swip::{swip_tag, FrameSWIP};

verus! {

/// The swizzlable handle to one page.
pub struct PageHandle {
    swip: FrameSWIP,
}

impl View for PageHandle {
    type V = u64;

    closed spec fn view(&self) -> u64 {
        self.swip@
    }
}

impl PageHandle {
    /// A handle over the given identity word.
    pub fn new(swip: FrameSWIP) -> (r: PageHandle)
        ensures
            r@ == swip@,
    {
        PageHandle { swip }
    }

    /// The handle word read as what it logically is.
    pub fn swip(&self) -> (r: PageSWIP)
        ensures
            swip_tag(self@) == 1 ==> (r matches PageSWIP::Fizzled(f) && f@ == self@),
            swip_tag(self@) == 0 ==> (r matches PageSWIP::Swizzled(s) && s@ == self@),
    {
        PageSWIP::from_word(self.swip.value())
    }
}

} // verus!
