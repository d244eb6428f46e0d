//! The logical form of a handle word: a tagged sum of the two states a
//! swizzlable identifier can be in. The bit-packed word stays an internal
//! wire encoding; code works on this sum type.

use vstd::prelude::*;

use crate::page_manager::frame::frame_swip::{
    swip_cid, swip_pack, swip_pid, swip_tag, CID_FIELD_MAX, FrameSWIP, lemma_swip_pack_parts,
    PID_FIELD_MAX,
};

verus! {

/// A handle whose page is not resident: the word encodes the page
/// identifier and its size class behind the set tag bit.
pub struct FizzledPageSWIP {
    word: u64,
}

impl View for FizzledPageSWIP {
    type V = u64;

    closed spec fn view(&self) -> u64 {
        self.word
    }
}

impl FizzledPageSWIP {
    /// The packed word.
    pub fn value(&self) -> (r: u64)
        ensures
            r == self@,
    {
        self.word
    }

    /// The tag bit of the word.
    pub fn tag(&self) -> (r: u64)
        ensures
            r == swip_tag(self@),
    {
        self.word % 2
    }

    /// The size-class identifier packed into the word.
    pub fn cid(&self) -> (r: u64)
        ensures
            r == swip_cid(self@),
    {
        (self.word / 2) % 0x40
    }

    /// The page identifier packed into the word.
    pub fn pid(&self) -> (r: u64)
        ensures
            r == swip_pid(self@),
    {
        self.word / 0x80
    }

    /// The fizzled handle for a page identifier and its size class.
    pub fn pack(pid: u64, cid: u64) -> (r: FizzledPageSWIP)
        requires
            pid <= PID_FIELD_MAX,
            cid <= CID_FIELD_MAX,
        ensures
            r@ == swip_pack(pid, cid),
            swip_tag(r@) == 1,
            swip_cid(r@) == cid,
            swip_pid(r@) == pid,
    {
        proof {
            lemma_swip_pack_parts(pid, cid);
        }
        FizzledPageSWIP { word: pid * 0x80 + cid * 2 + 1 }
    }

    /// Wrap an already packed word whose tag bit is set.
    pub fn from_word(word: u64) -> (r: FizzledPageSWIP)
        ensures
            r@ == word,
    {
        FizzledPageSWIP { word }
    }
}

/// A handle whose page is resident: the word is the slot address of the
/// frame, whose alignment keeps the tag bit clear.
pub struct SwizzledPageSWIP {
    word: u64,
}

impl View for SwizzledPageSWIP {
    type V = u64;

    closed spec fn view(&self) -> u64 {
        self.word
    }
}

impl SwizzledPageSWIP {
    /// The slot address of the resident frame.
    pub fn address(&self) -> (r: u64)
        ensures
            r == self@,
    {
        self.word
    }

    /// Wrap an already packed word whose tag bit is clear.
    pub fn from_word(word: u64) -> (r: SwizzledPageSWIP)
        ensures
            r@ == word,
    {
        SwizzledPageSWIP { word }
    }
}

/// A handle word read as what it logically is.
pub enum PageSWIP {
    /// The page is cold: the word names it logically.
    Fizzled(FizzledPageSWIP),
    /// The page is resident: the word is its slot address.
    Swizzled(SwizzledPageSWIP),
}

impl PageSWIP {
    /// Classify a handle word by its tag bit.
    pub fn from_word(value: u64) -> (r: PageSWIP)
        ensures
            swip_tag(value) == 1 ==> (r matches PageSWIP::Fizzled(f) && f@ == value),
            swip_tag(value) == 0 ==> (r matches PageSWIP::Swizzled(s) && s@ == value),
    {
        if value % 2 == 1 {
            PageSWIP::Fizzled(FizzledPageSWIP::from_word(value))
        } else {
            PageSWIP::Swizzled(SwizzledPageSWIP::from_word(value))
        }
    }
}

} // verus!
