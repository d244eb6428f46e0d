//! A frame: the typed view over one slot, a fixed header (identity word
//! and version-latch-dirty word) in front of a data zone that fills the
//! rest of the slot's `2^cid` bytes.

pub mod frame_data;
pub mod frame_head;
pub mod frame_swip;
pub mod frame_vlds;

use vstd::prelude::*;
use vstd::arithmetic::power2::{lemma2_to64, lemma_pow2_strictly_increases, pow2};
use vstd::bytes::spec_u64_to_le_bytes;

use crate::page_class;
use crate::page_manager::frame::frame_data::FrameData;
use crate::page_manager::frame::frame_head::FrameHead;
use crate::page_manager::frame::frame_swip::{swip_cid, swip_pid, swip_tag, FrameSWIP, PID_FIELD_MAX};
use crate::page_manager::frame::frame_vlds::FrameVLDS;
use crate::{PageError, HEADER_LEN, MAX_CLASS_ID, MIN_CLASS_ID, SWIP_LEN};

verus! {

/// The fields of a frame as specifications see them.
pub struct FrameView {
    /// The packed identity word.
    pub swip: u64,
    /// The packed version-latch-dirty word.
    pub vlds: u64,
    /// The bytes of the data zone.
    pub data: Seq<u8>,
}

/// One slot's typed contents: header words and data zone.
pub struct Frame {
    /// The identity word.
    pub swip: FrameSWIP,
    /// The version-latch-dirty word.
    pub vlds: FrameVLDS,
    /// The data zone.
    pub data: FrameData,
}

impl View for Frame {
    type V = FrameView;

    open spec fn view(&self) -> FrameView {
        FrameView { swip: self.swip@, vlds: self.vlds@, data: self.data@ }
    }
}

/// A frame is well formed when its identity word carries the fizzled
/// tag and a class in range, and its data zone fills the class size past
/// the header.
pub open spec fn frame_view_wf(v: FrameView) -> bool {
    &&& swip_tag(v.swip) == 1
    &&& MIN_CLASS_ID <= swip_cid(v.swip) <= MAX_CLASS_ID
    &&& v.data.len() + HEADER_LEN == pow2(swip_cid(v.swip) as nat)
}

impl Frame {
    /// A frame is well formed when its fields are.
    pub open spec fn wf(&self) -> bool {
        frame_view_wf(self@)
    }

    /// The size class this frame was activated for.
    pub open spec fn spec_cid(&self) -> u64 {
        swip_cid(self@.swip)
    }

    /// The page identifier this frame was activated for.
    pub open spec fn spec_pid(&self) -> u64 {
        swip_pid(self@.swip)
    }

    /// Bring a fresh slot to life for page `pid` of class `cid`: identity
    /// word in its fizzled form, version 0, latch open, dirty set, and a
    /// zeroed data zone of the class size less the header. Refused when
    /// the class lies outside the valid range.
    pub fn try_activate(pid: u64, cid: usize) -> (r: Result<Frame, PageError>)
        requires
            pid <= PID_FIELD_MAX,
        ensures
            MIN_CLASS_ID <= cid <= MAX_CLASS_ID ==> (r matches Ok(f) && {
                &&& f.wf()
                &&& f.spec_pid() == pid
                &&& f.spec_cid() == cid
                &&& f@.vlds == 1
                &&& f@.data.len() + HEADER_LEN == pow2(cid as nat)
                &&& forall|i: int| 0 <= i < f@.data.len() ==> f@.data[i] == 0u8
            }),
            !(MIN_CLASS_ID <= cid <= MAX_CLASS_ID) ==> r == Err::<Frame, PageError>(
                PageError::ClassOutOfRange,
            ),
    {
        if cid < MIN_CLASS_ID || cid > MAX_CLASS_ID {
            return Err(PageError::ClassOutOfRange);
        }
        let size = page_class::size_of(cid);
        proof {
            lemma2_to64();
            if cid > MIN_CLASS_ID {
                lemma_pow2_strictly_increases(MIN_CLASS_ID as nat, cid as nat);
            }
        }
        let swip = FrameSWIP::new(FrameSWIP::pack(pid, cid as u64));
        let vlds = FrameVLDS::new(FrameVLDS::default_value());
        let data = FrameData::new_zeroed(size - HEADER_LEN);
        Ok(Frame { swip, vlds, data })
    }

    /// Total length of the frame in bytes: exactly the class size.
    pub fn len(&self) -> (r: usize)
        requires
            self.wf(),
        ensures
            r == pow2(self.spec_cid() as nat),
    {
        proof {
            lemma2_to64();
            if self.spec_cid() < MAX_CLASS_ID {
                lemma_pow2_strictly_increases(self.spec_cid() as nat, MAX_CLASS_ID as nat);
            }
        }
        HEADER_LEN + self.data.len()
    }

    /// The header in its wire form: both words little-endian, the
    /// identity word first.
    pub fn try_head(&self) -> (r: FrameHead)
        ensures
            r@.len() == HEADER_LEN,
            r@.subrange(0, SWIP_LEN as int) == spec_u64_to_le_bytes(self@.swip),
            r@.subrange(SWIP_LEN as int, HEADER_LEN as int) == spec_u64_to_le_bytes(self@.vlds),
    {
        let mut bytes = vstd::bytes::u64_to_le_bytes(self.swip.value());
        let mut tail = vstd::bytes::u64_to_le_bytes(self.vlds.value());
        bytes.append(&mut tail);
        proof {
            assert(bytes@.subrange(0, SWIP_LEN as int) =~= spec_u64_to_le_bytes(self@.swip));
            assert(bytes@.subrange(SWIP_LEN as int, HEADER_LEN as int) =~= spec_u64_to_le_bytes(
                self@.vlds,
            ));
        }
        FrameHead::new(bytes)
    }

    /// Read access to the data zone.
    pub fn try_data(&self) -> (r: &FrameData)
        ensures
            r@ == self@.data,
    {
        &self.data
    }
}

} // verus!
