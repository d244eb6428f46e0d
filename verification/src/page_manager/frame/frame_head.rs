//! The wire form of a frame header: the identity word followed by the
//! version-latch-dirty word, both little-endian, at fixed offsets in
//! front of every frame's data zone.

use vstd::prelude::*;
use vstd::bytes::{
    lemma_auto_spec_u64_to_from_le_bytes, spec_u64_from_le_bytes, spec_u64_to_le_bytes,
    u64_from_le_bytes, u64_to_le_bytes,
};
use vstd::slice::slice_subrange;

use crate::page_manager::frame::frame_swip::FrameSWIP;
use crate::page_manager::frame::frame_vlds::FrameVLDS;
use crate::{PageError, HEADER_LEN, SWIP_LEN, VLDS_LEN};

verus! {

/// A frame header in its byte form.
pub struct FrameHead {
    bytes: Vec<u8>,
}

impl View for FrameHead {
    type V = Seq<u8>;

    closed spec fn view(&self) -> Seq<u8> {
        self.bytes@
    }
}

impl FrameHead {
    /// A header over the given bytes.
    pub fn new(bytes: Vec<u8>) -> (r: FrameHead)
        ensures
            r@ == bytes@,
    {
        FrameHead { bytes }
    }

    /// The header bytes, surrendered.
    pub fn into_bytes(self) -> (r: Vec<u8>)
        ensures
            r@ == self@,
    {
        self.bytes
    }

    /// Number of header bytes.
    pub fn len(&self) -> (r: usize)
        ensures
            r == self@.len(),
    {
        self.bytes.len()
    }

    /// Decode the identity word; refused when the bytes are too short.
    pub fn try_swip(&self) -> (r: Result<FrameSWIP, PageError>)
        ensures
            self@.len() >= SWIP_LEN ==> (r matches Ok(s) && s@ == spec_u64_from_le_bytes(
                self@.subrange(0, SWIP_LEN as int),
            )),
            self@.len() < SWIP_LEN ==> r == Err::<FrameSWIP, PageError>(PageError::OutOfBounds),
    {
        if self.bytes.len() < SWIP_LEN {
            return Err(PageError::OutOfBounds);
        }
        let word = u64_from_le_bytes(slice_subrange(self.bytes.as_slice(), 0, SWIP_LEN));
        Ok(FrameSWIP::new(word))
    }

    /// Decode the version-latch-dirty word; refused when the bytes are
    /// too short.
    pub fn try_vlds(&self) -> (r: Result<FrameVLDS, PageError>)
        ensures
            self@.len() >= HEADER_LEN ==> (r matches Ok(v) && v@ == spec_u64_from_le_bytes(
                self@.subrange(SWIP_LEN as int, HEADER_LEN as int),
            )),
            self@.len() < HEADER_LEN ==> r == Err::<FrameVLDS, PageError>(PageError::OutOfBounds),
    {
        if self.bytes.len() < HEADER_LEN {
            return Err(PageError::OutOfBounds);
        }
        let word = u64_from_le_bytes(slice_subrange(self.bytes.as_slice(), SWIP_LEN, HEADER_LEN));
        Ok(FrameVLDS::new(word))
    }

    /// Overwrite one little-endian word at `offset`.
    fn write_word_at(&mut self, offset: usize, word: u64) -> (r: usize)
        requires
            offset + 8 <= old(self)@.len() <= usize::MAX,
        ensures
            r == 8,
            final(self)@.len() == old(self)@.len(),
            final(self)@.subrange(offset as int, offset + 8) == spec_u64_to_le_bytes(word),
            forall|i: int|
                0 <= i < old(self)@.len() && !(offset <= i < offset + 8) ==> final(self)@[i]
                    == old(self)@[i],
    {
        let encoded = u64_to_le_bytes(word);
        let mut i: usize = 0;
        while i < 8
            invariant
                offset + 8 <= old(self)@.len() <= usize::MAX,
                i <= 8,
                encoded@ == spec_u64_to_le_bytes(word),
                encoded@.len() == 8,
                self@.len() == old(self)@.len(),
                forall|j: int| offset <= j < offset + i ==> self@[j] == encoded@[j - offset],
                forall|j: int|
                    0 <= j < old(self)@.len() && !(offset <= j < offset + i) ==> self@[j] == old(
                        self,
                    )@[j],
            decreases 8 - i,
        {
            self.bytes.set(offset + i, encoded[i]);
            i = i + 1;
        }
        proof {
            assert(self@.subrange(offset as int, offset + 8) =~= spec_u64_to_le_bytes(word));
        }
        8
    }

    /// Encode the identity word at the front; refused when the bytes are
    /// too short.
    pub fn try_write_swip(&mut self, swip: u64) -> (r: Result<usize, PageError>)
        ensures
            old(self)@.len() >= SWIP_LEN ==> {
                &&& r == Ok::<usize, PageError>(SWIP_LEN as usize)
                &&& final(self)@.len() == old(self)@.len()
                &&& final(self)@.subrange(0, SWIP_LEN as int) == spec_u64_to_le_bytes(swip)
                &&& forall|i: int|
                    SWIP_LEN <= i < old(self)@.len() ==> final(self)@[i] == old(self)@[i]
            },
            old(self)@.len() < SWIP_LEN ==> r == Err::<usize, PageError>(PageError::OutOfBounds)
                && final(self)@ == old(self)@,
    {
        if self.bytes.len() < SWIP_LEN {
            return Err(PageError::OutOfBounds);
        }
        Ok(self.write_word_at(0, swip))
    }

    /// Encode the version-latch-dirty word in place; refused when the
    /// bytes are too short.
    pub fn try_write_vlds(&mut self, vlds: u64) -> (r: Result<usize, PageError>)
        ensures
            old(self)@.len() >= HEADER_LEN ==> {
                &&& r == Ok::<usize, PageError>(VLDS_LEN as usize)
                &&& final(self)@.len() == old(self)@.len()
                &&& final(self)@.subrange(SWIP_LEN as int, HEADER_LEN as int)
                    == spec_u64_to_le_bytes(vlds)
                &&& forall|i: int|
                    0 <= i < old(self)@.len() && !(SWIP_LEN <= i < HEADER_LEN) ==> final(self)@[i] == old(self)@[i]
            },
            old(self)@.len() < HEADER_LEN ==> r == Err::<usize, PageError>(PageError::OutOfBounds)
                && final(self)@ == old(self)@,
    {
        if self.bytes.len() < HEADER_LEN {
            return Err(PageError::OutOfBounds);
        }
        Ok(self.write_word_at(SWIP_LEN, vlds))
    }

    /// Encode both header words; refused when the bytes are too short.
    pub fn try_write_all(&mut self, swip: u64, vlds: u64) -> (r: Result<usize, PageError>)
        ensures
            old(self)@.len() >= HEADER_LEN ==> {
                &&& r == Ok::<usize, PageError>(HEADER_LEN as usize)
                &&& final(self)@.len() == old(self)@.len()
                &&& final(self)@.subrange(0, SWIP_LEN as int) == spec_u64_to_le_bytes(swip)
                &&& final(self)@.subrange(SWIP_LEN as int, HEADER_LEN as int)
                    == spec_u64_to_le_bytes(vlds)
                &&& forall|i: int|
                    HEADER_LEN <= i < old(self)@.len() ==> final(self)@[i] == old(self)@[i]
            },
            old(self)@.len() < HEADER_LEN ==> r == Err::<usize, PageError>(PageError::OutOfBounds)
                && final(self)@ == old(self)@,
    {
        if self.bytes.len() < HEADER_LEN {
            return Err(PageError::OutOfBounds);
        }
        let a = self.write_word_at(0, swip);
        let b = self.write_word_at(SWIP_LEN, vlds);
        Ok(a + b)
    }
}

/// Law: the header wire codec round-trips. A header written with an
/// identity word and a version-latch-dirty word decodes to exactly those
/// words.
pub proof fn lemma_header_roundtrip(head: Seq<u8>, swip: u64, vlds: u64)
    requires
        head.len() >= HEADER_LEN,
        head.subrange(0, SWIP_LEN as int) == spec_u64_to_le_bytes(swip),
        head.subrange(SWIP_LEN as int, HEADER_LEN as int) == spec_u64_to_le_bytes(vlds),
    ensures
        spec_u64_from_le_bytes(head.subrange(0, SWIP_LEN as int)) == swip,
        spec_u64_from_le_bytes(head.subrange(SWIP_LEN as int, HEADER_LEN as int)) == vlds,
{
    lemma_auto_spec_u64_to_from_le_bytes();
}

} // verus!
