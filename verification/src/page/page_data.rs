//! An owned payload buffer with the same bounds-checked read and write
//! operations as a frame's data zone; used to stage page content apart
//! from any frame.

use vstd::prelude::*;

use crate::PageError;

verus! {

/// A free-standing payload buffer.
pub struct PageData {
    bytes: Vec<u8>,
}

impl View for PageData {
    type V = Seq<u8>;

    closed spec fn view(&self) -> Seq<u8> {
        self.bytes@
    }
}

impl PageData {
    /// A buffer over the given bytes.
    pub fn new(bytes: Vec<u8>) -> (r: PageData)
        ensures
            r@ == bytes@,
    {
        PageData { bytes }
    }

    /// Number of bytes in the buffer.
    pub fn len(&self) -> (r: usize)
        ensures
            r == self@.len(),
    {
        self.bytes.len()
    }

    /// Append the `len` bytes starting at `offset` to `dst`; refused when
    /// the range leaves the buffer.
    pub fn try_read(&self, offset: usize, len: usize, dst: &mut Vec<u8>) -> (r: Result<
        usize,
        PageError,
    >)
        ensures
            offset + len <= self@.len() ==> {
                &&& r == Ok::<usize, PageError>(len)
                &&& final(dst)@ == old(dst)@ + self@.subrange(offset as int, offset + len)
            },
            offset + len > self@.len() ==> {
                &&& r == Err::<usize, PageError>(PageError::OutOfBounds)
                &&& final(dst)@ == old(dst)@
            },
    {
        if len > self.bytes.len() || offset > self.bytes.len() - len {
            return Err(PageError::OutOfBounds);
        }
        let mut i: usize = 0;
        while i < len
            invariant
                offset + len <= self@.len() <= usize::MAX,
                i <= len,
                dst@ == old(dst)@ + self@.subrange(offset as int, offset + i),
            decreases len - i,
        {
            dst.push(self.bytes[offset + i]);
            proof {
                assert(self@.subrange(offset as int, offset + i + 1) == self@.subrange(
                    offset as int,
                    offset + i,
                ).push(self@[offset + i]));
            }
            i = i + 1;
        }
        Ok(len)
    }

    /// Copy bytes from the front of `src` into the buffer at `offset`: as
    /// many as `src` offers, at most `len`. Refused when the destination
    /// range leaves the buffer.
    pub fn try_write(&mut self, offset: usize, len: usize, src: &Vec<u8>) -> (r: Result<
        usize,
        PageError,
    >)
        ensures
            offset + len <= old(self)@.len() ==> {
                let count = if src@.len() < len {
                    src@.len() as int
                } else {
                    len as int
                };
                &&& r == Ok::<usize, PageError>(count as usize)
                &&& final(self)@.len() == old(self)@.len()
                &&& forall|i: int|
                    offset <= i < offset + count ==> final(self)@[i] == src@[i - offset]
                &&& forall|i: int|
                    0 <= i < old(self)@.len() && !(offset <= i < offset + count) ==> final(self)@[i] == old(self)@[i]
            },
            offset + len > old(self)@.len() ==> {
                &&& r == Err::<usize, PageError>(PageError::OutOfBounds)
                &&& final(self)@ == old(self)@
            },
    {
        if len > self.bytes.len() || offset > self.bytes.len() - len {
            return Err(PageError::OutOfBounds);
        }
        let count = if src.len() < len {
            src.len()
        } else {
            len
        };
        let mut i: usize = 0;
        while i < count
            invariant
                offset + len <= old(self)@.len() <= usize::MAX,
                count <= len,
                count <= src@.len(),
                i <= count,
                self@.len() == old(self)@.len(),
                forall|j: int| offset <= j < offset + i ==> self@[j] == src@[j - offset],
                forall|j: int|
                    0 <= j < old(self)@.len() && !(offset <= j < offset + i) ==> self@[j] == old(self)@[j],
            decreases count - i,
        {
            self.bytes.set(offset + i, src[i]);
            i = i + 1;
        }
        Ok(count)
    }
}

} // verus!
