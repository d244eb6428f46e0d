//! The swizzlable identity ("SWIP") word of a frame header. One 64-bit
//! word holds, from least to most significant: a 1-bit tag (1 = fizzled,
//! 0 = swizzled), a 6-bit size-class identifier, and a 57-bit page
//! identifier. A swizzled handle instead stores a slot address, whose
//! alignment keeps the tag bit naturally clear.

use vstd::prelude::*;
use vstd::arithmetic::div_mod::{
    lemma_div_denominator, lemma_div_is_ordered, lemma_fundamental_div_mod,
    lemma_fundamental_div_mod_converse, lemma_mod_division_less_than_divisor,
};

verus! {

/// Largest value the 6-bit size-class field can hold.
pub const CID_FIELD_MAX: u64 = 0x3F;

/// Largest value the 57-bit page-identifier field can hold.
pub const PID_FIELD_MAX: u64 = 0x1FF_FFFF_FFFF_FFFF;

/// The tag bit of a packed word: 1 for fizzled, 0 for swizzled.
pub open spec fn swip_tag(w: u64) -> u64 {
    w % 2
}

/// The size-class identifier of a packed fizzled word.
pub open spec fn swip_cid(w: u64) -> u64 {
    (w / 2) % 0x40
}

/// The page identifier of a packed fizzled word.
pub open spec fn swip_pid(w: u64) -> u64 {
    w / 0x80
}

/// The fizzled word carrying the given page identifier and size class.
pub open spec fn swip_pack(pid: u64, cid: u64) -> u64
    recommends
        pid <= PID_FIELD_MAX,
        cid <= CID_FIELD_MAX,
{
    (pid * 0x80 + cid * 2 + 1) as u64
}

/// Every word decomposes uniquely into tag, class and page identifier.
pub proof fn lemma_swip_parts(w: u64)
    ensures
        swip_pid(w) <= PID_FIELD_MAX,
        swip_cid(w) <= CID_FIELD_MAX,
        swip_tag(w) < 2,
        w == swip_pid(w) * 0x80 + swip_cid(w) * 2 + swip_tag(w),
{
    lemma_div_is_ordered(w as int, u64::MAX as int, 0x80);
    lemma_mod_division_less_than_divisor((w / 2) as int, 0x40);
    lemma_mod_division_less_than_divisor(w as int, 2);
    lemma_fundamental_div_mod(w as int, 2);
    lemma_fundamental_div_mod((w / 2) as int, 0x40);
    lemma_div_denominator(w as int, 2, 0x40);
    assert(w == ((w / 2) / 0x40) * 0x40 * 2 + swip_cid(w) * 2 + swip_tag(w))
        by (nonlinear_arith)
        requires
            w / 2 == ((w / 2) / 0x40) * 0x40 + swip_cid(w),
            w == (w / 2) * 2 + swip_tag(w),
    ;
}

/// Packing an in-range page identifier and class yields a fizzled word
/// that decomposes back into exactly those fields.
pub proof fn lemma_swip_pack_parts(pid: u64, cid: u64)
    requires
        pid <= PID_FIELD_MAX,
        cid <= CID_FIELD_MAX,
    ensures
        pid * 0x80 + cid * 2 + 1 <= u64::MAX,
        swip_tag(swip_pack(pid, cid)) == 1,
        swip_cid(swip_pack(pid, cid)) == cid,
        swip_pid(swip_pack(pid, cid)) == pid,
{
    let w = pid * 0x80 + cid * 2 + 1;
    lemma_fundamental_div_mod_converse(w, 0x80, pid as int, (cid * 2 + 1) as int);
    assert(w == (pid * 0x40 + cid) * 2 + 1) by (nonlinear_arith)
        requires
            w == pid * 0x80 + cid * 2 + 1,
    ;
    lemma_fundamental_div_mod_converse(w, 2, (pid * 0x40 + cid) as int, 1);
    lemma_fundamental_div_mod_converse((pid * 0x40 + cid) as int, 0x40, pid as int, cid as int);
}

/// The packed identity word of a frame header.
pub struct FrameSWIP {
    word: u64,
}

impl View for FrameSWIP {
    type V = u64;

    closed spec fn view(&self) -> u64 {
        self.word
    }
}

impl FrameSWIP {
    /// An identity word holding the given packed value.
    pub fn new(word: u64) -> (r: FrameSWIP)
        ensures
            r@ == word,
    {
        FrameSWIP { word }
    }

    /// The current packed word.
    pub fn value(&self) -> (r: u64)
        ensures
            r == self@,
    {
        self.word
    }

    /// The tag bit of a packed word.
    pub fn tag(value: u64) -> (r: u64)
        ensures
            r == swip_tag(value),
    {
        value % 2
    }

    /// The size-class identifier of a packed word.
    pub fn cid(value: u64) -> (r: u64)
        ensures
            r == swip_cid(value),
    {
        (value / 2) % 0x40
    }

    /// The page identifier of a packed word.
    pub fn pid(value: u64) -> (r: u64)
        ensures
            r == swip_pid(value),
    {
        value / 0x80
    }

    /// The fizzled word for a page identifier and its size class.
    pub fn pack(pid: u64, cid: u64) -> (r: u64)
        requires
            pid <= PID_FIELD_MAX,
            cid <= CID_FIELD_MAX,
        ensures
            r == swip_pack(pid, cid),
            swip_tag(r) == 1,
            swip_cid(r) == cid,
            swip_pid(r) == pid,
    {
        proof {
            lemma_swip_pack_parts(pid, cid);
        }
        pid * 0x80 + cid * 2 + 1
    }
}

} // verus!
