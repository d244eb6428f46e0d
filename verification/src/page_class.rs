//! Size-class arithmetic: a class identifier `cid` in
//! [`MIN_CLASS_ID`, `MAX_CLASS_ID`] names pages of `2^cid` bytes, and
//! [`cid_to_fit`] computes the smallest class whose pages hold a given
//! payload next to the fixed frame header.

use vstd::prelude::*;
use vstd::arithmetic::power2::{
    pow2, lemma_pow2_strictly_increases, lemma_pow2_unfold, lemma2_to64, lemma2_to64_rest,
};

use crate::{HEADER_LEN, MAX_CLASS_ID, MIN_CLASS_ID, PageError};

verus! {

/// Byte size of pages of class `cid`: exactly `2^cid`.
pub fn size_of(cid: usize) -> (size: usize)
    requires
        cid <= MAX_CLASS_ID,
    ensures
        size == pow2(cid as nat),
{
    let mut size: usize = 1;
    let mut i: usize = 0;
    proof {
        lemma2_to64();
    }
    while i < cid
        invariant
            i <= cid <= MAX_CLASS_ID,
            size == pow2(i as nat),
        decreases cid - i,
    {
        proof {
            lemma_pow2_unfold((i + 1) as nat);
            if i + 1 < MAX_CLASS_ID + 1 {
                lemma_pow2_strictly_increases((i + 1) as nat, (MAX_CLASS_ID + 1) as nat);
            }
            lemma2_to64();
        }
        size = size * 2;
        i = i + 1;
    }
    size
}

/// Index of class `cid` in a per-class pool array that starts at the
/// minimum class.
pub fn index_of(cid: usize) -> (idx: usize)
    requires
        MIN_CLASS_ID <= cid,
    ensures
        idx == cid - MIN_CLASS_ID,
{
    cid - MIN_CLASS_ID
}

/// The smallest exponent `e` with `2^e >= n`.
pub open spec fn spec_exp_to_fit(n: nat) -> nat
    decreases n,
{
    if n <= 1 {
        0
    } else {
        spec_exp_to_fit((n + 1) / 2) + 1
    }
}

/// `spec_exp_to_fit(n)` brackets `n` between two adjacent powers of two.
proof fn lemma_exp_to_fit_bounds(n: nat)
    ensures
        pow2(spec_exp_to_fit(n)) >= n,
        spec_exp_to_fit(n) > 0 ==> pow2((spec_exp_to_fit(n) - 1) as nat) < n,
    decreases n,
{
    if n <= 1 {
        lemma2_to64();
    } else {
        let m = (n + 1) / 2;
        lemma_exp_to_fit_bounds(m);
        let f = spec_exp_to_fit(m);
        lemma_pow2_unfold(f + 1);
        if f > 0 {
            lemma_pow2_unfold(f);
        } else {
            lemma2_to64();
        }
    }
}

/// Any exponent that brackets `n` the same way is `spec_exp_to_fit(n)`.
proof fn lemma_exp_to_fit_unique(n: nat, e: nat)
    requires
        n >= 1,
        pow2(e) >= n,
        e > 0 ==> pow2((e - 1) as nat) < n,
    ensures
        e == spec_exp_to_fit(n),
{
    lemma_exp_to_fit_bounds(n);
    let f = spec_exp_to_fit(n);
    if e < f {
        // pow2(e) <= pow2(f - 1) < n contradicts pow2(e) >= n.
        if e < f - 1 {
            lemma_pow2_strictly_increases(e, (f - 1) as nat);
        }
    } else if f < e {
        // pow2(f) <= pow2(e - 1) < n contradicts pow2(f) >= n.
        if f < e - 1 {
            lemma_pow2_strictly_increases(f, (e - 1) as nat);
        }
    }
}

/// Smallest exponent `e` with `2^e >= total`, found by doubling; `total`
/// counts the payload plus the frame header.
fn exp_to_fit(total: u64) -> (e: usize)
    requires
        1 <= total <= 0x8000_0000_0000_0000,
    ensures
        e == spec_exp_to_fit(total as nat),
        pow2(e as nat) >= total,
        e > 0 ==> pow2((e - 1) as nat) < total,
        e <= 63,
{
    let mut e: usize = 0;
    let mut size: u64 = 1;
    proof {
        lemma2_to64();
    }
    while size < total
        invariant
            1 <= total <= 0x8000_0000_0000_0000,
            e <= 63,
            size == pow2(e as nat),
            e > 0 ==> pow2((e - 1) as nat) < total,
        decreases 64 - e,
    {
        proof {
            if e == 63 {
                lemma2_to64_rest();
            }
            lemma_pow2_unfold((e + 1) as nat);
        }
        size = size * 2;
        e = e + 1;
    }
    proof {
        lemma_exp_to_fit_unique(total as nat, e as nat);
    }
    e
}

/// The class that `cid_to_fit` owes for a payload of `n` bytes, if any:
/// the smallest class in range whose pages hold `n` payload bytes plus
/// the header, clamped up to the minimum class.
pub open spec fn spec_cid_to_fit(n: nat) -> Option<usize> {
    let e = spec_exp_to_fit((n + HEADER_LEN) as nat);
    if e <= MIN_CLASS_ID {
        Some(MIN_CLASS_ID as usize)
    } else if e <= MAX_CLASS_ID {
        Some(e as usize)
    } else {
        None
    }
}

/// Smallest size class whose pages hold a payload of `data_len_in_bytes`
/// bytes next to the frame header, clamped up to the minimum class; fails
/// when even the largest class is too small.
pub fn cid_to_fit(data_len_in_bytes: u32) -> (r: Result<usize, PageError>)
    ensures
        r matches Ok(cid) ==> {
            &&& spec_cid_to_fit(data_len_in_bytes as nat) == Some(cid)
            &&& MIN_CLASS_ID <= cid <= MAX_CLASS_ID
            &&& pow2(cid as nat) >= data_len_in_bytes + HEADER_LEN
        },
        r is Err ==> r == Result::<usize, PageError>::Err(PageError::ClassOutOfRange),
        r is Err <==> data_len_in_bytes + HEADER_LEN > pow2(MAX_CLASS_ID as nat),
        r is Err <==> spec_cid_to_fit(data_len_in_bytes as nat) is None,
{
    proof {
        lemma_fit_in_range(data_len_in_bytes as nat);
    }
    let raw_cid = exp_to_fit(data_len_in_bytes as u64 + HEADER_LEN as u64);

    if raw_cid <= MIN_CLASS_ID {
        Ok(MIN_CLASS_ID)
    } else if raw_cid <= MAX_CLASS_ID {
        Ok(raw_cid)
    } else {
        Err(PageError::ClassOutOfRange)
    }
}

/// A class is owed exactly when the payload and header fit in the
/// largest class.
proof fn lemma_fit_in_range(n: nat)
    ensures
        spec_cid_to_fit(n) is Some <==> n + HEADER_LEN <= pow2(MAX_CLASS_ID as nat),
        spec_cid_to_fit(n) matches Some(cid) ==> pow2(cid as nat) >= n + HEADER_LEN,
{
    lemma_exp_to_fit_bounds((n + HEADER_LEN) as nat);
    let e = spec_exp_to_fit((n + HEADER_LEN) as nat);
    lemma2_to64();
    if e <= MAX_CLASS_ID {
        if e < MIN_CLASS_ID {
            lemma_pow2_strictly_increases(e, MIN_CLASS_ID as nat);
        }
        if e < MAX_CLASS_ID {
            lemma_pow2_strictly_increases(e, MAX_CLASS_ID as nat);
        }
    } else {
        // e > MAX_CLASS_ID: the next-smaller power already exceeds the
        // largest class, so the request cannot fit.
        if MAX_CLASS_ID < e - 1 {
            lemma_pow2_strictly_increases(MAX_CLASS_ID as nat, (e - 1) as nat);
        }
    }
}

/// The class picked for a payload of `n` bytes is the unique minimal
/// class in range whose page size covers the payload and the header.
pub proof fn lemma_fit_minimal(n: nat, cid: usize)
    requires
        spec_cid_to_fit(n) == Some(cid),
    ensures
        MIN_CLASS_ID <= cid <= MAX_CLASS_ID,
        pow2(cid as nat) >= n + HEADER_LEN,
        forall|c: usize|
            MIN_CLASS_ID <= c <= MAX_CLASS_ID && pow2(c as nat) >= n + HEADER_LEN ==> cid <= c,
{
    lemma_fit_in_range(n);
    lemma_exp_to_fit_bounds((n + HEADER_LEN) as nat);
    let e = spec_exp_to_fit((n + HEADER_LEN) as nat);
    assert forall|c: usize|
        MIN_CLASS_ID <= c <= MAX_CLASS_ID && pow2(c as nat) >= n + HEADER_LEN implies cid
        <= c by {
        if c < cid {
            // Only reachable when the fit was not clamped, so cid == e,
            // and pow2(c) <= pow2(e - 1) < n + HEADER_LEN: contradiction.
            if c < e - 1 {
                lemma_pow2_strictly_increases(c as nat, (e - 1) as nat);
            }
        }
    }
}

} // verus!
