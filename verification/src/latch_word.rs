//! The packed version-latch-dirty ("VLDS") word. One 64-bit word holds,
//! from least to most significant: a 1-bit dirty flag, a 15-bit latch
//! state (0 = open, 1 = exclusive, n > 1 = n - 1 shared readers), and a
//! 48-bit version counter. Packing one word keeps a whole latch readable
//! in a single atomic load, which optimistic readers use as their epoch.

use vstd::prelude::*;
use vstd::arithmetic::div_mod::{
    lemma_div_denominator, lemma_div_is_ordered, lemma_fundamental_div_mod,
    lemma_fundamental_div_mod_converse, lemma_mod_division_less_than_divisor,
};

verus! {

/// Largest value the 15-bit latch field can hold.
pub const LATCH_FIELD_MAX: u64 = 0x7FFF;

/// Largest value the 48-bit version field can hold.
pub const VERSION_FIELD_MAX: u64 = 0xFFFF_FFFF_FFFF;

/// The dirty flag of a packed word.
pub open spec fn word_dirty(w: u64) -> u64 {
    w % 2
}

/// The latch state of a packed word.
pub open spec fn word_latch(w: u64) -> u64 {
    (w / 2) % 0x8000
}

/// The version counter of a packed word.
pub open spec fn word_version(w: u64) -> u64 {
    w / 0x10000
}

/// The word with the given version, latch state and dirty flag.
pub open spec fn word_pack(version: u64, latch: u64, dirty: u64) -> u64
    recommends
        version <= VERSION_FIELD_MAX,
        latch <= LATCH_FIELD_MAX,
        dirty < 2,
{
    (version * 0x10000 + latch * 2 + dirty) as u64
}

/// No latch holder: the word is free to take.
pub open spec fn latch_is_open(latch: u64) -> bool {
    latch == 0
}

/// A single writer holds the latch.
pub open spec fn latch_is_exclusive(latch: u64) -> bool {
    latch == 1
}

/// `latch - 1` readers hold the latch.
pub open spec fn latch_is_shared(latch: u64) -> bool {
    latch > 1
}

/// An optimistic read that started at version `version` is still valid
/// against the current word `w`: the version is unchanged and no writer
/// holds the latch at the moment of validation.
pub open spec fn spec_validate(w: u64, version: u64) -> bool {
    word_version(w) == version && !latch_is_exclusive(word_latch(w))
}

/// Every word decomposes uniquely into its three fields.
pub proof fn lemma_word_parts(w: u64)
    ensures
        word_version(w) <= VERSION_FIELD_MAX,
        word_latch(w) <= LATCH_FIELD_MAX,
        word_dirty(w) < 2,
        w == word_version(w) * 0x10000 + word_latch(w) * 2 + word_dirty(w),
{
    lemma_div_is_ordered(w as int, u64::MAX as int, 0x10000);
    lemma_mod_division_less_than_divisor((w / 2) as int, 0x8000);
    lemma_mod_division_less_than_divisor(w as int, 2);
    lemma_fundamental_div_mod(w as int, 2);
    lemma_fundamental_div_mod((w / 2) as int, 0x8000);
    lemma_div_denominator(w as int, 2, 0x8000);
    assert(w == ((w / 2) / 0x8000) * 0x8000 * 2 + word_latch(w) * 2 + word_dirty(w))
        by (nonlinear_arith)
        requires
            w / 2 == ((w / 2) / 0x8000) * 0x8000 + word_latch(w),
            w == (w / 2) * 2 + word_dirty(w),
    ;
}

/// Packing three in-range fields yields a word that decomposes back into
/// exactly those fields.
pub proof fn lemma_word_pack_parts(version: u64, latch: u64, dirty: u64)
    requires
        version <= VERSION_FIELD_MAX,
        latch <= LATCH_FIELD_MAX,
        dirty < 2,
    ensures
        version * 0x10000 + latch * 2 + dirty <= u64::MAX,
        word_version(word_pack(version, latch, dirty)) == version,
        word_latch(word_pack(version, latch, dirty)) == latch,
        word_dirty(word_pack(version, latch, dirty)) == dirty,
{
    let w = version * 0x10000 + latch * 2 + dirty;
    assert(w <= u64::MAX);
    lemma_fundamental_div_mod_converse(w, 0x10000, version as int, (latch * 2 + dirty) as int);
    assert(w == (version * 0x8000 + latch) * 2 + dirty) by (nonlinear_arith)
        requires
            w == version * 0x10000 + latch * 2 + dirty,
    ;
    lemma_fundamental_div_mod_converse(w, 2, (version * 0x8000 + latch) as int, dirty as int);
    lemma_fundamental_div_mod_converse(
        (version * 0x8000 + latch) as int,
        0x8000,
        version as int,
        latch as int,
    );
}

/// Law: competing exclusive acquisitions exclude one another. From an
/// open word the acquisition transition yields an exclusive word; on a
/// word that is already exclusive the transition is refused, so until the
/// holder releases, every competitor keeps observing Exclusive; and a
/// release strictly increases the version.
pub proof fn lemma_exclusive_mutual_exclusion(w0: u64, w1: u64, w2: u64)
    requires
        latch_is_open(word_latch(w0)),
        // w1: w0 with the exclusive latch taken
        word_latch(w1) == 1,
        word_version(w1) == word_version(w0),
        // w2: w1 released: latch reopened, version bumped
        word_latch(w2) == 0,
        word_version(w2) == word_version(w1) + 1,
    ensures
        latch_is_exclusive(word_latch(w1)),
        !latch_is_open(word_latch(w1)),
        word_version(w2) > word_version(w0),
{
}

/// Law: a full exclusive write-release cycle invalidates every optimistic
/// snapshot taken before it: the released word carries a strictly larger
/// version, so validation against the old version fails.
pub proof fn lemma_write_cycle_invalidates_snapshot(w0: u64, w1: u64, w2: u64)
    requires
        // w1: w0 with the exclusive latch taken
        word_latch(w1) == 1,
        word_version(w1) == word_version(w0),
        // w2: w1 released: latch reopened, version bumped
        word_latch(w2) == 0,
        word_version(w2) == word_version(w1) + 1,
    ensures
        !spec_validate(w1, word_version(w0)),
        !spec_validate(w2, word_version(w0)),
{
}

} // verus!
