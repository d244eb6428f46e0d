//! The latch-and-version reading of a version-latch-dirty word, with the
//! bare compare-and-swap primitive that every latch transition is built
//! from: exchange the whole word only if it still holds the value the
//! caller observed.

use vstd::prelude::*;

use crate::latch_word::{
    latch_is_exclusive, latch_is_open, latch_is_shared, lemma_word_pack_parts, lemma_word_parts,
    word_dirty, word_latch, word_version, LATCH_FIELD_MAX, VERSION_FIELD_MAX,
};

verus! {

/// One latch word, exposed through its state and version fields.
pub struct PageLatch {
    word: u64,
}

impl View for PageLatch {
    type V = u64;

    closed spec fn view(&self) -> u64 {
        self.word
    }
}

impl PageLatch {
    /// A latch over the given packed word.
    pub fn new(word: u64) -> (r: PageLatch)
        ensures
            r@ == word,
    {
        PageLatch { word }
    }

    /// The current packed word.
    pub fn value(&self) -> (r: u64)
        ensures
            r == self@,
    {
        self.word
    }

    /// The latch state of a packed word.
    pub fn state(value: u64) -> (r: u64)
        ensures
            r == word_latch(value),
    {
        (value / 2) % 0x8000
    }

    /// The version counter of a packed word.
    pub fn version(value: u64) -> (r: u64)
        ensures
            r == word_version(value),
    {
        value / 0x10000
    }

    /// The word with its latch state replaced and version and dirty flag
    /// kept.
    pub fn with_state(value: u64, state: u64) -> (r: u64)
        requires
            state <= LATCH_FIELD_MAX,
        ensures
            word_latch(r) == state,
            word_version(r) == word_version(value),
            word_dirty(r) == word_dirty(value),
    {
        proof {
            lemma_word_parts(value);
            lemma_word_pack_parts(word_version(value), state, word_dirty(value));
        }
        (value / 0x10000) * 0x10000 + state * 2 + value % 2
    }

    /// The word with its version replaced and latch state and dirty flag
    /// kept.
    pub fn with_version(value: u64, version: u64) -> (r: u64)
        requires
            version <= VERSION_FIELD_MAX,
        ensures
            word_version(r) == version,
            word_latch(r) == word_latch(value),
            word_dirty(r) == word_dirty(value),
    {
        proof {
            lemma_word_parts(value);
            lemma_word_pack_parts(version, word_latch(value), word_dirty(value));
            vstd::arithmetic::div_mod::lemma_fundamental_div_mod(value as int, 0x10000);
        }
        version * 0x10000 + (value % 0x10000)
    }

    /// No holder: the latch can be taken.
    pub fn is_open(state: u64) -> (r: bool)
        ensures
            r == latch_is_open(state),
    {
        state == 0
    }

    /// More than one unit: `state - 1` shared readers hold the latch.
    pub fn is_shared(state: u64) -> (r: bool)
        ensures
            r == latch_is_shared(state),
    {
        state > 1
    }

    /// Exactly one unit: a single writer holds the latch.
    pub fn is_exclusive(state: u64) -> (r: bool)
        ensures
            r == latch_is_exclusive(state),
    {
        state == 1
    }

    /// Compare-and-swap the latch state: if the word still equals the
    /// `value` the caller read, replace its state field; otherwise leave
    /// the word alone and report what it holds now.
    pub fn set_state(&mut self, value: u64, state: u8) -> (r: Result<u64, u64>)
        ensures
            old(self)@ == value ==> {
                &&& r == Ok::<u64, u64>(value)
                &&& word_latch(final(self)@) == state as u64
                &&& word_version(final(self)@) == word_version(value)
                &&& word_dirty(final(self)@) == word_dirty(value)
            },
            old(self)@ != value ==> r == Err::<u64, u64>(old(self)@) && final(self)@ == old(
                self,
            )@,
    {
        if self.word == value {
            self.word = Self::with_state(value, state as u64);
            Ok(value)
        } else {
            Err(self.word)
        }
    }
}

} // verus!
