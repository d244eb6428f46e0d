//! The page-level view of a version-latch-dirty word: the same packed
//! layout and the same compare-and-swap style transitions as the frame
//! header word, owned directly by code that manages a latch word apart
//! from any frame. Each transition returns the prior word on success and
//! the conflicting current word on refusal.

use vstd::prelude::*;

use crate::latch_word::{
    latch_is_exclusive, latch_is_open, latch_is_shared, lemma_word_pack_parts, lemma_word_parts,
    spec_validate, word_dirty, word_latch, word_version, LATCH_FIELD_MAX, VERSION_FIELD_MAX,
};

verus! {

/// One page's packed version-latch-dirty word.
pub struct PageVLDS {
    word: u64,
}

impl View for PageVLDS {
    type V = u64;

    closed spec fn view(&self) -> u64 {
        self.word
    }
}

impl PageVLDS {
    /// A latch word holding the given packed value.
    pub fn new(word: u64) -> (r: PageVLDS)
        ensures
            r@ == word,
    {
        PageVLDS { word }
    }

    /// The word a freshly allocated frame starts from: version 0, latch
    /// open, dirty set (a new page has never been persisted).
    pub fn default_value() -> (r: u64)
        ensures
            r == 1,
            word_version(r) == 0,
            latch_is_open(word_latch(r)),
            word_dirty(r) == 1,
    {
        1
    }

    /// The dirty flag of a packed word.
    pub fn dirty(value: u64) -> (r: u64)
        ensures
            r == word_dirty(value),
    {
        value % 2
    }

    /// The latch state of a packed word.
    pub fn latch(value: u64) -> (r: u64)
        ensures
            r == word_latch(value),
    {
        (value / 2) % 0x8000
    }

    /// The version counter of a packed word.
    pub fn version(value: u64) -> (r: u64)
        ensures
            r == word_version(value),
    {
        value / 0x10000
    }

    /// No holder: the latch can be taken.
    pub fn is_open(latch: u64) -> (r: bool)
        ensures
            r == latch_is_open(latch),
    {
        latch == 0
    }

    /// More than one unit: `latch - 1` shared readers hold the latch.
    pub fn is_shared(latch: u64) -> (r: bool)
        ensures
            r == latch_is_shared(latch),
    {
        latch > 1
    }

    /// Exactly one unit: a single writer holds the latch.
    pub fn is_exclusive(latch: u64) -> (r: bool)
        ensures
            r == latch_is_exclusive(latch),
    {
        latch == 1
    }

    /// The current packed word.
    pub fn value(&self) -> (r: u64)
        ensures
            r == self@,
    {
        self.word
    }

    /// Begin an optimistic read: record the version the word holds now.
    pub fn snapshot(&self) -> (r: u64)
        ensures
            r == word_version(self@),
    {
        self.word / 0x10000
    }

    /// Whether an optimistic read started at `version` is still valid:
    /// the version is unchanged and no writer holds the latch at this
    /// moment.
    pub fn validate(&self, version: u64) -> (r: bool)
        ensures
            r == spec_validate(self@, version),
    {
        let value = self.word;
        PageVLDS::version(value) == version && !PageVLDS::is_exclusive(PageVLDS::latch(value))
    }

    /// The word with its latch field replaced and all else kept.
    fn with_latch(value: u64, latch: u64) -> (r: u64)
        requires
            latch <= LATCH_FIELD_MAX,
        ensures
            word_version(r) == word_version(value),
            word_latch(r) == latch,
            word_dirty(r) == word_dirty(value),
    {
        proof {
            lemma_word_parts(value);
            lemma_word_pack_parts(word_version(value), latch, word_dirty(value));
        }
        (value / 0x10000) * 0x10000 + latch * 2 + value % 2
    }

    /// The word with its dirty flag replaced and all else kept.
    fn with_dirty(value: u64, dirty: u64) -> (r: u64)
        requires
            dirty < 2,
        ensures
            word_version(r) == word_version(value),
            word_latch(r) == word_latch(value),
            word_dirty(r) == dirty,
    {
        proof {
            lemma_word_parts(value);
            lemma_word_pack_parts(word_version(value), word_latch(value), dirty);
        }
        (value / 0x10000) * 0x10000 + ((value / 2) % 0x8000) * 2 + dirty
    }

    /// The word with its version replaced and all else kept.
    fn with_version(value: u64, version: u64) -> (r: u64)
        requires
            version <= VERSION_FIELD_MAX,
        ensures
            word_version(r) == version,
            word_latch(r) == word_latch(value),
            word_dirty(r) == word_dirty(value),
    {
        proof {
            lemma_word_parts(value);
            lemma_word_pack_parts(version, word_latch(value), word_dirty(value));
            vstd::arithmetic::div_mod::lemma_fundamental_div_mod(value as int, 0x10000);
        }
        version * 0x10000 + (value % 0x10000)
    }

    /// Clear the dirty flag, as the collaborator does once it has
    /// persisted the page.
    pub fn mark_clean(&mut self) -> (r: Result<u64, u64>)
        ensures
            r == Ok::<u64, u64>(old(self)@),
            word_dirty(final(self)@) == 0,
            word_latch(final(self)@) == word_latch(old(self)@),
            word_version(final(self)@) == word_version(old(self)@),
    {
        let value = self.word;
        self.word = Self::with_dirty(value, 0);
        Ok(value)
    }

    /// Set the dirty flag, recording an unpersisted write.
    pub fn mark_dirty(&mut self) -> (r: Result<u64, u64>)
        ensures
            r == Ok::<u64, u64>(old(self)@),
            word_dirty(final(self)@) == 1,
            word_latch(final(self)@) == word_latch(old(self)@),
            word_version(final(self)@) == word_version(old(self)@),
    {
        let value = self.word;
        self.word = Self::with_dirty(value, 1);
        Ok(value)
    }

    /// Take the latch for a shared reader: open becomes one reader, `n`
    /// readers become `n + 1`. Refused while a writer holds the latch or
    /// the reader count is at its cap.
    pub fn latch_read(&mut self) -> (r: Result<u64, u64>)
        ensures
            !latch_is_exclusive(word_latch(old(self)@)) && word_latch(old(self)@)
                < LATCH_FIELD_MAX ==> {
                &&& r == Ok::<u64, u64>(old(self)@)
                &&& word_latch(final(self)@) == (if latch_is_open(word_latch(old(self)@)) {
                    2u64
                } else {
                    (word_latch(old(self)@) + 1) as u64
                })
                &&& latch_is_shared(word_latch(final(self)@))
                &&& word_version(final(self)@) == word_version(old(self)@)
                &&& word_dirty(final(self)@) == word_dirty(old(self)@)
            },
            latch_is_exclusive(word_latch(old(self)@)) || word_latch(old(self)@)
                == LATCH_FIELD_MAX ==> r == Err::<u64, u64>(old(self)@) && final(self)@ == old(self)@,
    {
        let value = self.word;
        let latch = Self::latch(value);
        proof {
            lemma_word_parts(value);
        }
        if latch == 1 || latch == LATCH_FIELD_MAX {
            Err(value)
        } else {
            let next = if latch == 0 {
                2
            } else {
                latch + 1
            };
            self.word = Self::with_latch(value, next);
            Ok(value)
        }
    }

    /// Release one shared reader: `n + 1` readers become `n`, the last
    /// reader reopens the latch. Refused when no reader holds the latch.
    pub fn latch_read_release(&mut self) -> (r: Result<u64, u64>)
        ensures
            latch_is_shared(word_latch(old(self)@)) ==> {
                &&& r == Ok::<u64, u64>(old(self)@)
                &&& word_latch(final(self)@) == (if word_latch(old(self)@) == 2 {
                    0u64
                } else {
                    (word_latch(old(self)@) - 1) as u64
                })
                &&& word_version(final(self)@) == word_version(old(self)@)
                &&& word_dirty(final(self)@) == word_dirty(old(self)@)
            },
            !latch_is_shared(word_latch(old(self)@)) ==> r == Err::<u64, u64>(old(self)@) && final(self)@
                == old(self)@,
    {
        let value = self.word;
        let latch = Self::latch(value);
        proof {
            lemma_word_parts(value);
        }
        if latch <= 1 {
            Err(value)
        } else {
            let next = if latch == 2 {
                0
            } else {
                latch - 1
            };
            self.word = Self::with_latch(value, next);
            Ok(value)
        }
    }

    /// Reopen the latch, whatever its state; the release half of both the
    /// exclusive and the last-shared transition.
    pub fn latch_open(&mut self) -> (r: Result<u64, u64>)
        ensures
            r == Ok::<u64, u64>(old(self)@),
            latch_is_open(word_latch(final(self)@)),
            word_version(final(self)@) == word_version(old(self)@),
            word_dirty(final(self)@) == word_dirty(old(self)@),
    {
        let value = self.word;
        self.word = Self::with_latch(value, 0);
        Ok(value)
    }

    /// Take the latch for a writer: only an open latch can be taken, and
    /// the taken word reads Exclusive to every other observer.
    pub fn latch_write(&mut self) -> (r: Result<u64, u64>)
        ensures
            latch_is_open(word_latch(old(self)@)) ==> {
                &&& r == Ok::<u64, u64>(old(self)@)
                &&& latch_is_exclusive(word_latch(final(self)@))
                &&& word_version(final(self)@) == word_version(old(self)@)
                &&& word_dirty(final(self)@) == word_dirty(old(self)@)
            },
            !latch_is_open(word_latch(old(self)@)) ==> r == Err::<u64, u64>(old(self)@) && final(self)@
                == old(self)@,
    {
        let value = self.word;
        let latch = Self::latch(value);
        if latch == 0 {
            self.word = Self::with_latch(value, 1);
            Ok(value)
        } else {
            Err(value)
        }
    }

    /// Bump the version by one; the single place the version moves, run
    /// exactly once per completed exclusive critical section. Refused only
    /// when the 48-bit counter is exhausted.
    pub fn increment_version(&mut self) -> (r: Result<u64, u64>)
        ensures
            word_version(old(self)@) < VERSION_FIELD_MAX ==> {
                &&& r == Ok::<u64, u64>(old(self)@)
                &&& word_version(final(self)@) == word_version(old(self)@) + 1
                &&& word_latch(final(self)@) == word_latch(old(self)@)
                &&& word_dirty(final(self)@) == word_dirty(old(self)@)
            },
            word_version(old(self)@) == VERSION_FIELD_MAX ==> r == Err::<u64, u64>(old(self)@)
                && final(self)@ == old(self)@,
    {
        let value = self.word;
        let version = Self::version(value);
        proof {
            lemma_word_parts(value);
        }
        if version == VERSION_FIELD_MAX {
            Err(value)
        } else {
            self.word = Self::with_version(value, version + 1);
            Ok(value)
        }
    }
}

} // verus!
