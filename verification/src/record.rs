//! Records of fixed size: what the codec copies as it stands.

use vstd::prelude::*;

verus! {

/// A value of fixed size that is laid out as a run of 32-bit words. Any such
/// value is aligned to four bytes and has no gaps.
pub trait Record: Sized {
    /// The number of words.
    spec fn spec_word_count() -> nat;

    /// The words of the value.
    spec fn words(&self) -> Seq<u32>;

    /// The value that a run of `spec_word_count()` words stands for, if they
    /// are a legal pattern of this type.
    spec fn from_words(words: Seq<u32>) -> Option<Self>;

    /// A value comes back from its own words.
    proof fn lemma_words(&self)
        ensures
            self.words().len() == Self::spec_word_count(),
            Self::from_words(self.words()) == Some(*self),
    ;

    /// A record is neither empty nor large.
    proof fn lemma_word_count()
        ensures
            Self::spec_word_count() > 0,
            Self::spec_word_count() <= 64,
    ;

    /// The number of words.
    fn word_count() -> (n: usize)
        ensures
            n == Self::spec_word_count(),
    ;

    /// The words of the value.
    fn to_words(&self) -> (words: Vec<u32>)
        ensures
            words@ == self.words(),
    ;

    /// Reads a value back, or finds that the words are no legal pattern.
    fn try_from_words(words: &[u32]) -> (value: Option<Self>)
        requires
            words@.len() == Self::spec_word_count(),
        ensures
            value == Self::from_words(words@),
    ;
}

impl Record for u32 {
    open spec fn spec_word_count() -> nat {
        1
    }

    open spec fn words(&self) -> Seq<u32> {
        seq![*self]
    }

    open spec fn from_words(words: Seq<u32>) -> Option<Self> {
        Some(words[0])
    }

    proof fn lemma_words(&self) {
    }

    proof fn lemma_word_count() {
    }

    fn word_count() -> (n: usize) {
        1
    }

    fn to_words(&self) -> (words: Vec<u32>) {
        vec![*self]
    }

    fn try_from_words(words: &[u32]) -> (value: Option<Self>) {
        Some(words[0])
    }
}

impl Record for [u32; 4] {
    open spec fn spec_word_count() -> nat {
        4
    }

    open spec fn words(&self) -> Seq<u32> {
        seq![self[0], self[1], self[2], self[3]]
    }

    open spec fn from_words(words: Seq<u32>) -> Option<Self> {
        Some([words[0], words[1], words[2], words[3]])
    }

    proof fn lemma_words(&self) {
        let back = Self::from_words(self.words()).unwrap();
        assert(back =~= *self);
    }

    proof fn lemma_word_count() {
    }

    fn word_count() -> (n: usize) {
        4
    }

    fn to_words(&self) -> (words: Vec<u32>) {
        vec![self[0], self[1], self[2], self[3]]
    }

    fn try_from_words(words: &[u32]) -> (value: Option<Self>) {
        Some([words[0], words[1], words[2], words[3]])
    }
}

} // verus!
