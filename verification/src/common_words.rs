//! The stop-word filter: a set of words that are never indexed.

use vstd::prelude::*;

verus! {

/// The set of the texts of `words`.
pub open spec fn words_set(words: Seq<String>) -> Set<Seq<char>> {
    Set::new(|w: Seq<char>| exists|i: int| 0 <= i < words.len() && (#[trigger] words[i])@ == w)
}

/// A set of words, looked up exactly as written: no case folding, no
/// trimming.
#[derive(Debug)]
pub struct CommonWords {
    words: Vec<String>,
}

impl View for CommonWords {
    type V = Set<Seq<char>>;

    closed spec fn view(&self) -> Set<Seq<char>> {
        words_set(self.words@)
    }
}

impl CommonWords {
    /// The set that holds each of `words`. A word given twice counts once.
    pub fn from_words(words: Vec<String>) -> (set: CommonWords)
        ensures
            set@ == words_set(words@),
    {
        CommonWords { words }
    }

    /// Whether `word` is in the set.
    pub fn contains(&self, word: &str) -> (found: bool)
        ensures
            found == self@.contains(word@),
    {
        let sought = word.to_owned();
        let mut i: usize = 0;
        while i < self.words.len()
            invariant
                i <= self.words.len(),
                sought@ == word@,
                forall|j: int| 0 <= j < i ==> (#[trigger] self.words[j])@ != word@,
            decreases self.words.len() - i,
        {
            if self.words[i] == sought {
                return true;
            }
            i += 1;
        }
        false
    }
}

} // verus!
