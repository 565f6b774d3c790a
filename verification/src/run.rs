//! The identity of one indexing run: the name that its three artifacts share.

use vstd::prelude::*;
use vstd::string::StringExecFns;
use moby_name_gen::random_name;

verus! {

/// A letter from `a` to `z`.
pub open spec fn is_small_letter(c: char) -> bool {
    'a' <= c <= 'z'
}

/// `name` has its one hyphen at `at`, with small letters, and at least one
/// of them, on either side.
pub open spec fn hyphenated_at(name: Seq<char>, at: int) -> bool {
    &&& 0 < at < name.len() - 1
    &&& name[at] == '-'
    &&& forall|i: int| 0 <= i < name.len() && i != at ==> is_small_letter(#[trigger] name[i])
}

/// `name` has the shape of a drawn run name: a word, a hyphen and a word,
/// both words in small letters, as in `focused-turing`.
pub open spec fn is_drawn_name(name: Seq<char>) -> bool {
    exists|at: int| hyphenated_at(name, at)
}

/// `moby_name_gen::random_name` draws an adjective and a surname at random
/// from its two lists and joins them with a hyphen. Which name comes back is
/// not known before the call. What is claimed holds of every draw: each word
/// of the two lists is written in the letters `a` to `z` and is not empty,
/// so the name is a word, a hyphen and a word.
pub assume_specification[ moby_name_gen::random_name ]() -> (name: String)
    ensures
        is_drawn_name(name@),
;

/// The run identifier, from which the artifacts of the run are named.
#[derive(Clone, Debug, PartialEq, Eq)]
pub struct RunContext {
    name: String,
}

impl View for RunContext {
    type V = Seq<char>;

    closed spec fn view(&self) -> Seq<char> {
        self.name@
    }
}

impl RunContext {
    /// The run with the given identifier.
    pub fn new(name: String) -> (run: RunContext)
        ensures
            run@ == name@,
    {
        RunContext { name }
    }

    /// A run with a fresh, randomly drawn identifier: a word, a hyphen and a
    /// word, in small letters.
    pub fn random() -> (run: RunContext)
        ensures
            is_drawn_name(run@),
    {
        RunContext::new(random_name())
    }

    /// The run identifier.
    pub fn name(&self) -> (name: &str)
        ensures
            name@ == self@,
    {
        self.name.as_str()
    }

    /// The name of the file that holds the lookup structure of the posting
    /// index.
    pub fn map_file(&self) -> (file: String)
        ensures
            file@ == self@ + ".map"@,
    {
        self.name.clone().concat(".map")
    }

    /// The name of the file that holds the positions of the posting index.
    pub fn idx_file(&self) -> (file: String)
        ensures
            file@ == self@ + ".idx"@,
    {
        self.name.clone().concat(".idx")
    }

    /// The name of the file that holds the sorted table of field values.
    pub fn sst_file(&self) -> (file: String)
        ensures
            file@ == self@ + ".sst"@,
    {
        self.name.clone().concat(".sst")
    }
}

} // verus!
