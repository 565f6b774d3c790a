//! The posting accumulator: the pairs of a term and one place where it
//! occurs, kept in the order in which they were inserted, and the sealed
//! index they become.

use vstd::prelude::*;

verus! {

/// One place where a term occurs: the document, the field of the document
/// (0 for the title, 1 for the description) and the position of the word in
/// that field.
#[derive(Clone, Copy, Debug, PartialEq, Eq, Structural)]
pub struct DocIndex {
    pub document: u64,
    pub attribute: u8,
    pub attribute_index: u32,
}

/// A term and one place where it occurs.
#[derive(Clone, Debug, PartialEq, Eq)]
pub struct Posting {
    pub term: String,
    pub doc_index: DocIndex,
}

/// A posting, with the term as a character sequence.
pub ghost struct PostingView {
    pub term: Seq<char>,
    pub doc_index: DocIndex,
}

impl View for Posting {
    type V = PostingView;

    open spec fn view(&self) -> PostingView {
        PostingView { term: self.term@, doc_index: self.doc_index }
    }
}

/// The views of a sequence of postings, in the same order.
pub open spec fn postings_view(postings: Seq<Posting>) -> Seq<PostingView> {
    postings.map_values(|p: Posting| p@)
}

/// The places recorded for `term`, in the order of their insertion.
pub open spec fn occurrences_of(postings: Seq<PostingView>, term: Seq<char>) -> Seq<DocIndex>
    decreases postings.len(),
{
    if postings.len() == 0 {
        Seq::empty()
    } else if postings.last().term == term {
        occurrences_of(postings.drop_last(), term).push(postings.last().doc_index)
    } else {
        occurrences_of(postings.drop_last(), term)
    }
}

/// Collects postings until the index is sealed. Its view is the sequence of
/// the postings inserted so far.
#[derive(Debug)]
pub struct PostingAccumulator {
    postings: Vec<Posting>,
}

impl View for PostingAccumulator {
    type V = Seq<PostingView>;

    closed spec fn view(&self) -> Seq<PostingView> {
        postings_view(self.postings@)
    }
}

impl PostingAccumulator {
    /// An accumulator that holds nothing.
    pub fn new() -> (builder: PostingAccumulator)
        ensures
            builder@ == Seq::<PostingView>::empty(),
    {
        let builder = PostingAccumulator { postings: Vec::new() };
        assert(builder@ =~= Seq::<PostingView>::empty());
        builder
    }

    /// Records that `term` occurs at `doc_index`, after all that was
    /// recorded before.
    pub fn insert(&mut self, term: String, doc_index: DocIndex)
        ensures
            final(self)@ == old(self)@.push(PostingView { term: term@, doc_index }),
    {
        self.postings.push(Posting { term, doc_index });
        assert(self@ =~= old(self)@.push(PostingView { term: term@, doc_index }));
    }

    /// Seals the index. It holds what was inserted, in the same order, and
    /// takes no more.
    pub fn finish(self) -> (index: PostingIndex)
        ensures
            index@ == self@,
    {
        PostingIndex { postings: self.postings }
    }
}

/// A sealed posting index. Its view is the sequence of its postings in the
/// order of their insertion.
#[derive(Debug)]
pub struct PostingIndex {
    postings: Vec<Posting>,
}

impl View for PostingIndex {
    type V = Seq<PostingView>;

    closed spec fn view(&self) -> Seq<PostingView> {
        postings_view(self.postings@)
    }
}

impl PostingIndex {
    /// The number of postings.
    pub fn len(&self) -> (n: usize)
        ensures
            n == self@.len(),
    {
        self.postings.len()
    }

    /// The posting inserted as number `i`, counted from zero, if there are
    /// that many.
    pub fn get(&self, i: usize) -> (posting: Option<&Posting>)
        ensures
            posting is Some <==> i < self@.len(),
            posting matches Some(p) ==> p@ == self@[i as int],
    {
        if i < self.postings.len() {
            Some(&self.postings[i])
        } else {
            None
        }
    }

    /// The places recorded for `term`, in the order of their insertion.
    pub fn occurrences(&self, term: &str) -> (places: Vec<DocIndex>)
        ensures
            places@ == occurrences_of(self@, term@),
    {
        let sought = term.to_owned();
        let mut places: Vec<DocIndex> = Vec::new();
        let mut i: usize = 0;
        while i < self.postings.len()
            invariant
                i <= self.postings.len(),
                sought@ == term@,
                places@ == occurrences_of(self@.take(i as int), term@),
            decreases self.postings.len() - i,
        {
            assert(self@.take(i + 1).drop_last() =~= self@.take(i as int));
            if self.postings[i].term == sought {
                places.push(self.postings[i].doc_index);
            }
            i += 1;
        }
        assert(self@.take(i as int) =~= self@);
        places
    }
}

} // verus!
