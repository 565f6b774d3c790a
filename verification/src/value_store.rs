//! The builder of the sorted table. It takes entries whose keys rise
//! strictly and turns away any other; sealed, it is the table itself.

use vstd::prelude::*;
use vstd::slice::slice_to_vec;
use crate::bytes::bytes_lt;
use crate::bytes::compare_bytes;
use crate::bytes::lemma_lt_transitive;
use crate::bytes::ByteOrder;
use crate::entries::ascending;
use crate::entries::entries_view;
use crate::entries::EntryView;
use crate::entries::FieldValueEntry;
use crate::error::IndexError;

verus! {

/// Whether a table that holds `written` takes an entry with the key `key`:
/// the key must be above the last one written.
pub open spec fn accepts(written: Seq<EntryView>, key: Seq<u8>) -> bool {
    written.len() == 0 || bytes_lt(written.last().key, key)
}

/// A listing whose keys rise, with one more entry whose key is above the
/// last, is a listing whose keys rise.
pub proof fn lemma_ascending_push(written: Seq<EntryView>, entry: EntryView)
    requires
        ascending(written),
        accepts(written, entry.key),
    ensures
        ascending(written.push(entry)),
{
    let after = written.push(entry);
    assert forall|i: int, j: int| 0 <= i < j < after.len() implies bytes_lt(
        (#[trigger] after[i]).key,
        (#[trigger] after[j]).key,
    ) by {
        if j < written.len() {
            assert(after[i] == written[i] && after[j] == written[j]);
        } else {
            assert(after[i] == written[i]);
            if i < written.len() - 1 {
                assert(bytes_lt(written[i].key, written[written.len() - 1].key));
                lemma_lt_transitive(written[i].key, written.last().key, entry.key);
            }
        }
    }
}

/// Builds the sorted table. Its view is the sequence of the entries written
/// so far.
#[derive(Debug)]
pub struct FieldValueStoreBuilder {
    entries: Vec<FieldValueEntry>,
}

impl View for FieldValueStoreBuilder {
    type V = Seq<EntryView>;

    closed spec fn view(&self) -> Seq<EntryView> {
        entries_view(self.entries@)
    }
}

impl FieldValueStoreBuilder {
    #[verifier::type_invariant]
    spec fn keys_rise(self) -> bool {
        ascending(entries_view(self.entries@))
    }

    /// A builder that has written nothing.
    pub fn new() -> (builder: FieldValueStoreBuilder)
        ensures
            builder@ == Seq::<EntryView>::empty(),
    {
        let builder = FieldValueStoreBuilder { entries: Vec::new() };
        assert(entries_view(builder.entries@) =~= Seq::<EntryView>::empty());
        builder
    }

    /// Writes an entry after those written before. A key that is not above
    /// the last one written is an ordering violation, and nothing is written.
    pub fn put(&mut self, key: &[u8], value: &[u8]) -> (r: Result<(), IndexError>)
        ensures
            r is Ok <==> accepts(old(self)@, key@),
            r is Ok ==> final(self)@ == old(self)@.push(EntryView { key: key@, value: value@ }),
            r matches Err(e) ==> e == IndexError::OrderingViolation && final(self)@ == old(self)@,
    {
        proof {
            use_type_invariant(&*self);
        }
        let n = self.entries.len();
        if n > 0 {
            assert(self@.last() == self.entries@[n - 1]@);
            match compare_bytes(self.entries[n - 1].key.as_slice(), key) {
                ByteOrder::Below => {},
                _ => {
                    return Err(IndexError::OrderingViolation);
                },
            }
        }
        let mut entries: Vec<FieldValueEntry> = Vec::new();
        std::mem::swap(&mut entries, &mut self.entries);
        let ghost before = entries_view(entries@);
        entries.push(FieldValueEntry { key: slice_to_vec(key), value: slice_to_vec(value) });
        proof {
            let entry = EntryView { key: key@, value: value@ };
            lemma_ascending_push(before, entry);
            assert(entries_view(entries@) =~= before.push(entry));
        }
        self.entries = entries;
        Ok(())
    }

    /// Seals the table. It holds what was written, in the same order, and
    /// takes no more.
    pub fn finish(self) -> (table: SortedTable)
        ensures
            table@ == self@,
            ascending(table@),
    {
        proof {
            use_type_invariant(&self);
        }
        SortedTable { entries: self.entries }
    }
}

/// A sealed sorted table. Its view is the sequence of its entries; their
/// keys rise strictly.
#[derive(Debug)]
pub struct SortedTable {
    entries: Vec<FieldValueEntry>,
}

impl View for SortedTable {
    type V = Seq<EntryView>;

    closed spec fn view(&self) -> Seq<EntryView> {
        entries_view(self.entries@)
    }
}

impl SortedTable {
    #[verifier::type_invariant]
    spec fn keys_rise(self) -> bool {
        ascending(entries_view(self.entries@))
    }

    /// The number of entries.
    pub fn len(&self) -> (n: usize)
        ensures
            n == self@.len(),
    {
        self.entries.len()
    }

    /// The entry at place `i` of the table, counted from zero, if there are
    /// that many.
    pub fn get(&self, i: usize) -> (entry: Option<&FieldValueEntry>)
        ensures
            entry is Some <==> i < self@.len(),
            entry matches Some(e) ==> e@ == self@[i as int],
    {
        if i < self.entries.len() {
            Some(&self.entries[i])
        } else {
            None
        }
    }
}

} // verus!
