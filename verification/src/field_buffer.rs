//! The value buffer: every field value of the corpus, held in key order
//! until the run writes the sorted table.

use vstd::prelude::*;
use crate::bytes::bytes_lt;
use crate::bytes::compare_bytes;
use crate::bytes::lemma_lt_irreflexive;
use crate::bytes::lemma_lt_transitive;
use crate::bytes::ByteOrder;
use crate::entries::ascending;
use crate::entries::entries_map;
use crate::entries::entries_view;
use crate::entries::lemma_ascending_front;
use crate::entries::lemma_last_key_not_in_front;
use crate::entries::lemma_map_keys;
use crate::entries::lemma_map_values;
use crate::entries::lists_key;
use crate::entries::EntryView;
use crate::entries::FieldValueEntry;

verus! {

/// An entry with a new key, put at the place that keeps the keys rising,
/// leaves a listing that is ascending and whose map is the old one with the
/// entry inserted.
pub proof fn lemma_listing_insert(entries: Seq<EntryView>, at: int, entry: EntryView)
    requires
        ascending(entries),
        0 <= at <= entries.len(),
        forall|i: int| 0 <= i < at ==> bytes_lt((#[trigger] entries[i]).key, entry.key),
        forall|i: int| at <= i < entries.len() ==> bytes_lt(entry.key, (#[trigger] entries[i]).key),
    ensures
        ascending(entries.insert(at, entry)),
        entries_map(entries.insert(at, entry)) == entries_map(entries).insert(
            entry.key,
            entry.value,
        ),
{
    let after = entries.insert(at, entry);
    assert forall|i: int, j: int| 0 <= i < j < after.len() implies bytes_lt(
        (#[trigger] after[i]).key,
        (#[trigger] after[j]).key,
    ) by {
        if j < at {
            assert(after[i] == entries[i] && after[j] == entries[j]);
        } else if j == at {
            assert(after[i] == entries[i]);
        } else if i < at {
            assert(after[i] == entries[i] && after[j] == entries[j - 1]);
            lemma_lt_transitive(entries[i].key, entry.key, entries[j - 1].key);
        } else if i == at {
            assert(after[j] == entries[j - 1]);
        } else {
            assert(after[i] == entries[i - 1] && after[j] == entries[j - 1]);
        }
    }
    lemma_map_keys(entries);
    lemma_map_keys(after);
    lemma_map_values(entries);
    lemma_map_values(after);
    let grown = entries_map(entries).insert(entry.key, entry.value);
    assert(after[at] == entry);
    assert forall|key: Seq<u8>| entries_map(after).dom().contains(key) <==> grown.dom().contains(
        key,
    ) by {
        if lists_key(after, key) {
            let i = choose|i: int| 0 <= i < after.len() && (#[trigger] after[i]).key == key;
            if i < at {
                assert(entries[i].key == key);
            } else if i > at {
                assert(entries[i - 1].key == key);
            }
        }
        if key == entry.key {
            assert(after[at].key == key);
        } else if lists_key(entries, key) {
            let i = choose|i: int| 0 <= i < entries.len() && (#[trigger] entries[i]).key == key;
            if i < at {
                assert(after[i].key == key);
            } else {
                assert(after[i + 1].key == key);
            }
        }
    }
    assert forall|key: Seq<u8>| entries_map(after).dom().contains(key) implies entries_map(
        after,
    )[key] == grown[key] by {
        let i = choose|i: int| 0 <= i < after.len() && (#[trigger] after[i]).key == key;
        if i < at {
            assert(entries[i] == after[i]);
            lemma_lt_irreflexive(key);
        } else if i > at {
            assert(entries[i - 1] == after[i]);
            lemma_lt_irreflexive(key);
        }
    }
    assert(entries_map(after) =~= grown);
}

/// An entry that takes the place of the one with its key leaves a listing
/// that is ascending and whose map is the old one with the entry inserted.
pub proof fn lemma_listing_replace(entries: Seq<EntryView>, at: int, entry: EntryView)
    requires
        ascending(entries),
        0 <= at < entries.len(),
        entries[at].key == entry.key,
    ensures
        ascending(entries.update(at, entry)),
        entries_map(entries.update(at, entry)) == entries_map(entries).insert(
            entry.key,
            entry.value,
        ),
{
    let after = entries.update(at, entry);
    assert forall|i: int, j: int| 0 <= i < j < after.len() implies bytes_lt(
        (#[trigger] after[i]).key,
        (#[trigger] after[j]).key,
    ) by {
        assert(after[i].key == entries[i].key && after[j].key == entries[j].key);
    }
    lemma_map_keys(entries);
    lemma_map_keys(after);
    lemma_map_values(entries);
    lemma_map_values(after);
    let grown = entries_map(entries).insert(entry.key, entry.value);
    assert forall|key: Seq<u8>| entries_map(after).dom().contains(key) <==> grown.dom().contains(
        key,
    ) by {
        if lists_key(after, key) {
            let i = choose|i: int| 0 <= i < after.len() && (#[trigger] after[i]).key == key;
            assert(entries[i].key == key);
        }
        if key == entry.key {
            assert(after[at].key == key);
        } else if lists_key(entries, key) {
            let i = choose|i: int| 0 <= i < entries.len() && (#[trigger] entries[i]).key == key;
            assert(after[i].key == key);
        }
    }
    assert forall|key: Seq<u8>| entries_map(after).dom().contains(key) implies entries_map(
        after,
    )[key] == grown[key] by {
        let i = choose|i: int| 0 <= i < after.len() && (#[trigger] after[i]).key == key;
        if i != at {
            assert(entries[i] == after[i]);
            if i < at {
                assert(bytes_lt(entries[i].key, entries[at].key));
            } else {
                assert(bytes_lt(entries[at].key, entries[i].key));
            }
            lemma_lt_irreflexive(key);
        }
    }
    assert(entries_map(after) =~= grown);
}

/// The buffered field values, one for each key. Its view is the map from
/// key to value.
#[derive(Debug)]
pub struct FieldBuffer {
    entries: Vec<FieldValueEntry>,
}

impl View for FieldBuffer {
    type V = Map<Seq<u8>, Seq<u8>>;

    closed spec fn view(&self) -> Map<Seq<u8>, Seq<u8>> {
        entries_map(entries_view(self.entries@))
    }
}

impl FieldBuffer {
    #[verifier::type_invariant]
    spec fn keys_rise(self) -> bool {
        ascending(entries_view(self.entries@))
    }

    /// A buffer that holds nothing.
    pub fn new() -> (buffer: FieldBuffer)
        ensures
            buffer@ == Map::<Seq<u8>, Seq<u8>>::empty(),
    {
        let buffer = FieldBuffer { entries: Vec::new() };
        assert(entries_view(buffer.entries@) =~= Seq::<EntryView>::empty());
        buffer
    }

    /// Stores `value` under `key`. A value stored under that key before is
    /// replaced.
    pub fn insert(&mut self, key: Vec<u8>, value: Vec<u8>)
        ensures
            final(self)@ == old(self)@.insert(key@, value@),
    {
        proof {
            use_type_invariant(&*self);
        }
        let mut entries: Vec<FieldValueEntry> = Vec::new();
        std::mem::swap(&mut entries, &mut self.entries);
        let ghost before = entries_view(entries@);
        let ghost entry = EntryView { key: key@, value: value@ };
        let mut low: usize = 0;
        let mut high: usize = entries.len();
        while low < high
            invariant
                low <= high <= entries.len(),
                before == entries_view(entries@),
                old(self)@ == entries_map(before),
                entry == (EntryView { key: key@, value: value@ }),
                ascending(before),
                forall|i: int| 0 <= i < low ==> bytes_lt((#[trigger] before[i]).key, key@),
                forall|i: int| high <= i < before.len() ==> bytes_lt(key@, (#[trigger] before[i]).key),
            decreases high - low,
        {
            let middle = low + (high - low) / 2;
            assert(before[middle as int] == entries@[middle as int]@);
            match compare_bytes(entries[middle].key.as_slice(), key.as_slice()) {
                ByteOrder::Below => {
                    assert forall|i: int| 0 <= i < middle + 1 implies bytes_lt(
                        (#[trigger] before[i]).key,
                        key@,
                    ) by {
                        if i < middle {
                            assert(bytes_lt(before[i].key, before[middle as int].key));
                            lemma_lt_transitive(before[i].key, before[middle as int].key, key@);
                        }
                    }
                    low = middle + 1;
                },
                ByteOrder::Above => {
                    assert forall|i: int| middle <= i < before.len() implies bytes_lt(
                        key@,
                        (#[trigger] before[i]).key,
                    ) by {
                        if middle < i {
                            assert(bytes_lt(before[middle as int].key, before[i].key));
                            lemma_lt_transitive(key@, before[middle as int].key, before[i].key);
                        }
                    }
                    high = middle;
                },
                ByteOrder::Same => {
                    assert(before[middle as int].key == key@);
                    entries.set(middle, FieldValueEntry { key, value });
                    proof {
                        lemma_listing_replace(before, middle as int, entry);
                        assert(entries_view(entries@) =~= before.update(middle as int, entry));
                    }
                    self.entries = entries;
                    return ;
                },
            }
        }
        entries.insert(low, FieldValueEntry { key, value });
        proof {
            lemma_listing_insert(before, low as int, entry);
            assert(entries_view(entries@) =~= before.insert(low as int, entry));
        }
        self.entries = entries;
    }

    /// The number of keys.
    pub fn len(&self) -> (n: usize)
        ensures
            n == self@.dom().len(),
    {
        proof {
            use_type_invariant(self);
            lemma_listing_len(entries_view(self.entries@));
        }
        self.entries.len()
    }

    /// The entries in strictly ascending key order.
    pub fn listing(&self) -> (listing: &Vec<FieldValueEntry>)
        ensures
            ascending(entries_view(listing@)),
            entries_map(entries_view(listing@)) == self@,
    {
        proof {
            use_type_invariant(self);
        }
        &self.entries
    }
}

/// An ascending listing has as many entries as its map has keys.
pub proof fn lemma_listing_len(entries: Seq<EntryView>)
    requires
        ascending(entries),
    ensures
        entries_map(entries).dom().finite(),
        entries_map(entries).dom().len() == entries.len(),
    decreases entries.len(),
{
    if entries.len() > 0 {
        let front = entries.drop_last();
        lemma_ascending_front(entries);
        lemma_listing_len(front);
        lemma_map_keys(front);
        lemma_last_key_not_in_front(entries);
    }
}

} // verus!
