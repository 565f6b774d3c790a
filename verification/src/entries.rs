//! The entries of the value store: the text of every indexed field as it
//! was written, under a key made of the document identifier and the field
//! name.
//! A listing of entries stands for a map from key to value; a listing in
//! strictly ascending key order is the only one of its map.

use vstd::prelude::*;
use crate::bytes::bytes_lt;
use crate::bytes::lemma_lt_irreflexive;
use crate::bytes::lemma_lt_transitive;

verus! {

/// One entry of the value store.
#[derive(Clone, Debug, PartialEq, Eq)]
pub struct FieldValueEntry {
    pub key: Vec<u8>,
    pub value: Vec<u8>,
}

/// One entry of the value store, as byte sequences.
pub ghost struct EntryView {
    pub key: Seq<u8>,
    pub value: Seq<u8>,
}

impl View for FieldValueEntry {
    type V = EntryView;

    open spec fn view(&self) -> EntryView {
        EntryView { key: self.key@, value: self.value@ }
    }
}

/// The views of a sequence of entries, in the same order.
pub open spec fn entries_view(entries: Seq<FieldValueEntry>) -> Seq<EntryView> {
    entries.map_values(|e: FieldValueEntry| e@)
}

/// The keys of `entries` rise strictly from each entry to the next.
pub open spec fn ascending(entries: Seq<EntryView>) -> bool {
    forall|i: int, j: int|
        0 <= i < j < entries.len() ==> bytes_lt(
            (#[trigger] entries[i]).key,
            (#[trigger] entries[j]).key,
        )
}

/// Some entry of `entries` has the key `key`.
pub open spec fn lists_key(entries: Seq<EntryView>, key: Seq<u8>) -> bool {
    exists|i: int| 0 <= i < entries.len() && (#[trigger] entries[i]).key == key
}

/// The map from key to value that `entries` make when they are inserted one
/// after the other: of two entries with one key the later one stays.
pub open spec fn entries_map(entries: Seq<EntryView>) -> Map<Seq<u8>, Seq<u8>>
    decreases entries.len(),
{
    if entries.len() == 0 {
        Map::empty()
    } else {
        entries_map(entries.drop_last()).insert(entries.last().key, entries.last().value)
    }
}

/// The map `buffered` after `entries` are inserted one after the other.
pub open spec fn entries_map_after(buffered: Map<Seq<u8>, Seq<u8>>, entries: Seq<EntryView>) -> Map<
    Seq<u8>,
    Seq<u8>,
>
    decreases entries.len(),
{
    if entries.len() == 0 {
        buffered
    } else {
        entries_map_after(buffered, entries.drop_last()).insert(
            entries.last().key,
            entries.last().value,
        )
    }
}

/// The map of two listings, one after the other, is the map of the first
/// with the entries of the second inserted.
pub proof fn lemma_entries_map_concat(first: Seq<EntryView>, second: Seq<EntryView>)
    ensures
        entries_map(first + second) == entries_map_after(entries_map(first), second),
    decreases second.len(),
{
    if second.len() == 0 {
        assert(first + second =~= first);
    } else {
        lemma_entries_map_concat(first, second.drop_last());
        assert((first + second).drop_last() =~= first + second.drop_last());
    }
}

/// The keys of the map of `entries` are the keys that `entries` list.
pub proof fn lemma_map_keys(entries: Seq<EntryView>)
    ensures
        forall|key: Seq<u8>|
            #![trigger entries_map(entries).dom().contains(key)]
            #![trigger lists_key(entries, key)]
            entries_map(entries).dom().contains(key) <==> lists_key(entries, key),
    decreases entries.len(),
{
    if entries.len() > 0 {
        let front = entries.drop_last();
        lemma_map_keys(front);
        assert forall|key: Seq<u8>|
            entries_map(entries).dom().contains(key) <==> lists_key(entries, key) by {
            if lists_key(entries, key) {
                let i = choose|i: int| 0 <= i < entries.len() && (#[trigger] entries[i]).key == key;
                if i < front.len() {
                    assert(front[i].key == key);
                    assert(lists_key(front, key));
                    assert(entries_map(front).dom().contains(key));
                }
            }
            if entries_map(entries).dom().contains(key) {
                if key == entries.last().key {
                    assert(entries[entries.len() - 1].key == key);
                } else {
                    assert(entries_map(front).dom().contains(key));
                    assert(lists_key(front, key));
                    let i = choose|i: int| 0 <= i < front.len() && (#[trigger] front[i]).key == key;
                    assert(entries[i].key == key);
                }
            }
        }
    }
}

/// What is left of an ascending listing without its last entry is ascending.
pub proof fn lemma_ascending_front(entries: Seq<EntryView>)
    requires
        ascending(entries),
        entries.len() > 0,
    ensures
        ascending(entries.drop_last()),
{
    let front = entries.drop_last();
    assert forall|i: int, j: int| 0 <= i < j < front.len() implies bytes_lt(
        (#[trigger] front[i]).key,
        (#[trigger] front[j]).key,
    ) by {
        assert(front[i] == entries[i] && front[j] == entries[j]);
    }
}

/// The last key of an ascending listing is not listed before it.
pub proof fn lemma_last_key_not_in_front(entries: Seq<EntryView>)
    requires
        ascending(entries),
        entries.len() > 0,
    ensures
        !lists_key(entries.drop_last(), entries.last().key),
{
    let front = entries.drop_last();
    if lists_key(front, entries.last().key) {
        let k = choose|k: int|
            0 <= k < front.len() && (#[trigger] front[k]).key == entries.last().key;
        assert(front[k] == entries[k]);
        assert(bytes_lt(entries[k].key, entries[entries.len() - 1].key));
        lemma_lt_irreflexive(entries.last().key);
    }
}

/// No two entries of `entries` have one key.
pub open spec fn distinct_keys(entries: Seq<EntryView>) -> bool {
    forall|i: int, j: int|
        0 <= i < j < entries.len() ==> (#[trigger] entries[i]).key != (#[trigger] entries[j]).key
}

/// Keys that rise strictly are distinct.
pub proof fn lemma_ascending_distinct(entries: Seq<EntryView>)
    requires
        ascending(entries),
    ensures
        distinct_keys(entries),
{
    assert forall|i: int, j: int| 0 <= i < j < entries.len() implies (#[trigger] entries[i]).key
        != (#[trigger] entries[j]).key by {
        lemma_lt_irreflexive(entries[i].key);
    }
}

/// Where no key is listed twice, the map of `entries` gives each listed key
/// the value listed with it.
pub proof fn lemma_map_values_distinct(entries: Seq<EntryView>)
    requires
        distinct_keys(entries),
    ensures
        forall|i: int|
            0 <= i < entries.len() ==> entries_map(entries).dom().contains(
                (#[trigger] entries[i]).key,
            ) && entries_map(entries)[entries[i].key] == entries[i].value,
    decreases entries.len(),
{
    if entries.len() > 0 {
        let front = entries.drop_last();
        assert(distinct_keys(front)) by {
            assert forall|i: int, j: int| 0 <= i < j < front.len() implies (#[trigger] front[i]).key
                != (#[trigger] front[j]).key by {
                assert(front[i] == entries[i] && front[j] == entries[j]);
            }
        }
        lemma_map_values_distinct(front);
        assert forall|i: int| 0 <= i < entries.len() implies entries_map(entries).dom().contains(
            (#[trigger] entries[i]).key,
        ) && entries_map(entries)[entries[i].key] == entries[i].value by {
            if i < front.len() {
                assert(front[i] == entries[i]);
                assert(entries[i].key != entries[entries.len() - 1].key);
            }
        }
    }
}

/// Where the keys rise strictly, the map of `entries` gives each listed key
/// the value listed with it.
pub proof fn lemma_map_values(entries: Seq<EntryView>)
    requires
        ascending(entries),
    ensures
        forall|i: int|
            0 <= i < entries.len() ==> entries_map(entries).dom().contains(
                (#[trigger] entries[i]).key,
            ) && entries_map(entries)[entries[i].key] == entries[i].value,
{
    lemma_ascending_distinct(entries);
    lemma_map_values_distinct(entries);
}

/// Two listings in strictly ascending key order that make the same map are
/// the same listing: the order of a flush depends on the buffered entries
/// alone.
pub proof fn lemma_ascending_listing_unique(a: Seq<EntryView>, b: Seq<EntryView>)
    requires
        ascending(a),
        ascending(b),
        entries_map(a) == entries_map(b),
    ensures
        a == b,
    decreases a.len(),
{
    lemma_map_keys(a);
    lemma_map_keys(b);
    lemma_map_values(a);
    lemma_map_values(b);
    if a.len() == 0 {
        if b.len() > 0 {
            assert(lists_key(b, b[0].key));
            assert(entries_map(a).dom().contains(b[0].key));
        }
        assert(a =~= b);
    } else if b.len() == 0 {
        assert(lists_key(a, a[0].key));
        assert(entries_map(b).dom().contains(a[0].key));
    } else {
        let top_a = a.len() - 1;
        let top_b = b.len() - 1;
        // The greatest key of each listing is listed in the other.
        assert(lists_key(a, a[top_a].key));
        assert(entries_map(b).dom().contains(a[top_a].key));
        assert(lists_key(b, a[top_a].key));
        let j = choose|j: int| 0 <= j < b.len() && (#[trigger] b[j]).key == a[top_a].key;
        assert(lists_key(b, b[top_b].key));
        assert(entries_map(a).dom().contains(b[top_b].key));
        assert(lists_key(a, b[top_b].key));
        let i = choose|i: int| 0 <= i < a.len() && (#[trigger] a[i]).key == b[top_b].key;
        if j < top_b {
            assert(bytes_lt(b[j].key, b[top_b].key));
            if i < top_a {
                assert(bytes_lt(a[i].key, a[top_a].key));
                lemma_lt_transitive(a[top_a].key, b[top_b].key, a[top_a].key);
            }
            lemma_lt_irreflexive(a[top_a].key);
        }
        assert(j == top_b);
        assert(a[top_a] == b[top_b]);
        let front_a = a.drop_last();
        let front_b = b.drop_last();
        lemma_ascending_front(a);
        lemma_ascending_front(b);
        lemma_map_keys(front_a);
        lemma_map_keys(front_b);
        lemma_last_key_not_in_front(a);
        lemma_last_key_not_in_front(b);
        assert(entries_map(front_a) =~= entries_map(a).remove(a[top_a].key));
        assert(entries_map(front_b) =~= entries_map(b).remove(b[top_b].key));
        lemma_ascending_listing_unique(front_a, front_b);
        assert(a =~= front_a.push(a[top_a]));
        assert(b =~= front_b.push(b[top_b]));
    }
}

} // verus!
