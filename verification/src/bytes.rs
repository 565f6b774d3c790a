//! The order of byte strings: lexicographic by byte value, a proper prefix
//! below every string that continues it. This is the order in which the
//! value store takes its keys.

use vstd::prelude::*;

verus! {

/// `a` falls below `b` at position `k`: the two agree before `k`, and at `k`
/// either `a` ends while `b` goes on, or `a` holds the smaller byte.
pub open spec fn falls_below_at(a: Seq<u8>, b: Seq<u8>, k: int) -> bool {
    &&& 0 <= k <= a.len()
    &&& k < b.len()
    &&& forall|i: int| 0 <= i < k ==> a[i] == b[i]
    &&& (k < a.len() ==> a[k] < b[k])
}

/// `a` is strictly below `b`.
pub open spec fn bytes_lt(a: Seq<u8>, b: Seq<u8>) -> bool {
    exists|k: int| falls_below_at(a, b, k)
}

/// How one byte string stands to another.
#[derive(Clone, Copy, Debug, PartialEq, Eq, Structural)]
pub enum ByteOrder {
    Below,
    Same,
    Above,
}

/// No byte string is below itself.
pub proof fn lemma_lt_irreflexive(a: Seq<u8>)
    ensures
        !bytes_lt(a, a),
{
}

/// Of two byte strings at most one is below the other.
pub proof fn lemma_lt_asymmetric(a: Seq<u8>, b: Seq<u8>)
    ensures
        !(bytes_lt(a, b) && bytes_lt(b, a)),
{
    if bytes_lt(a, b) && bytes_lt(b, a) {
        let k = choose|k: int| falls_below_at(a, b, k);
        let m = choose|m: int| falls_below_at(b, a, m);
        if k < m {
            assert(b[k] == a[k]);
        } else if m < k {
            assert(a[m] == b[m]);
        }
    }
}

/// The order is transitive.
pub proof fn lemma_lt_transitive(a: Seq<u8>, b: Seq<u8>, c: Seq<u8>)
    requires
        bytes_lt(a, b),
        bytes_lt(b, c),
    ensures
        bytes_lt(a, c),
{
    let k = choose|k: int| falls_below_at(a, b, k);
    let m = choose|m: int| falls_below_at(b, c, m);
    if k <= m {
        assert(falls_below_at(a, c, k));
    } else {
        assert(a[m] == b[m]);
        assert(falls_below_at(a, c, m));
    }
}

/// Compares two byte strings.
pub fn compare_bytes(a: &[u8], b: &[u8]) -> (order: ByteOrder)
    ensures
        order == ByteOrder::Below <==> bytes_lt(a@, b@),
        order == ByteOrder::Same <==> a@ == b@,
        order == ByteOrder::Above <==> bytes_lt(b@, a@),
{
    proof {
        lemma_lt_irreflexive(a@);
        lemma_lt_asymmetric(a@, b@);
    }
    let mut i: usize = 0;
    while i < a.len() && i < b.len()
        invariant
            i <= a.len(),
            i <= b.len(),
            forall|j: int| 0 <= j < i ==> a@[j] == b@[j],
        decreases a.len() - i,
    {
        if a[i] < b[i] {
            assert(falls_below_at(a@, b@, i as int));
            return ByteOrder::Below;
        }
        if a[i] > b[i] {
            assert(falls_below_at(b@, a@, i as int));
            return ByteOrder::Above;
        }
        i += 1;
    }
    if i < b.len() {
        assert(falls_below_at(a@, b@, i as int));
        ByteOrder::Below
    } else if i < a.len() {
        assert(falls_below_at(b@, a@, i as int));
        ByteOrder::Above
    } else {
        assert(a@ =~= b@);
        ByteOrder::Same
    }
}

} // verus!
