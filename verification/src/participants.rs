//! The canonical order of the participants' keys.
//!
//! The joint key and the joint nonce are computed over the list of participants, and
//! every party must compute them over the same list, however the keys were handed to it.
//! The canonical list holds the keys in the lexicographic order of their bytes. Two
//! lists with the same keys, each as often as in the other, have the same canonical
//! list.

use vstd::prelude::*;
use vstd::relations::{sorted_by, total_ordering};
use vstd::seq_lib::{lemma_sorted_unique, to_multiset_build, to_multiset_insert};

use crate::ledger::Pubkey;

verus! {

/// Lexicographic order on byte strings: the first byte that differs decides, and a
/// string comes before those that it begins.
pub open spec fn bytes_le(a: Seq<u8>, b: Seq<u8>) -> bool
    decreases a.len(),
{
    if a.len() == 0 {
        true
    } else if b.len() == 0 {
        false
    } else if a[0] != b[0] {
        a[0] < b[0]
    } else {
        bytes_le(a.drop_first(), b.drop_first())
    }
}

/// The order of keys: that of their bytes.
pub open spec fn key_le(a: Pubkey, b: Pubkey) -> bool {
    bytes_le(a@, b@)
}

/// [`key_le`] as a relation.
pub open spec fn key_order() -> spec_fn(Pubkey, Pubkey) -> bool {
    |a: Pubkey, b: Pubkey| key_le(a, b)
}

/// `sorted` is the canonical list of `keys`: the same keys, each as often, in order.
pub open spec fn canonical_of(keys: Seq<Pubkey>, sorted: Seq<Pubkey>) -> bool {
    sorted_by(sorted, key_order()) && sorted.to_multiset() == keys.to_multiset()
}

proof fn lemma_bytes_le_reflexive(a: Seq<u8>)
    ensures
        bytes_le(a, a),
    decreases a.len(),
{
    if a.len() > 0 {
        lemma_bytes_le_reflexive(a.drop_first());
    }
}

proof fn lemma_bytes_le_antisymmetric(a: Seq<u8>, b: Seq<u8>)
    requires
        bytes_le(a, b),
        bytes_le(b, a),
    ensures
        a == b,
    decreases a.len(),
{
    if a.len() == 0 || b.len() == 0 {
        assert(a =~= b);
    } else {
        lemma_bytes_le_antisymmetric(a.drop_first(), b.drop_first());
        assert(a =~= seq![a[0]] + a.drop_first());
        assert(b =~= seq![b[0]] + b.drop_first());
    }
}

proof fn lemma_bytes_le_transitive(a: Seq<u8>, b: Seq<u8>, c: Seq<u8>)
    requires
        bytes_le(a, b),
        bytes_le(b, c),
    ensures
        bytes_le(a, c),
    decreases a.len(),
{
    if a.len() > 0 && b.len() > 0 && c.len() > 0 && a[0] == b[0] && b[0] == c[0] {
        lemma_bytes_le_transitive(a.drop_first(), b.drop_first(), c.drop_first());
    }
}

proof fn lemma_bytes_le_connected(a: Seq<u8>, b: Seq<u8>)
    ensures
        bytes_le(a, b) || bytes_le(b, a),
    decreases a.len(),
{
    if a.len() > 0 && b.len() > 0 && a[0] == b[0] {
        lemma_bytes_le_connected(a.drop_first(), b.drop_first());
    }
}

/// Where two byte strings agree on their first `i` bytes, the rest decides their order.
proof fn lemma_bytes_le_after_common_prefix(a: Seq<u8>, b: Seq<u8>, i: int)
    requires
        0 <= i <= a.len(),
        i <= b.len(),
        forall|j: int| 0 <= j < i ==> a[j] == b[j],
    ensures
        bytes_le(a, b) == bytes_le(a.skip(i), b.skip(i)),
    decreases i,
{
    if i == 0 {
        assert(a.skip(0) =~= a);
        assert(b.skip(0) =~= b);
    } else {
        assert(a[0] == b[0]);
        lemma_bytes_le_after_common_prefix(a.drop_first(), b.drop_first(), i - 1);
        assert(a.drop_first().skip(i - 1) =~= a.skip(i));
        assert(b.drop_first().skip(i - 1) =~= b.skip(i));
    }
}

/// The order of keys is total: any two keys compare, and keys that compare both ways
/// are the same key.
pub proof fn lemma_key_order_total()
    ensures
        total_ordering(key_order()),
{
    let le = key_order();
    assert forall|x: Pubkey| #[trigger] le(x, x) by {
        lemma_bytes_le_reflexive(x@);
    }
    assert forall|x: Pubkey, y: Pubkey| #[trigger] le(x, y) && #[trigger] le(y, x) implies x
        == y by {
        lemma_bytes_le_antisymmetric(x@, y@);
        assert(x.0 =~= y.0);
    }
    assert forall|x: Pubkey, y: Pubkey, z: Pubkey| #[trigger] le(x, y) && #[trigger] le(
        y,
        z,
    ) implies le(x, z) by {
        lemma_bytes_le_transitive(x@, y@, z@);
    }
    assert forall|x: Pubkey, y: Pubkey| #[trigger] le(x, y) || #[trigger] le(y, x) by {
        lemma_bytes_le_connected(x@, y@);
    }
}

/// The same keys have one canonical list, in whatever order they were presented.
pub proof fn lemma_canonical_order_is_order_independent(
    first: Seq<Pubkey>,
    second: Seq<Pubkey>,
    sorted_first: Seq<Pubkey>,
    sorted_second: Seq<Pubkey>,
)
    requires
        first.to_multiset() == second.to_multiset(),
        canonical_of(first, sorted_first),
        canonical_of(second, sorted_second),
    ensures
        sorted_first == sorted_second,
{
    lemma_key_order_total();
    lemma_sorted_unique(sorted_first, sorted_second, key_order());
}

/// Whether `a` stands before `b`, or is the same key.
pub fn key_precedes(a: &Pubkey, b: &Pubkey) -> (le: bool)
    ensures
        le == key_le(*a, *b),
{
    let mut i: usize = 0;
    while i < 32
        invariant
            i <= 32,
            a@.len() == 32,
            b@.len() == 32,
            forall|j: int| 0 <= j < i ==> a@[j] == b@[j],
        decreases 32 - i,
    {
        if a.0[i] != b.0[i] {
            proof {
                lemma_bytes_le_after_common_prefix(a@, b@, i as int);
            }
            return a.0[i] < b.0[i];
        }
        i = i + 1;
    }
    proof {
        assert(a@ =~= b@);
        lemma_bytes_le_reflexive(a@);
    }
    true
}

/// The canonical list of the given keys. A key that is given twice stands twice.
pub fn canonical_order(keys: &[Pubkey]) -> (sorted: Vec<Pubkey>)
    ensures
        canonical_of(keys@, sorted@),
{
    let n: usize = keys.len();
    let mut sorted: Vec<Pubkey> = Vec::new();
    let mut i: usize = 0;
    assert(keys@.take(0) =~= Seq::<Pubkey>::empty());
    while i < n
        invariant
            i <= n,
            n == keys@.len(),
            canonical_of(keys@.take(i as int), sorted@),
        decreases n - i,
    {
        let key = keys[i];
        let m: usize = sorted.len();
        let mut at: usize = 0;
        while at < m && key_precedes(&sorted[at], &key)
            invariant
                at <= m,
                m == sorted@.len(),
                forall|j: int| 0 <= j < at ==> key_le(#[trigger] sorted@[j], key),
            decreases m - at,
        {
            at = at + 1;
        }
        let ghost before = sorted@;
        sorted.insert(at, key);
        proof {
            lemma_key_order_total();
            let le = key_order();
            // The key went in before the first key that does not precede it.
            if at < m {
                assert(le(before[at as int], key) || le(key, before[at as int]));
            }
            assert forall|x: int, y: int| 0 <= x < y < sorted@.len() implies #[trigger] le(
                sorted@[x],
                sorted@[y],
            ) by {
                if y == at {
                    assert(le(before[x], key));
                } else if x == at {
                    if y - 1 > at {
                        assert(le(before[at as int], before[y - 1]));
                    }
                    assert(le(key, before[y - 1]));
                } else {
                    let from_x = if x < at { x } else { x - 1 };
                    let from_y = if y < at { y } else { y - 1 };
                    assert(le(before[from_x], before[from_y]));
                }
            }
            to_multiset_insert(before, at as int, key);
            assert(keys@.take(i as int + 1) =~= keys@.take(i as int).push(key));
            to_multiset_build(keys@.take(i as int), key);
        }
        i = i + 1;
    }
    assert(keys@.take(n as int) =~= keys@);
    sorted
}

} // verus!
