//! Maps with insertion order, modelled as sequences of entries.
//!
//! The fixed-capacity maps of a game object and of a member are
//! `heapless::IndexMap`s. Their contents are named by spec functions below,
//! and each operation the library performs on them goes through a function
//! here whose contract states what the operation does to those contents.
use vstd::prelude::*;

verus! {

#[verifier::external_type_specification]
#[verifier::external_body]
#[verifier::reject_recursive_types(H)]
pub struct ExHash32BuildHasherDefault<H>(hash32::BuildHasherDefault<H>);

#[verifier::external_type_specification]
#[verifier::external_body]
pub struct ExHash32FnvHasher(hash32::FnvHasher);

#[verifier::external_type_specification]
#[verifier::external_body]
#[verifier::reject_recursive_types(K)]
#[verifier::reject_recursive_types(V)]
#[verifier::reject_recursive_types(S)]
pub struct ExHeaplessIndexMap<K, V, S, const N: usize>(heapless::IndexMap<K, V, S, N>);

/// Keys of a sequence of entries are pairwise distinct.
pub open spec fn unique_keys<K, V>(s: Seq<(K, V)>) -> bool {
    forall|i: int, j: int| 0 <= i < j < s.len() ==> #[trigger] s[i].0 != #[trigger] s[j].0
}

/// Some entry has the key.
pub open spec fn has_key<K, V>(s: Seq<(K, V)>, k: K) -> bool {
    exists|i: int| 0 <= i < s.len() && #[trigger] s[i].0 == k
}

/// Position of the entry with the key.
pub open spec fn index_of<K, V>(s: Seq<(K, V)>, k: K) -> int {
    choose|i: int| 0 <= i < s.len() && #[trigger] s[i].0 == k
}

/// Value of the entry with the key.
pub open spec fn lookup<K, V>(s: Seq<(K, V)>, k: K) -> Option<V> {
    if has_key(s, k) {
        Some(s[index_of(s, k)].1)
    } else {
        None
    }
}

/// Entries after an insertion: an entry with the key keeps its place and
/// takes the value; otherwise the entry goes last.
pub open spec fn inserted<K, V>(s: Seq<(K, V)>, k: K, v: V) -> Seq<(K, V)> {
    if has_key(s, k) {
        s.update(index_of(s, k), (k, v))
    } else {
        s.push((k, v))
    }
}

/// Entries after removing the key by swapping in the last entry.
pub open spec fn swap_removed<K, V>(s: Seq<(K, V)>, k: K) -> Seq<(K, V)> {
    if has_key(s, k) {
        s.update(index_of(s, k), s.last()).drop_last()
    } else {
        s
    }
}

/// Entries after removing the key and shifting the entries after it.
pub open spec fn shift_removed<K, V>(s: Seq<(K, V)>, k: K) -> Seq<(K, V)> {
    if has_key(s, k) {
        s.remove(index_of(s, k))
    } else {
        s
    }
}

/// The position of a key in entries with distinct keys is where it stands.
pub proof fn lemma_index_of<K, V>(s: Seq<(K, V)>, i: int)
    requires
        unique_keys(s),
        0 <= i < s.len(),
    ensures
        has_key(s, s[i].0),
        index_of(s, s[i].0) == i,
        lookup(s, s[i].0) == Some(s[i].1),
{
    assert(s[i].0 == s[i].0);
}

/// An insertion keeps keys distinct, and the key then has the value.
pub proof fn lemma_inserted<K, V>(s: Seq<(K, V)>, k: K, v: V)
    requires
        unique_keys(s),
    ensures
        unique_keys(inserted(s, k, v)),
        lookup(inserted(s, k, v), k) == Some(v),
        forall|k2: K| k2 != k ==> lookup(inserted(s, k, v), k2) == lookup(s, k2),
        inserted(s, k, v).len() == if has_key(s, k) { s.len() } else { s.len() + 1 },
{
    let t = inserted(s, k, v);
    if has_key(s, k) {
        let i = index_of(s, k);
        assert(t[i].0 == k);
        lemma_index_of(t, i);
        assert forall|k2: K| k2 != k implies lookup(t, k2) == lookup(s, k2) by {
            if has_key(s, k2) {
                let j = index_of(s, k2);
                assert(t[j] == s[j]);
                lemma_index_of(t, j);
            }
            if has_key(t, k2) {
                let j = index_of(t, k2);
                assert(t[j] == s[j]);
            }
        }
    } else {
        assert(t[s.len() as int].0 == k);
        lemma_index_of(t, s.len() as int);
        assert forall|k2: K| k2 != k implies lookup(t, k2) == lookup(s, k2) by {
            if has_key(s, k2) {
                let j = index_of(s, k2);
                assert(t[j] == s[j]);
                lemma_index_of(t, j);
            }
            if has_key(t, k2) {
                let j = index_of(t, k2);
                assert(t[j] == s[j]);
            }
        }
    }
}

/// A swap removal keeps keys distinct, and the key then has no value.
pub proof fn lemma_swap_removed<K, V>(s: Seq<(K, V)>, k: K)
    requires
        unique_keys(s),
    ensures
        unique_keys(swap_removed(s, k)),
        lookup(swap_removed(s, k), k) is None,
        forall|k2: K| k2 != k ==> lookup(swap_removed(s, k), k2) == lookup(s, k2),
        swap_removed(s, k).len() == if has_key(s, k) { s.len() - 1 } else { s.len() as int },
{
    let t = swap_removed(s, k);
    if has_key(s, k) {
        let i = index_of(s, k);
        let n = s.len() - 1;
        assert forall|a: int, b: int| 0 <= a < b < t.len() implies #[trigger] t[a].0 != #[trigger] t[b].0 by {
            let ia = if a == i { n } else { a };
            let ib = if b == i { n } else { b };
            assert(t[a] == s[ia]);
            assert(t[b] == s[ib]);
        }
        assert(!has_key(t, k)) by {
            if has_key(t, k) {
                let j = index_of(t, k);
                let ij = if j == i { n } else { j };
                assert(t[j] == s[ij]);
            }
        }
        assert forall|k2: K| k2 != k implies lookup(t, k2) == lookup(s, k2) by {
            if has_key(s, k2) {
                let j = index_of(s, k2);
                let jt = if j == n { i } else { j };
                assert(t[jt] == s[j]);
                lemma_index_of(t, jt);
            }
            if has_key(t, k2) {
                let j = index_of(t, k2);
                let ij = if j == i { n } else { j };
                assert(t[j] == s[ij]);
            }
        }
    }
}

/// A shift removal keeps keys distinct, and the key then has no value.
pub proof fn lemma_shift_removed<K, V>(s: Seq<(K, V)>, k: K)
    requires
        unique_keys(s),
    ensures
        unique_keys(shift_removed(s, k)),
        lookup(shift_removed(s, k), k) is None,
        forall|k2: K| k2 != k ==> lookup(shift_removed(s, k), k2) == lookup(s, k2),
        shift_removed(s, k).len() == if has_key(s, k) { s.len() - 1 } else { s.len() as int },
{
    let t = shift_removed(s, k);
    if has_key(s, k) {
        let i = index_of(s, k);
        assert forall|a: int, b: int| 0 <= a < b < t.len() implies #[trigger] t[a].0 != #[trigger] t[b].0 by {
            let ia = if a < i { a } else { a + 1 };
            let ib = if b < i { b } else { b + 1 };
            assert(t[a] == s[ia]);
            assert(t[b] == s[ib]);
        }
        assert(!has_key(t, k)) by {
            if has_key(t, k) {
                let j = index_of(t, k);
                let ij = if j < i { j } else { j + 1 };
                assert(t[j] == s[ij]);
            }
        }
        assert forall|k2: K| k2 != k implies lookup(t, k2) == lookup(s, k2) by {
            if has_key(s, k2) {
                let j = index_of(s, k2);
                let jt = if j < i { j } else { j - 1 };
                assert(t[jt] == s[j]);
                lemma_index_of(t, jt);
            }
            if has_key(t, k2) {
                let j = index_of(t, k2);
                let ij = if j < i { j } else { j + 1 };
                assert(t[j] == s[ij]);
            }
        }
    }
}

} // verus!
