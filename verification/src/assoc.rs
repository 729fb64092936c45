//! Association lists: sequences of key-value pairs read as finite maps.
//!
//! The executable ledger stores each of its tables as a vector of pairs whose
//! keys are pairwise distinct. The lemmas here say what appending a pair,
//! replacing a value and removing a pair do to the map that such a sequence
//! denotes.

use vstd::prelude::*;

verus! {

/// Whether some pair of `s` has the key `k`.
pub open spec fn has_key<K, V>(s: Seq<(K, V)>, k: K) -> bool {
    exists|i: int| 0 <= i < s.len() && (#[trigger] s[i]).0 == k
}

/// Whether no two pairs of `s` share a key.
pub open spec fn keys_distinct<K, V>(s: Seq<(K, V)>) -> bool {
    forall|i: int, j: int|
        0 <= i < s.len() && 0 <= j < s.len() && i != j ==> (#[trigger] s[i]).0 != (#[trigger] s[j]).0
}

/// A position at which `s` holds the key `k`, where there is one.
pub open spec fn position<K, V>(s: Seq<(K, V)>, k: K) -> int {
    choose|i: int| 0 <= i < s.len() && (#[trigger] s[i]).0 == k
}

/// The map that `s` denotes: each key of `s` with the value paired to it.
pub open spec fn to_map<K, V>(s: Seq<(K, V)>) -> Map<K, V> {
    Map::new(|k: K| has_key(s, k), |k: K| s[position(s, k)].1)
}

/// With distinct keys, the pair at position `i` is what the map holds for its key.
pub proof fn lemma_entry<K, V>(s: Seq<(K, V)>, i: int)
    requires
        keys_distinct(s),
        0 <= i < s.len(),
    ensures
        has_key(s, s[i].0),
        position(s, s[i].0) == i,
        to_map(s).dom().contains(s[i].0),
        to_map(s)[s[i].0] == s[i].1,
{
    let k = s[i].0;
    assert(has_key(s, k));
    let p = position(s, k);
    assert(0 <= p < s.len() && s[p].0 == k);
}

/// Appending a pair with a new key inserts it into the map.
pub proof fn lemma_push<K, V>(s: Seq<(K, V)>, k: K, v: V)
    requires
        keys_distinct(s),
        !has_key(s, k),
    ensures
        keys_distinct(s.push((k, v))),
        to_map(s.push((k, v))) == to_map(s).insert(k, v),
{
    let t = s.push((k, v));
    assert forall|i: int, j: int| 0 <= i < t.len() && 0 <= j < t.len() && i != j implies (#[trigger] t[i]).0
        != (#[trigger] t[j]).0 by {
        if i < s.len() {
            assert(t[i] == s[i]);
        }
        if j < s.len() {
            assert(t[j] == s[j]);
        }
    }
    assert forall|x: K| #[trigger] has_key(t, x) <==> (x == k || has_key(s, x)) by {
        if has_key(t, x) {
            let p = position(t, x);
            if p < s.len() {
                assert(s[p].0 == x);
            }
        }
        if has_key(s, x) {
            let p = position(s, x);
            assert(t[p].0 == x);
        }
        if x == k {
            assert(t[s.len() as int].0 == k);
        }
    }
    assert forall|x: K| has_key(t, x) implies #[trigger] to_map(t)[x] == to_map(s).insert(k, v)[x] by {
        let p = position(t, x);
        lemma_entry(t, p);
        if x != k {
            assert(p < s.len());
            lemma_entry(s, p);
        } else {
            lemma_entry(t, s.len() as int);
        }
    }
    assert(to_map(t) =~= to_map(s).insert(k, v));
}

/// Replacing the value at position `i` replaces it in the map.
pub proof fn lemma_update<K, V>(s: Seq<(K, V)>, i: int, v: V)
    requires
        keys_distinct(s),
        0 <= i < s.len(),
    ensures
        keys_distinct(s.update(i, (s[i].0, v))),
        to_map(s.update(i, (s[i].0, v))) == to_map(s).insert(s[i].0, v),
{
    let k = s[i].0;
    let t = s.update(i, (k, v));
    assert forall|a: int| 0 <= a < t.len() implies (#[trigger] t[a]).0 == s[a].0 by {}
    assert forall|a: int, b: int| 0 <= a < t.len() && 0 <= b < t.len() && a != b implies (#[trigger] t[a]).0
        != (#[trigger] t[b]).0 by {
        assert(t[a].0 == s[a].0 && t[b].0 == s[b].0);
    }
    assert forall|x: K| #[trigger] has_key(t, x) <==> has_key(s, x) by {
        if has_key(t, x) {
            let p = position(t, x);
            assert(s[p].0 == x);
        }
        if has_key(s, x) {
            let p = position(s, x);
            assert(t[p].0 == x);
        }
    }
    lemma_entry(s, i);
    assert forall|x: K| has_key(t, x) implies #[trigger] to_map(t)[x] == to_map(s).insert(k, v)[x] by {
        let p = position(t, x);
        lemma_entry(t, p);
        lemma_entry(s, p);
    }
    assert(to_map(t) =~= to_map(s).insert(k, v));
}

/// Moving the last pair into position `i` and dropping the last position
/// removes the key that stood at `i` from the map.
pub proof fn lemma_swap_remove<K, V>(s: Seq<(K, V)>, i: int)
    requires
        keys_distinct(s),
        0 <= i < s.len(),
    ensures
        keys_distinct(s.update(i, s.last()).drop_last()),
        to_map(s.update(i, s.last()).drop_last()) == to_map(s).remove(s[i].0),
{
    let k = s[i].0;
    let n = s.len() - 1;
    let t = s.update(i, s.last()).drop_last();
    // Where each position of `t` comes from in `s`.
    let origin = |a: int| if a == i { n } else { a };
    assert forall|a: int| 0 <= a < t.len() implies #[trigger] t[a] == s[origin(a)] by {}
    assert forall|a: int, b: int| 0 <= a < t.len() && 0 <= b < t.len() && a != b implies (#[trigger] t[a]).0
        != (#[trigger] t[b]).0 by {
        assert(t[a] == s[origin(a)] && t[b] == s[origin(b)]);
        assert(origin(a) != origin(b));
    }
    assert forall|x: K| #[trigger] has_key(t, x) <==> (x != k && has_key(s, x)) by {
        if has_key(t, x) {
            let p = position(t, x);
            assert(t[p] == s[origin(p)]);
            assert(s[origin(p)].0 == x);
            assert(origin(p) != i);
        }
        if x != k && has_key(s, x) {
            let p = position(s, x);
            if p == n {
                assert(t[i].0 == x);
            } else {
                assert(t[p].0 == x);
            }
        }
    }
    assert forall|x: K| has_key(t, x) implies #[trigger] to_map(t)[x] == to_map(s).remove(k)[x] by {
        let p = position(t, x);
        lemma_entry(t, p);
        lemma_entry(s, origin(p));
    }
    assert(to_map(t) =~= to_map(s).remove(k));
}

/// A sequence with distinct keys denotes a finite map with one key per pair.
pub proof fn lemma_size<K, V>(s: Seq<(K, V)>)
    requires
        keys_distinct(s),
    ensures
        to_map(s).dom().finite(),
        to_map(s).dom().len() == s.len(),
    decreases s.len(),
{
    if s.len() == 0 {
        assert(to_map(s).dom() =~= Set::<K>::empty());
    } else {
        let r = s.drop_last();
        let (k, v) = s.last();
        assert forall|a: int, b: int| 0 <= a < r.len() && 0 <= b < r.len() && a != b implies (#[trigger] r[a]).0
            != (#[trigger] r[b]).0 by {
            assert(r[a] == s[a] && r[b] == s[b]);
        }
        if has_key(r, k) {
            let p = position(r, k);
            assert(s[p].0 == k);
            assert(s[s.len() - 1].0 == k);
        }
        lemma_size(r);
        lemma_push(r, k, v);
        assert(r.push((k, v)) =~= s);
        assert(to_map(s).dom() =~= to_map(r).dom().insert(k));
    }
}

/// The empty sequence denotes the empty map.
pub proof fn lemma_empty<K, V>()
    ensures
        keys_distinct(Seq::<(K, V)>::empty()),
        to_map(Seq::<(K, V)>::empty()) == Map::<K, V>::empty(),
{
    assert(to_map(Seq::<(K, V)>::empty()) =~= Map::<K, V>::empty());
}

} // verus!
