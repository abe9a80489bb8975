//! Lists of key-value pairs with distinct keys, seen as maps.
//!
//! The keys are compared through a spec function (the view of a string, or
//! the key itself), so one set of lemmas serves every list in the library.

use vstd::prelude::*;

verus! {

/// No two pairs share a key.
pub open spec fn keys_unique<K, V, KV>(pairs: Seq<(K, V)>, key: spec_fn(K) -> KV) -> bool {
    forall|i: int, j: int|
        0 <= i < pairs.len() && 0 <= j < pairs.len() && i != j ==> key(pairs[i].0) != key(
            pairs[j].0,
        )
}

/// Some pair has the key.
pub open spec fn has_key<K, V, KV>(pairs: Seq<(K, V)>, key: spec_fn(K) -> KV, k: KV) -> bool {
    exists|i: int| 0 <= i < pairs.len() && #[trigger] key(pairs[i].0) == k
}

/// The index of a pair with the key.
pub open spec fn index_of<K, V, KV>(pairs: Seq<(K, V)>, key: spec_fn(K) -> KV, k: KV) -> int {
    choose|i: int| 0 <= i < pairs.len() && #[trigger] key(pairs[i].0) == k
}

/// The map that the pairs describe.
pub open spec fn assoc_map<K, V, KV>(pairs: Seq<(K, V)>, key: spec_fn(K) -> KV) -> Map<KV, V> {
    Map::new(|k: KV| has_key(pairs, key, k), |k: KV| pairs[index_of(pairs, key, k)].1)
}

/// With unique keys, the pair at `i` gives the value of its key.
pub proof fn lemma_assoc_at<K, V, KV>(pairs: Seq<(K, V)>, key: spec_fn(K) -> KV, i: int)
    requires
        keys_unique(pairs, key),
        0 <= i < pairs.len(),
    ensures
        has_key(pairs, key, key(pairs[i].0)),
        index_of(pairs, key, key(pairs[i].0)) == i,
        assoc_map(pairs, key).contains_key(key(pairs[i].0)),
        assoc_map(pairs, key)[key(pairs[i].0)] == pairs[i].1,
{
    let k = key(pairs[i].0);
    assert(has_key(pairs, key, k));
    let j = index_of(pairs, key, k);
    assert(key(pairs[j].0) == k);
}

/// The empty list is the empty map.
pub proof fn lemma_assoc_empty<K, V, KV>(pairs: Seq<(K, V)>, key: spec_fn(K) -> KV)
    requires
        pairs.len() == 0,
    ensures
        keys_unique(pairs, key),
        assoc_map(pairs, key) == Map::<KV, V>::empty(),
{
    assert(assoc_map(pairs, key) =~= Map::<KV, V>::empty());
}

/// Removing the pair at `i` removes its key from the map.
pub proof fn lemma_assoc_remove<K, V, KV>(pairs: Seq<(K, V)>, key: spec_fn(K) -> KV, i: int)
    requires
        keys_unique(pairs, key),
        0 <= i < pairs.len(),
    ensures
        keys_unique(pairs.remove(i), key),
        assoc_map(pairs.remove(i), key) == assoc_map(pairs, key).remove(key(pairs[i].0)),
{
    let rest = pairs.remove(i);
    let removed = key(pairs[i].0);
    assert forall|a: int, b: int|
        0 <= a < rest.len() && 0 <= b < rest.len() && a != b implies key(rest[a].0) != key(
            rest[b].0,
        ) by {
        let a0 = if a < i { a } else { a + 1 };
        let b0 = if b < i { b } else { b + 1 };
        assert(rest[a] == pairs[a0]);
        assert(rest[b] == pairs[b0]);
    }
    let m = assoc_map(pairs, key).remove(removed);
    let r = assoc_map(rest, key);
    assert forall|k: KV| #[trigger] r.contains_key(k) <==> m.contains_key(k) by {
        if r.contains_key(k) {
            let a = index_of(rest, key, k);
            let a0 = if a < i { a } else { a + 1 };
            assert(rest[a] == pairs[a0]);
            assert(key(pairs[a0].0) == k);
            assert(has_key(pairs, key, k));
        }
        if m.contains_key(k) {
            let a0 = index_of(pairs, key, k);
            assert(a0 != i);
            let a = if a0 < i { a0 } else { a0 - 1 };
            assert(rest[a] == pairs[a0]);
            assert(key(rest[a].0) == k);
            assert(has_key(rest, key, k));
        }
    }
    assert forall|k: KV| #[trigger] r.contains_key(k) implies r[k] == m[k] by {
        let a = index_of(rest, key, k);
        let a0 = if a < i { a } else { a + 1 };
        assert(rest[a] == pairs[a0]);
        lemma_assoc_at(rest, key, a);
        lemma_assoc_at(pairs, key, a0);
    }
    assert(r =~= m);
}

/// Appending a pair with a new key adds it to the map.
pub proof fn lemma_assoc_push<K, V, KV>(pairs: Seq<(K, V)>, key: spec_fn(K) -> KV, k: K, v: V)
    requires
        keys_unique(pairs, key),
        !has_key(pairs, key, key(k)),
    ensures
        keys_unique(pairs.push((k, v)), key),
        assoc_map(pairs.push((k, v)), key) == assoc_map(pairs, key).insert(key(k), v),
{
    let s = pairs.push((k, v));
    let n = pairs.len() as int;
    assert forall|a: int, b: int|
        0 <= a < s.len() && 0 <= b < s.len() && a != b implies key(s[a].0) != key(s[b].0) by {
        if a == n {
            assert(s[b] == pairs[b]);
        } else if b == n {
            assert(s[a] == pairs[a]);
        } else {
            assert(s[a] == pairs[a]);
            assert(s[b] == pairs[b]);
        }
    }
    let m = assoc_map(pairs, key).insert(key(k), v);
    let r = assoc_map(s, key);
    assert forall|x: KV| #[trigger] r.contains_key(x) <==> m.contains_key(x) by {
        if r.contains_key(x) && x != key(k) {
            let a = index_of(s, key, x);
            assert(a != n);
            assert(s[a] == pairs[a]);
            assert(has_key(pairs, key, x));
        }
        if m.contains_key(x) {
            if x == key(k) {
                assert(key(s[n].0) == x);
            } else {
                let a = index_of(pairs, key, x);
                assert(s[a] == pairs[a]);
                assert(key(s[a].0) == x);
            }
        }
    }
    assert forall|x: KV| #[trigger] r.contains_key(x) implies r[x] == m[x] by {
        let a = index_of(s, key, x);
        lemma_assoc_at(s, key, a);
        if a < n {
            assert(s[a] == pairs[a]);
            lemma_assoc_at(pairs, key, a);
        }
    }
    assert(r =~= m);
}

/// Replacing the value of the pair at `i` updates its key in the map.
pub proof fn lemma_assoc_update<K, V, KV>(pairs: Seq<(K, V)>, key: spec_fn(K) -> KV, i: int, v: V)
    requires
        keys_unique(pairs, key),
        0 <= i < pairs.len(),
    ensures
        keys_unique(pairs.update(i, (pairs[i].0, v)), key),
        assoc_map(pairs.update(i, (pairs[i].0, v)), key) == assoc_map(pairs, key).insert(
            key(pairs[i].0),
            v,
        ),
{
    let k = pairs[i].0;
    lemma_assoc_remove(pairs, key, i);
    let rest = pairs.remove(i);
    assert(!has_key(rest, key, key(k))) by {
        if has_key(rest, key, key(k)) {
            lemma_assoc_at(pairs, key, i);
            assert(!assoc_map(pairs, key).remove(key(k)).contains_key(key(k)));
        }
    }
    lemma_assoc_push(rest, key, k, v);
    let s = pairs.update(i, (k, v));
    let t = rest.push((k, v));
    // `s` and `t` hold the same pairs, in another order.
    assert forall|a: int, b: int|
        0 <= a < s.len() && 0 <= b < s.len() && a != b implies key(s[a].0) != key(s[b].0) by {
        assert(s[a].0 == pairs[a].0);
        assert(s[b].0 == pairs[b].0);
    }
    let ms = assoc_map(s, key);
    let mt = assoc_map(t, key);
    assert forall|x: KV| #[trigger] ms.contains_key(x) <==> mt.contains_key(x) by {
        if ms.contains_key(x) {
            let a = index_of(s, key, x);
            if a == i {
                assert(key(t[t.len() - 1].0) == x);
            } else {
                let b = if a < i { a } else { a - 1 };
                assert(t[b] == pairs[a]);
                assert(key(t[b].0) == x);
            }
        }
        if mt.contains_key(x) {
            let b = index_of(t, key, x);
            if b == t.len() - 1 {
                assert(key(s[i].0) == x);
            } else {
                let a = if b < i { b } else { b + 1 };
                assert(t[b] == pairs[a]);
                assert(s[a] == pairs[a]);
                assert(key(s[a].0) == x);
            }
        }
    }
    assert forall|x: KV| #[trigger] ms.contains_key(x) implies ms[x] == mt[x] by {
        let a = index_of(s, key, x);
        lemma_assoc_at(s, key, a);
        if a == i {
            lemma_assoc_at(t, key, t.len() - 1);
        } else {
            let b = if a < i { a } else { a - 1 };
            assert(t[b] == pairs[a]);
            assert(s[a] == pairs[a]);
            lemma_assoc_at(t, key, b);
        }
    }
    assert(ms =~= mt);
}

/// Lists of lists: each outer key unique, and each inner list's keys unique.
pub open spec fn nested_wf<K, K2, V, KV, KV2>(
    pairs: Seq<(K, Vec<(K2, V)>)>,
    outer: spec_fn(K) -> KV,
    inner: spec_fn(K2) -> KV2,
) -> bool {
    &&& keys_unique(pairs, outer)
    &&& forall|i: int| 0 <= i < pairs.len() ==> keys_unique(#[trigger] pairs[i].1@, inner)
}

/// The map of maps that a list of lists describes.
pub open spec fn nested_map<K, K2, V, KV, KV2>(
    pairs: Seq<(K, Vec<(K2, V)>)>,
    outer: spec_fn(K) -> KV,
    inner: spec_fn(K2) -> KV2,
) -> Map<KV, Map<KV2, V>> {
    assoc_map(pairs, outer).map_values(|list: Vec<(K2, V)>| assoc_map(list@, inner))
}

/// The inner list at `i` gives the map of its outer key.
pub proof fn lemma_nested_at<K, K2, V, KV, KV2>(
    pairs: Seq<(K, Vec<(K2, V)>)>,
    outer: spec_fn(K) -> KV,
    inner: spec_fn(K2) -> KV2,
    i: int,
)
    requires
        nested_wf(pairs, outer, inner),
        0 <= i < pairs.len(),
    ensures
        nested_map(pairs, outer, inner).contains_key(outer(pairs[i].0)),
        nested_map(pairs, outer, inner)[outer(pairs[i].0)] == assoc_map(pairs[i].1@, inner),
        !has_key(pairs.remove(i), outer, outer(pairs[i].0)),
{
    lemma_assoc_at(pairs, outer, i);
    lemma_assoc_remove(pairs, outer, i);
    let rest = pairs.remove(i);
    if has_key(rest, outer, outer(pairs[i].0)) {
        let j = index_of(rest, outer, outer(pairs[i].0));
        assert(assoc_map(rest, outer).contains_key(outer(pairs[i].0)));
    }
}

/// Removing the inner list at `i` removes its outer key.
pub proof fn lemma_nested_remove<K, K2, V, KV, KV2>(
    pairs: Seq<(K, Vec<(K2, V)>)>,
    outer: spec_fn(K) -> KV,
    inner: spec_fn(K2) -> KV2,
    i: int,
)
    requires
        nested_wf(pairs, outer, inner),
        0 <= i < pairs.len(),
    ensures
        nested_wf(pairs.remove(i), outer, inner),
        nested_map(pairs.remove(i), outer, inner) == nested_map(pairs, outer, inner).remove(
            outer(pairs[i].0),
        ),
{
    lemma_assoc_remove(pairs, outer, i);
    let rest = pairs.remove(i);
    assert forall|j: int| 0 <= j < rest.len() implies keys_unique(#[trigger] rest[j].1@, inner) by {
        let j0 = if j < i {
            j
        } else {
            j + 1
        };
        assert(rest[j] == pairs[j0]);
    }
    assert(nested_map(rest, outer, inner) =~= nested_map(pairs, outer, inner).remove(
        outer(pairs[i].0),
    ));
}

/// Appending an inner list under a new outer key adds it.
pub proof fn lemma_nested_push<K, K2, V, KV, KV2>(
    pairs: Seq<(K, Vec<(K2, V)>)>,
    outer: spec_fn(K) -> KV,
    inner: spec_fn(K2) -> KV2,
    k: K,
    list: Vec<(K2, V)>,
)
    requires
        nested_wf(pairs, outer, inner),
        !has_key(pairs, outer, outer(k)),
        keys_unique(list@, inner),
    ensures
        nested_wf(pairs.push((k, list)), outer, inner),
        nested_map(pairs.push((k, list)), outer, inner) == nested_map(pairs, outer, inner).insert(
            outer(k),
            assoc_map(list@, inner),
        ),
{
    lemma_assoc_push(pairs, outer, k, list);
    let s = pairs.push((k, list));
    assert forall|j: int| 0 <= j < s.len() implies keys_unique(#[trigger] s[j].1@, inner) by {
        if j < pairs.len() {
            assert(s[j] == pairs[j]);
        }
    }
    assert(nested_map(s, outer, inner) =~= nested_map(pairs, outer, inner).insert(
        outer(k),
        assoc_map(list@, inner),
    ));
}

} // verus!
