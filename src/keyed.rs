//! A sequence of records with unique keys, read as a map from key to value.
use vstd::prelude::*;

verus! {

/// The map that a sequence of keyed records stands for: a later record wins.
pub open spec fn keyed_map<E, K, V>(s: Seq<E>, key: spec_fn(E) -> K, val: spec_fn(E) -> V) -> Map<K, V>
    decreases s.len(),
{
    if s.len() == 0 {
        Map::empty()
    } else {
        keyed_map(s.drop_last(), key, val).insert(key(s.last()), val(s.last()))
    }
}

/// No two records of the sequence share a key.
pub open spec fn keys_unique<E, K>(s: Seq<E>, key: spec_fn(E) -> K) -> bool {
    forall|i: int, j: int| 0 <= i < s.len() && 0 <= j < s.len() && i != j ==> key(s[i]) != key(s[j])
}

pub proof fn lemma_keyed_absent<E, K, V>(s: Seq<E>, key: spec_fn(E) -> K, val: spec_fn(E) -> V, k: K)
    requires
        forall|i: int| 0 <= i < s.len() ==> key(#[trigger] s[i]) != k,
    ensures
        !keyed_map(s, key, val).contains_key(k),
    decreases s.len(),
{
    if s.len() > 0 {
        assert(key(s[s.len() - 1]) != k);
        lemma_keyed_absent(s.drop_last(), key, val, k);
    }
}

pub proof fn lemma_keyed_present<E, K, V>(s: Seq<E>, key: spec_fn(E) -> K, val: spec_fn(E) -> V, k: K)
    requires
        exists|i: int| 0 <= i < s.len() && key(#[trigger] s[i]) == k,
    ensures
        keyed_map(s, key, val).contains_key(k),
    decreases s.len(),
{
    if key(s.last()) != k {
        let i = choose|i: int| 0 <= i < s.len() && key(#[trigger] s[i]) == k;
        assert(s.drop_last()[i] == s[i]);
        lemma_keyed_present(s.drop_last(), key, val, k);
    }
}

pub proof fn lemma_keyed_index<E, K, V>(s: Seq<E>, key: spec_fn(E) -> K, val: spec_fn(E) -> V, i: int)
    requires
        keys_unique(s, key),
        0 <= i < s.len(),
    ensures
        keyed_map(s, key, val).contains_key(key(s[i])),
        keyed_map(s, key, val)[key(s[i])] == val(s[i]),
    decreases s.len(),
{
    if i != s.len() - 1 {
        let d = s.drop_last();
        assert(d[i] == s[i]);
        assert(keys_unique(d, key)) by {
            assert forall|a: int, b: int| 0 <= a < d.len() && 0 <= b < d.len() && a != b implies key(
                d[a],
            ) != key(d[b]) by {
                assert(d[a] == s[a] && d[b] == s[b]);
            }
        }
        assert(key(s[i]) != key(s[s.len() - 1]));
        lemma_keyed_index(d, key, val, i);
    }
}

pub proof fn lemma_keyed_push<E, K, V>(s: Seq<E>, key: spec_fn(E) -> K, val: spec_fn(E) -> V, e: E)
    ensures
        keyed_map(s.push(e), key, val) == keyed_map(s, key, val).insert(key(e), val(e)),
{
    assert(s.push(e).drop_last() =~= s);
}

proof fn lemma_unique_drop_last<E, K>(s: Seq<E>, key: spec_fn(E) -> K)
    requires
        keys_unique(s, key),
        s.len() > 0,
    ensures
        keys_unique(s.drop_last(), key),
        forall|i: int| 0 <= i < s.len() - 1 ==> key(#[trigger] s.drop_last()[i]) != key(s.last()),
{
    let d = s.drop_last();
    assert forall|a: int, b: int| 0 <= a < d.len() && 0 <= b < d.len() && a != b implies key(d[a]) != key(
        d[b],
    ) by {
        assert(d[a] == s[a] && d[b] == s[b]);
    }
    assert forall|i: int| 0 <= i < s.len() - 1 implies key(#[trigger] d[i]) != key(s.last()) by {
        assert(d[i] == s[i]);
    }
}

pub proof fn lemma_keyed_update<E, K, V>(s: Seq<E>, key: spec_fn(E) -> K, val: spec_fn(E) -> V, i: int, e: E)
    requires
        keys_unique(s, key),
        0 <= i < s.len(),
        key(e) == key(s[i]),
    ensures
        keyed_map(s.update(i, e), key, val) == keyed_map(s, key, val).insert(key(e), val(e)),
        keys_unique(s.update(i, e), key),
    decreases s.len(),
{
    let u = s.update(i, e);
    assert forall|a: int, b: int| 0 <= a < u.len() && 0 <= b < u.len() && a != b implies key(u[a]) != key(
        u[b],
    ) by {
        assert(key(u[a]) == key(s[a]) && key(u[b]) == key(s[b]));
    }
    let d = s.drop_last();
    lemma_unique_drop_last(s, key);
    if i == s.len() - 1 {
        assert(u.drop_last() =~= d);
        assert(keyed_map(u, key, val) =~= keyed_map(s, key, val).insert(key(e), val(e)));
    } else {
        assert(u.drop_last() =~= d.update(i, e));
        assert(d[i] == s[i]);
        lemma_keyed_update(d, key, val, i, e);
        assert(key(e) != key(s.last()));
        assert(keyed_map(u, key, val) =~= keyed_map(s, key, val).insert(key(e), val(e)));
    }
}

pub proof fn lemma_keyed_remove<E, K, V>(s: Seq<E>, key: spec_fn(E) -> K, val: spec_fn(E) -> V, i: int)
    requires
        keys_unique(s, key),
        0 <= i < s.len(),
    ensures
        keyed_map(s.remove(i), key, val) == keyed_map(s, key, val).remove(key(s[i])),
        keys_unique(s.remove(i), key),
    decreases s.len(),
{
    let r = s.remove(i);
    assert forall|a: int, b: int| 0 <= a < r.len() && 0 <= b < r.len() && a != b implies key(r[a]) != key(
        r[b],
    ) by {
        let a2 = if a < i { a } else { a + 1 };
        let b2 = if b < i { b } else { b + 1 };
        assert(r[a] == s[a2] && r[b] == s[b2]);
    }
    let d = s.drop_last();
    lemma_unique_drop_last(s, key);
    if i == s.len() - 1 {
        assert(r =~= d);
        lemma_keyed_absent(d, key, val, key(s[i]));
        assert(keyed_map(r, key, val) =~= keyed_map(s, key, val).remove(key(s[i])));
    } else {
        assert(r.drop_last() =~= d.remove(i));
        assert(r.last() == s.last());
        assert(d[i] == s[i]);
        lemma_keyed_remove(d, key, val, i);
        assert(key(s[i]) != key(s.last()));
        assert(keyed_map(r, key, val) =~= keyed_map(s, key, val).remove(key(s[i])));
    }
}

pub proof fn lemma_keyed_value<E, K, V>(s: Seq<E>, key: spec_fn(E) -> K, val: spec_fn(E) -> V, k: K)
    requires
        keyed_map(s, key, val).contains_key(k),
    ensures
        exists|i: int| 0 <= i < s.len() && key(#[trigger] s[i]) == k && val(s[i]) == keyed_map(s, key, val)[k],
    decreases s.len(),
{
    if key(s.last()) == k {
        assert(key(s[s.len() - 1]) == k);
    } else {
        lemma_keyed_value(s.drop_last(), key, val, k);
        let i = choose|i: int|
            0 <= i < s.drop_last().len() && key(#[trigger] s.drop_last()[i]) == k && val(s.drop_last()[i])
                == keyed_map(s.drop_last(), key, val)[k];
        assert(s[i] == s.drop_last()[i]);
    }
}

pub proof fn lemma_keyed_len<E, K, V>(s: Seq<E>, key: spec_fn(E) -> K, val: spec_fn(E) -> V)
    requires
        keys_unique(s, key),
    ensures
        keyed_map(s, key, val).dom().finite(),
        keyed_map(s, key, val).len() == s.len(),
    decreases s.len(),
{
    if s.len() > 0 {
        let d = s.drop_last();
        assert(keys_unique(d, key)) by {
            assert forall|a: int, b: int| 0 <= a < d.len() && 0 <= b < d.len() && a != b implies key(d[a]) != key(
                d[b],
            ) by {
                assert(d[a] == s[a] && d[b] == s[b]);
            }
        }
        assert forall|i: int| 0 <= i < d.len() implies key(#[trigger] d[i]) != key(s.last()) by {
            assert(d[i] == s[i]);
        }
        lemma_keyed_len(d, key, val);
        lemma_keyed_absent(d, key, val, key(s.last()));
        assert(keyed_map(s, key, val).dom() == keyed_map(d, key, val).dom().insert(key(s.last())));
    }
}

} // verus!
