//! Lists whose entries carry their own keys, read as maps from key to entry.
use vstd::prelude::*;

verus! {

/// The map from key to entry that a list with distinct keys stands for.
pub open spec fn table_map<K, V>(s: Seq<V>, key: spec_fn(V) -> K) -> Map<K, V>
    decreases s.len(),
{
    if s.len() == 0 {
        Map::empty()
    } else {
        table_map(s.drop_last(), key).insert(key(s.last()), s.last())
    }
}

/// No two entries share a key.
pub open spec fn keys_unique<K, V>(s: Seq<V>, key: spec_fn(V) -> K) -> bool {
    forall|i: int, j: int| 0 <= i < j < s.len() ==> key(#[trigger] s[i]) != key(#[trigger] s[j])
}

pub proof fn lemma_table_contains<K, V>(s: Seq<V>, key: spec_fn(V) -> K, k: K)
    ensures
        table_map(s, key).contains_key(k) <==> exists|i: int| 0 <= i < s.len() && key(s[i]) == k,
    decreases s.len(),
{
    if s.len() > 0 {
        lemma_table_contains(s.drop_last(), key, k);
        if table_map(s.drop_last(), key).contains_key(k) {
            let i = choose|i: int| 0 <= i < s.drop_last().len() && key(s.drop_last()[i]) == k;
            assert(key(s[i]) == k);
        }
        if exists|i: int| 0 <= i < s.len() && key(s[i]) == k {
            let i = choose|i: int| 0 <= i < s.len() && key(s[i]) == k;
            if i < s.len() - 1 {
                assert(key(s.drop_last()[i]) == k);
            }
        }
    }
}

pub proof fn lemma_table_index<K, V>(s: Seq<V>, key: spec_fn(V) -> K, i: int)
    requires
        keys_unique(s, key),
        0 <= i < s.len(),
    ensures
        table_map(s, key).contains_key(key(s[i])),
        table_map(s, key)[key(s[i])] == s[i],
    decreases s.len(),
{
    if i < s.len() - 1 {
        assert(s.drop_last()[i] == s[i]);
        lemma_table_index(s.drop_last(), key, i);
        assert(key(s[i]) != key(s.last()));
    }
}

pub proof fn lemma_table_push<K, V>(s: Seq<V>, key: spec_fn(V) -> K, v: V)
    requires
        keys_unique(s, key),
        !table_map(s, key).contains_key(key(v)),
    ensures
        keys_unique(s.push(v), key),
        table_map(s.push(v), key) == table_map(s, key).insert(key(v), v),
{
    assert(s.push(v).drop_last() =~= s);
    assert forall|i: int, j: int| 0 <= i < j < s.push(v).len() implies key(
        #[trigger] s.push(v)[i],
    ) != key(#[trigger] s.push(v)[j]) by {
        if j == s.len() {
            lemma_table_index(s, key, i);
        }
    }
}

pub proof fn lemma_table_update<K, V>(s: Seq<V>, key: spec_fn(V) -> K, i: int, v: V)
    requires
        keys_unique(s, key),
        0 <= i < s.len(),
        key(v) == key(s[i]),
    ensures
        keys_unique(s.update(i, v), key),
        table_map(s.update(i, v), key) == table_map(s, key).insert(key(v), v),
    decreases s.len(),
{
    let t = s.update(i, v);
    assert forall|a: int, b: int| 0 <= a < b < t.len() implies key(#[trigger] t[a]) != key(
        #[trigger] t[b],
    ) by {
        assert(key(t[a]) == key(s[a]));
        assert(key(t[b]) == key(s[b]));
    }
    if i == s.len() - 1 {
        assert(t.drop_last() =~= s.drop_last());
        assert(table_map(t, key) =~= table_map(s, key).insert(key(v), v));
    } else {
        assert(t.drop_last() =~= s.drop_last().update(i, v));
        assert(s.drop_last()[i] == s[i]);
        lemma_table_update(s.drop_last(), key, i, v);
        assert(key(s[i]) != key(s.last()));
        assert(table_map(t, key) =~= table_map(s, key).insert(key(v), v));
    }
}

pub proof fn lemma_table_remove<K, V>(s: Seq<V>, key: spec_fn(V) -> K, i: int)
    requires
        keys_unique(s, key),
        0 <= i < s.len(),
    ensures
        keys_unique(s.remove(i), key),
        table_map(s.remove(i), key) == table_map(s, key).remove(key(s[i])),
    decreases s.len(),
{
    let t = s.remove(i);
    assert forall|a: int, b: int| 0 <= a < b < t.len() implies key(#[trigger] t[a]) != key(
        #[trigger] t[b],
    ) by {
        let a2 = if a < i {
            a
        } else {
            a + 1
        };
        let b2 = if b < i {
            b
        } else {
            b + 1
        };
        assert(t[a] == s[a2]);
        assert(t[b] == s[b2]);
    }
    if i == s.len() - 1 {
        assert(t =~= s.drop_last());
        lemma_table_contains(s.drop_last(), key, key(s[i]));
        if table_map(s.drop_last(), key).contains_key(key(s[i])) {
            let j = choose|j: int|
                0 <= j < s.drop_last().len() && key(s.drop_last()[j]) == key(s[i]);
            assert(key(s[j]) == key(s[i]));
        }
        assert(table_map(t, key) =~= table_map(s, key).remove(key(s[i])));
    } else {
        assert(t.drop_last() =~= s.drop_last().remove(i));
        assert(t.last() == s.last());
        assert(s.drop_last()[i] == s[i]);
        lemma_table_remove(s.drop_last(), key, i);
        assert(key(s[i]) != key(s.last()));
        assert(table_map(t, key) =~= table_map(s, key).remove(key(s[i])));
    }
}

} // verus!
