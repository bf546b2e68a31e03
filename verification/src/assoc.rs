//! Association lists: sequences of key-value pairs read as maps, in the
//! order in which their keys were first inserted.

use vstd::prelude::*;

verus! {

/// Position of the first entry of `m` whose key is `k`, or -1.
pub open spec fn key_index<K, V>(m: Seq<(K, V)>, k: K) -> int
    decreases m.len(),
{
    if m.len() == 0 {
        -1
    } else if m[0].0 == k {
        0
    } else {
        let r = key_index(m.drop_first(), k);
        if r < 0 { -1 } else { r + 1 }
    }
}

/// The value under `k`, if any.
pub open spec fn lookup<K, V>(m: Seq<(K, V)>, k: K) -> Option<V> {
    let i = key_index(m, k);
    if i < 0 { None } else { Some(m[i].1) }
}

/// The entry under `k` takes the value `v`, in place when the key is present
/// and at the end otherwise.
pub open spec fn upsert<K, V>(m: Seq<(K, V)>, k: K, v: V) -> Seq<(K, V)> {
    let i = key_index(m, k);
    if i < 0 { m.push((k, v)) } else { m.update(i, (k, v)) }
}

/// The entry under `k`, if any, is taken out; the others keep their order.
pub open spec fn remove_key<K, V>(m: Seq<(K, V)>, k: K) -> Seq<(K, V)> {
    let i = key_index(m, k);
    if i < 0 { m } else { m.remove(i) }
}

/// No key occurs twice.
pub open spec fn keys_unique<K, V>(m: Seq<(K, V)>) -> bool {
    forall|i: int, j: int| 0 <= i < m.len() && 0 <= j < m.len() && i != j ==> m[i].0 != m[j].0
}

pub proof fn lemma_key_index<K, V>(m: Seq<(K, V)>, k: K)
    ensures
        -1 <= key_index(m, k) < m.len(),
        key_index(m, k) == -1 <==> forall|j: int| 0 <= j < m.len() ==> m[j].0 != k,
        key_index(m, k) >= 0 ==> m[key_index(m, k)].0 == k,
        forall|j: int| 0 <= j < key_index(m, k) ==> m[j].0 != k,
    decreases m.len(),
{
    if m.len() > 0 {
        lemma_key_index(m.drop_first(), k);
        assert forall|j: int| 1 <= j < m.len() implies m[j] == m.drop_first()[j - 1] by {}
    }
}

/// Where keys are unique, the entry that holds a key is the one `key_index`
/// finds.
pub proof fn lemma_unique_index<K, V>(m: Seq<(K, V)>, j: int)
    requires
        keys_unique(m),
        0 <= j < m.len(),
    ensures
        key_index(m, m[j].0) == j,
{
    lemma_key_index(m, m[j].0);
}

pub proof fn lemma_upsert_keeps_keys<K, V>(m: Seq<(K, V)>, k: K, v: V, k2: K)
    ensures
        key_index(upsert(m, k, v), k) >= 0,
        key_index(m, k2) >= 0 ==> key_index(upsert(m, k, v), k2) >= 0,
{
    let u = upsert(m, k, v);
    lemma_key_index(m, k);
    lemma_key_index(m, k2);
    lemma_key_index(u, k);
    lemma_key_index(u, k2);
    let i = key_index(m, k);
    if i < 0 {
        assert(u[m.len() as int].0 == k);
    } else {
        assert(u[i].0 == k);
    }
    if key_index(m, k2) >= 0 {
        let j = key_index(m, k2);
        assert(u[j].0 == k2);
    }
}

/// Reading back an insertion: the inserted key gives the inserted value, and
/// every other key what it gave before. Unique keys stay unique.
pub proof fn lemma_upsert_lookup<K, V>(m: Seq<(K, V)>, k: K, v: V, k2: K)
    ensures
        lookup(upsert(m, k, v), k2) == if k2 == k { Some(v) } else { lookup(m, k2) },
        keys_unique(m) ==> keys_unique(upsert(m, k, v)),
{
    let u = upsert(m, k, v);
    lemma_key_index(m, k);
    lemma_key_index(m, k2);
    lemma_key_index(u, k2);
    let i = key_index(m, k);
    if k2 == k {
        lemma_upsert_keeps_keys(m, k, v, k2);
        if i >= 0 {
            assert(u[i].0 == k);
        } else {
            assert(u[m.len() as int].0 == k);
        }
    } else {
        let j = key_index(m, k2);
        if j >= 0 {
            assert(u[j].0 == k2);
        } else {
            assert forall|x: int| 0 <= x < u.len() implies u[x].0 != k2 by {
                if x < m.len() && x != i {
                    assert(u[x] == m[x]);
                }
            }
        }
    }
}

/// Reading back a removal: the removed key gives nothing, and every other
/// key what it gave before. Unique keys stay unique.
pub proof fn lemma_remove_lookup<K, V>(m: Seq<(K, V)>, k: K, k2: K)
    requires
        keys_unique(m),
    ensures
        lookup(remove_key(m, k), k2) == if k2 == k { None } else { lookup(m, k2) },
        keys_unique(remove_key(m, k)),
{
    let r = remove_key(m, k);
    let i = key_index(m, k);
    lemma_key_index(m, k);
    lemma_key_index(m, k2);
    lemma_key_index(r, k2);
    if i >= 0 {
        assert forall|x: int| 0 <= x < r.len() implies r[x] == (if x < i { m[x] } else { m[x + 1] })
            by {}
        if k2 == k {
            assert forall|x: int| 0 <= x < r.len() implies r[x].0 != k2 by {
                if x >= i {
                    assert(r[x] == m[x + 1]);
                }
            }
        } else {
            let j = key_index(m, k2);
            if j >= 0 {
                let jr = if j < i { j } else { j - 1 };
                assert(r[jr] == m[j]);
                lemma_key_index(r, k2);
                if key_index(r, k2) < jr {
                    let y = key_index(r, k2);
                    let ym = if y < i { y } else { y + 1 };
                    assert(r[y] == m[ym]);
                }
            } else {
                assert forall|x: int| 0 <= x < r.len() implies r[x].0 != k2 by {
                    let xm = if x < i { x } else { x + 1 };
                    assert(r[x] == m[xm]);
                }
            }
        }
        assert forall|a: int, b: int|
            0 <= a < r.len() && 0 <= b < r.len() && a != b implies r[a].0 != r[b].0 by {
            let am = if a < i { a } else { a + 1 };
            let bm = if b < i { b } else { b + 1 };
            assert(r[a] == m[am]);
            assert(r[b] == m[bm]);
        }
    }
}


/// Only the keys decide where a key is found.
pub proof fn lemma_key_index_same_keys<K, V, W>(a: Seq<(K, V)>, b: Seq<(K, W)>, k: K)
    requires
        a.len() == b.len(),
        forall|i: int| 0 <= i < a.len() ==> #[trigger] a[i].0 == b[i].0,
    ensures
        key_index(a, k) == key_index(b, k),
{
    lemma_key_index(a, k);
    lemma_key_index(b, k);
    let i = key_index(a, k);
    let j = key_index(b, k);
    if i >= 0 && j >= 0 {
        if i < j {
            assert(b[i].0 == k);
        } else if j < i {
            assert(a[j].0 == k);
        }
    } else if i >= 0 {
        assert(b[i].0 == k);
    } else if j >= 0 {
        assert(a[j].0 == k);
    }
}


/// Every entry of an insertion is an old entry or the inserted one, so what
/// holds of both holds of all.
pub proof fn lemma_upsert_preserves<K, V>(m: Seq<(K, V)>, k: K, v: V, p: spec_fn((K, V)) -> bool)
    requires
        forall|i: int| 0 <= i < m.len() ==> #[trigger] p(m[i]),
        p((k, v)),
    ensures
        forall|i: int| 0 <= i < upsert(m, k, v).len() ==> #[trigger] p(upsert(m, k, v)[i]),
{
    lemma_key_index(m, k);
    let u = upsert(m, k, v);
    assert forall|i: int| 0 <= i < u.len() implies #[trigger] p(u[i]) by {
        if i < m.len() && i != key_index(m, k) {
            assert(u[i] == m[i]);
        }
    }
}

} // verus!
