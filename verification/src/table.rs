//! Named tables kept as lists of `(name, value)` pairs.
use vstd::prelude::*;

verus! {

/// The table with its names read as character sequences.
pub open spec fn keyed<V>(m: Seq<(String, V)>) -> Seq<(Seq<char>, V)> {
    m.map_values(|e: (String, V)| (e.0@, e.1))
}

/// Some entry of `m` is named `k`.
pub open spec fn has_key<V>(m: Seq<(Seq<char>, V)>, k: Seq<char>) -> bool {
    exists|i: int| 0 <= i < m.len() && m[i].0 == k
}

/// No two entries of `m` share a name.
pub open spec fn keys_unique<V>(m: Seq<(Seq<char>, V)>) -> bool {
    forall|i: int, j: int| 0 <= i < m.len() && 0 <= j < m.len() && i != j ==> m[i].0 != m[j].0
}

/// `m` with `(k, v)` added at the end, unless an entry named `k` exists.
pub open spec fn insert_absent<V>(m: Seq<(Seq<char>, V)>, k: Seq<char>, v: V) -> Seq<(Seq<char>, V)> {
    if has_key(m, k) {
        m
    } else {
        m.push((k, v))
    }
}

/// Position of the first entry named `k`, or `m.len()` when there is none.
pub open spec fn key_pos<V>(m: Seq<(Seq<char>, V)>, k: Seq<char>) -> int
    decreases m.len(),
{
    if m.len() == 0 {
        0
    } else if m[0].0 == k {
        0
    } else {
        1 + key_pos(m.drop_first(), k)
    }
}

/// `m` with the value of the first entry named `k` replaced by `v`, or with
/// `(k, v)` added at the end when there is no such entry.
pub open spec fn upsert<V>(m: Seq<(Seq<char>, V)>, k: Seq<char>, v: V) -> Seq<(Seq<char>, V)> {
    if key_pos(m, k) < m.len() {
        m.update(key_pos(m, k), (k, v))
    } else {
        m.push((k, v))
    }
}

/// The value of the first entry named `k`.
pub open spec fn lookup<V>(m: Seq<(Seq<char>, V)>, k: Seq<char>) -> Option<V> {
    if key_pos(m, k) < m.len() {
        Some(m[key_pos(m, k)].1)
    } else {
        None
    }
}

/// The position of a key is that of its first entry, or the length of the
/// table when no entry has it.
pub proof fn lemma_key_pos<V>(m: Seq<(Seq<char>, V)>, k: Seq<char>)
    ensures
        0 <= key_pos(m, k) <= m.len(),
        key_pos(m, k) < m.len() ==> m[key_pos(m, k)].0 == k,
        forall|j: int| 0 <= j < key_pos(m, k) ==> m[j].0 != k,
        key_pos(m, k) < m.len() <==> has_key(m, k),
    decreases m.len(),
{
    if m.len() > 0 && m[0].0 != k {
        lemma_key_pos(m.drop_first(), k);
        assert forall|j: int| 0 <= j < key_pos(m, k) implies m[j].0 != k by {
            if j > 0 {
                assert(m[j] == m.drop_first()[j - 1]);
            }
        }
        if has_key(m, k) {
            let i = choose|i: int| 0 <= i < m.len() && m[i].0 == k;
            assert(m.drop_first()[i - 1].0 == k);
        }
        if key_pos(m, k) < m.len() {
            assert(m[key_pos(m, k)] == m.drop_first()[key_pos(m.drop_first(), k)]);
        }
    }
}

/// The position of a key is the first place that holds it, or the length
/// when none does.
pub proof fn lemma_key_pos_at<V>(m: Seq<(Seq<char>, V)>, k: Seq<char>, j: int)
    requires
        0 <= j <= m.len(),
        forall|i: int| 0 <= i < j ==> m[i].0 != k,
        j < m.len() ==> m[j].0 == k,
    ensures
        key_pos(m, k) == j,
{
    lemma_key_pos(m, k);
    if key_pos(m, k) < j {
        assert(m[key_pos(m, k)].0 != k);
    }
    if j < key_pos(m, k) {
        assert(m[j].0 != k);
    }
}

/// After setting `k`, looking up `k` gives the value set, and every other
/// name gives what it gave before.
pub proof fn lemma_upsert_lookup<V>(m: Seq<(Seq<char>, V)>, k: Seq<char>, v: V, other: Seq<char>)
    ensures
        lookup(upsert(m, k, v), k) == Some(v),
        other != k ==> lookup(upsert(m, k, v), other) == lookup(m, other),
{
    lemma_key_pos(m, k);
    lemma_key_pos(m, other);
    let r = upsert(m, k, v);
    let p = key_pos(m, k);
    if p < m.len() {
        assert forall|i: int| 0 <= i < r.len() implies #[trigger] r[i].0 == m[i].0 by {}
        lemma_key_pos_at(r, k, p);
        if other != k {
            lemma_key_pos_at(r, other, key_pos(m, other));
            if key_pos(m, other) < m.len() {
                assert(key_pos(m, other) != p);
            }
        }
    } else {
        lemma_key_pos_at(r, k, p);
        if other != k {
            if key_pos(m, other) < m.len() {
                lemma_key_pos_at(r, other, key_pos(m, other));
            } else {
                lemma_key_pos_at(r, other, r.len() as int);
            }
        }
    }
}

/// After adding `k` when absent, `k` names an entry and every other name
/// gives what it gave before.
pub proof fn lemma_insert_absent_lookup<V>(m: Seq<(Seq<char>, V)>, k: Seq<char>, v: V, other: Seq<char>)
    ensures
        has_key(insert_absent(m, k, v), k),
        lookup(insert_absent(m, k, v), k) == (if has_key(m, k) { lookup(m, k) } else { Some(v) }),
        other != k ==> lookup(insert_absent(m, k, v), other) == lookup(m, other),
{
    lemma_insert_absent_keeps(m, k, v);
    lemma_key_pos(m, k);
    lemma_key_pos(m, other);
    if !has_key(m, k) {
        let r = m.push((k, v));
        lemma_key_pos_at(r, k, m.len() as int);
        if other != k {
            if key_pos(m, other) < m.len() {
                lemma_key_pos_at(r, other, key_pos(m, other));
            } else {
                lemma_key_pos_at(r, other, r.len() as int);
            }
        }
    }
}

/// Adding an entry keeps every earlier entry and names `k` afterwards.
pub proof fn lemma_insert_absent_keeps<V>(m: Seq<(Seq<char>, V)>, k: Seq<char>, v: V)
    ensures
        insert_absent(m, k, v).len() >= m.len(),
        insert_absent(m, k, v).subrange(0, m.len() as int) == m,
        has_key(insert_absent(m, k, v), k),
        keys_unique(m) ==> keys_unique(insert_absent(m, k, v)),
{
    let r = insert_absent(m, k, v);
    assert(r.subrange(0, m.len() as int) =~= m);
    if !has_key(m, k) {
        assert(r[m.len() as int].0 == k);
    }
}

/// Position of the first entry of `m` named `k`.
pub fn find_key<V>(m: &Vec<(String, V)>, k: &String) -> (r: usize)
    ensures
        r == key_pos(keyed(m@), k@),
{
    proof {
        lemma_key_pos(keyed(m@), k@);
    }
    let mut i: usize = 0;
    while i < m.len()
        invariant
            i <= m.len(),
            forall|j: int| 0 <= j < i ==> keyed(m@)[j].0 != k@,
            0 <= key_pos(keyed(m@), k@) <= m.len(),
            key_pos(keyed(m@), k@) < m.len() ==> keyed(m@)[key_pos(keyed(m@), k@)].0 == k@,
            forall|j: int| 0 <= j < key_pos(keyed(m@), k@) ==> keyed(m@)[j].0 != k@,
        decreases m.len() - i,
    {
        if m[i].0 == *k {
            assert(keyed(m@)[i as int].0 == k@);
            return i;
        }
        assert(keyed(m@)[i as int].0 != k@);
        i += 1;
    }
    i
}

/// Adds `(k, v)` at the end of `m`, unless an entry named `k` exists.
pub fn insert_if_absent<V>(m: &mut Vec<(String, V)>, k: String, v: V)
    ensures
        keyed(final(m)@) == insert_absent(keyed(old(m)@), k@, v),
{
    let i = find_key(m, &k);
    proof {
        lemma_key_pos(keyed(m@), k@);
    }
    if i == m.len() {
        let ghost kv = k@;
        m.push((k, v));
        assert(keyed(m@) =~= keyed(old(m)@).push((kv, v)));
    }
}

} // verus!
