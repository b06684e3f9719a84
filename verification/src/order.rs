//! Lexicographic order of names, and listing table entries by name.
use vstd::prelude::*;

use crate::table::keyed;

verus! {

/// `a` comes strictly before `b` in lexicographic order of characters
/// (the order of `str`, since UTF-8 keeps the order of code points).
pub open spec fn lex_lt(a: Seq<char>, b: Seq<char>) -> bool
    decreases a.len(),
{
    if b.len() == 0 {
        false
    } else if a.len() == 0 {
        true
    } else if a[0] != b[0] {
        a[0] < b[0]
    } else {
        lex_lt(a.drop_first(), b.drop_first())
    }
}

/// No text comes before itself.
pub proof fn lemma_lex_irreflexive(a: Seq<char>)
    ensures
        !lex_lt(a, a),
    decreases a.len(),
{
    if a.len() > 0 {
        lemma_lex_irreflexive(a.drop_first());
    }
}

/// Coming before is transitive.
pub proof fn lemma_lex_transitive(a: Seq<char>, b: Seq<char>, c: Seq<char>)
    requires
        lex_lt(a, b),
        lex_lt(b, c),
    ensures
        lex_lt(a, c),
    decreases a.len(),
{
    if a.len() > 0 && b.len() > 0 && c.len() > 0 && a[0] == b[0] && b[0] == c[0] {
        lemma_lex_transitive(a.drop_first(), b.drop_first(), c.drop_first());
    }
}

/// Of two different texts, one comes before the other.
pub proof fn lemma_lex_total(a: Seq<char>, b: Seq<char>)
    ensures
        a == b || lex_lt(a, b) || lex_lt(b, a),
    decreases a.len(),
{
    if a.len() > 0 && b.len() > 0 && a[0] == b[0] {
        lemma_lex_total(a.drop_first(), b.drop_first());
        if a.drop_first() == b.drop_first() {
            assert forall|i: int| 0 <= i < a.len() implies a[i] == b[i] by {
                if i > 0 {
                    assert(a[i] == a.drop_first()[i - 1]);
                    assert(b[i] == b.drop_first()[i - 1]);
                }
            }
            assert(a =~= b);
        }
    } else if a.len() == 0 && b.len() == 0 {
        assert(a =~= b);
    }
}

/// Of two texts, at most one comes before the other.
pub proof fn lemma_lex_asymmetric(a: Seq<char>, b: Seq<char>)
    requires
        lex_lt(a, b),
    ensures
        !lex_lt(b, a),
{
    if lex_lt(b, a) {
        lemma_lex_transitive(a, b, a);
        lemma_lex_irreflexive(a);
    }
}

/// Entry `i` of `keys` is listed before entry `j`: its name comes first, or
/// the names are equal and it came first (a stable order).
pub open spec fn listed_before(keys: Seq<Seq<char>>, i: int, j: int) -> bool {
    lex_lt(keys[i], keys[j]) || (keys[i] == keys[j] && i < j)
}

/// `p` lists every position of `keys` exactly once, in name order, keeping
/// the input order among equal names.
pub open spec fn is_name_order(keys: Seq<Seq<char>>, p: Seq<int>) -> bool {
    &&& p.len() == keys.len()
    &&& forall|i: int| 0 <= i < p.len() ==> 0 <= #[trigger] p[i] < keys.len()
    &&& forall|i: int, j: int| 0 <= i < p.len() && 0 <= j < p.len() && i != j ==> p[i] != p[j]
    &&& forall|i: int, j: int| 0 <= i < j < p.len() ==> listed_before(keys, #[trigger] p[i], #[trigger] p[j])
}

proof fn lemma_listed_before_total(keys: Seq<Seq<char>>, i: int, j: int)
    requires
        i != j,
    ensures
        listed_before(keys, i, j) || listed_before(keys, j, i),
        !(listed_before(keys, i, j) && listed_before(keys, j, i)),
{
    lemma_lex_total(keys[i], keys[j]);
    if lex_lt(keys[i], keys[j]) {
        lemma_lex_asymmetric(keys[i], keys[j]);
    }
    if lex_lt(keys[j], keys[i]) {
        lemma_lex_asymmetric(keys[j], keys[i]);
    }
    if keys[i] == keys[j] {
        lemma_lex_irreflexive(keys[i]);
    }
}

proof fn lemma_listed_before_transitive(keys: Seq<Seq<char>>, i: int, j: int, k: int)
    requires
        listed_before(keys, i, j),
        listed_before(keys, j, k),
    ensures
        listed_before(keys, i, k),
{
    if lex_lt(keys[i], keys[j]) && lex_lt(keys[j], keys[k]) {
        lemma_lex_transitive(keys[i], keys[j], keys[k]);
    }
}

/// `a` comes strictly before `b`.
pub fn lex_less(a: &String, b: &String) -> (r: bool)
    ensures
        r == lex_lt(a@, b@),
{
    let x = crate::text::chars_of(a.as_str());
    let y = crate::text::chars_of(b.as_str());
    let mut i: usize = 0;
    assert(a@.skip(0) =~= a@);
    assert(b@.skip(0) =~= b@);
    while i < x.len() && i < y.len() && x[i] == y[i]
        invariant
            i <= x.len(),
            i <= y.len(),
            x@ == a@,
            y@ == b@,
            lex_lt(a@, b@) == lex_lt(a@.skip(i as int), b@.skip(i as int)),
        decreases x.len() - i,
    {
        assert(a@.skip(i as int).drop_first() =~= a@.skip(i + 1));
        assert(b@.skip(i as int).drop_first() =~= b@.skip(i + 1));
        i += 1;
    }
    if i == y.len() {
        false
    } else if i == x.len() {
        true
    } else {
        x[i] < y[i]
    }
}

/// The positions of the entries of `m`, listed by name (stably).
pub fn name_order<V>(m: &Vec<(String, V)>) -> (p: Vec<usize>)
    ensures
        is_name_order(keyed(m@).map_values(|e: (Seq<char>, V)| e.0), p@.map_values(|x: usize| x as int)),
{
    let ghost keys = keyed(m@).map_values(|e: (Seq<char>, V)| e.0);
    let n = m.len();
    let mut used: Vec<bool> = Vec::new();
    let mut k: usize = 0;
    while k < n
        invariant
            k <= n,
            used@.len() == k,
            forall|i: int| 0 <= i < k ==> !used@[i],
        decreases n - k,
    {
        used.push(false);
        k += 1;
    }
    let mut p: Vec<usize> = Vec::new();
    while p.len() < n
        invariant
            n == m.len(),
            keys == keyed(m@).map_values(|e: (Seq<char>, V)| e.0),
            keys.len() == n,
            used@.len() == n,
            p.len() <= n,
            forall|i: int| 0 <= i < p.len() ==> 0 <= #[trigger] p@[i] < n,
            forall|i: int| 0 <= i < p.len() ==> used@[#[trigger] p@[i] as int],
            forall|i: int, j: int| 0 <= i < p.len() && 0 <= j < p.len() && i != j ==> p@[i] != p@[j],
            forall|x: int| 0 <= x < n && used@[x] ==> exists|i: int| 0 <= i < p.len() && #[trigger] p@[i] == x,
            forall|i: int, j: int| 0 <= i < j < p.len() ==> listed_before(keys, #[trigger] p@[i] as int, #[trigger] p@[j] as int),
            forall|i: int, x: int| 0 <= i < p.len() && 0 <= x < n && !used@[x] ==> #[trigger] listed_before(keys, p@[i] as int, x),
        decreases n - p.len(),
    {
        // some position is still unused
        proof {
            if forall|x: int| 0 <= x < n ==> used@[x] {
                lemma_all_used_means_full(p@, n as int, used@);
            }
        }
        let mut best: usize = 0;
        while best < n && used[best]
            invariant
                used@.len() == n,
                best <= n,
                forall|x: int| 0 <= x < best ==> used@[x],
            decreases n - best,
        {
            best += 1;
        }
        let mut j: usize = best + 1;
        while j < n
            invariant
                n == m.len(),
                keys == keyed(m@).map_values(|e: (Seq<char>, V)| e.0),
                keys.len() == n,
                used@.len() == n,
                best < n,
                !used@[best as int],
                best < j <= n,
                forall|x: int| 0 <= x < j && !used@[x] && x != best ==> listed_before(keys, best as int, x),
            decreases n - j,
        {
            if !used[j] {
                assert(keys[j as int] == m@[j as int].0@);
                assert(keys[best as int] == m@[best as int].0@);
                if lex_less(&m[j].0, &m[best].0) {
                    proof {
                        assert forall|x: int| 0 <= x < j + 1 && !used@[x] && x != j implies listed_before(keys, j as int, x) by {
                            if x != best {
                                lemma_listed_before_transitive(keys, j as int, best as int, x);
                            }
                        }
                    }
                    best = j;
                } else {
                    proof {
                        lemma_listed_before_total(keys, best as int, j as int);
                        if lex_lt(keys[best as int], keys[j as int]) {
                        } else {
                            lemma_lex_total(keys[best as int], keys[j as int]);
                        }
                    }
                }
            }
            j += 1;
        }
        let ghost prev = p@;
        let ghost prev_used = used@;
        used.set(best, true);
        p.push(best);
        proof {
            assert forall|i: int, x: int| 0 <= i < p.len() && 0 <= x < n && !used@[x] implies #[trigger] listed_before(keys, p@[i] as int, x) by {
                if i < prev.len() {
                    assert(p@[i] == prev[i]);
                    assert(!prev_used[x]);
                } else {
                    assert(x != best);
                }
            }
            assert forall|i: int, j2: int| 0 <= i < j2 < p.len() implies listed_before(keys, #[trigger] p@[i] as int, #[trigger] p@[j2] as int) by {
                if j2 < prev.len() {
                    assert(p@[i] == prev[i]);
                    assert(p@[j2] == prev[j2]);
                } else {
                    assert(p@[i] == prev[i]);
                    assert(!prev_used[best as int]);
                }
            }
            assert forall|i: int, j2: int| 0 <= i < p.len() && 0 <= j2 < p.len() && i != j2 implies p@[i] != p@[j2] by {
                if i < prev.len() && j2 < prev.len() {
                } else if i < prev.len() {
                    assert(prev_used[prev[i] as int]);
                } else if j2 < prev.len() {
                    assert(prev_used[prev[j2] as int]);
                }
            }
            assert forall|x: int| 0 <= x < n && used@[x] implies exists|i: int| 0 <= i < p.len() && #[trigger] p@[i] == x by {
                if x == best {
                    assert(p@[prev.len() as int] == x);
                } else {
                    assert(prev_used[x]);
                    let i = choose|i: int| 0 <= i < prev.len() && #[trigger] prev[i] == x;
                    assert(p@[i] == x);
                }
            }
            assert forall|i: int| 0 <= i < p.len() implies used@[#[trigger] p@[i] as int] by {
                if i < prev.len() {
                    assert(p@[i] == prev[i]);
                }
            }
        }
    }
    let ghost pv = p@.map_values(|x: usize| x as int);
    assert forall|i: int, j: int| 0 <= i < j < pv.len() implies listed_before(keys, #[trigger] pv[i], #[trigger] pv[j]) by {
        assert(pv[i] == p@[i] as int);
        assert(pv[j] == p@[j] as int);
    }
    assert forall|i: int, j: int| 0 <= i < pv.len() && 0 <= j < pv.len() && i != j implies pv[i] != pv[j] by {
        assert(pv[i] == p@[i] as int);
        assert(pv[j] == p@[j] as int);
    }
    assert forall|i: int| 0 <= i < pv.len() implies 0 <= #[trigger] pv[i] < keys.len() by {
        assert(pv[i] == p@[i] as int);
    }
    p
}

proof fn lemma_all_used_means_full(p: Seq<usize>, n: int, used: Seq<bool>)
    requires
        used.len() == n,
        forall|x: int| 0 <= x < n ==> used[x],
        forall|x: int| 0 <= x < n && used[x] ==> exists|i: int| 0 <= i < p.len() && #[trigger] p[i] == x,
        forall|i: int, j: int| 0 <= i < p.len() && 0 <= j < p.len() && i != j ==> p[i] != p[j],
        forall|i: int| 0 <= i < p.len() ==> 0 <= #[trigger] p[i] < n,
        p.len() <= n,
        n >= 0,
    ensures
        p.len() == n,
{
    // every position 0..n occurs in p, and p has no repeats, so p covers n values
    let s = vstd::set_lib::set_int_range(0, n);
    let pm = p.map_values(|x: usize| x as int);
    let ps = pm.to_set();
    assert(s =~= ps) by {
        assert forall|x: int| s.contains(x) implies ps.contains(x) by {
            assert(used[x]);
            let i = choose|i: int| 0 <= i < p.len() && #[trigger] p[i] == x;
            assert(pm[i] == x);
        }
        assert forall|x: int| ps.contains(x) implies s.contains(x) by {
            assert(pm.contains(x));
            let i = choose|i: int| 0 <= i < pm.len() && #[trigger] pm[i] == x;
            assert(p[i] as int == x);
        }
    }
    vstd::set_lib::lemma_int_range(0, n);
    assert(pm.no_duplicates()) by {
        assert forall|i: int, j: int| 0 <= i < pm.len() && 0 <= j < pm.len() && i != j implies pm[i] != pm[j] by {
            assert(p[i] != p[j]);
        }
    }
    pm.unique_seq_to_set();
}

} // verus!
