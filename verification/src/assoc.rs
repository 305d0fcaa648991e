//! Lists of `(key, value)` entries keyed by strings: the ordered maps of the
//! schema and of JSON objects, and the key-sorted maps that the manifest is
//! assembled from.
use vstd::prelude::*;
use crate::text::{str_eq, less, str_lt, lemma_str_lt_total, lemma_str_lt_transitive};

verus! {

/// Index of the first entry whose key is `k`, or `m.len()` when none is.
pub open spec fn key_index<T>(m: Seq<(String, T)>, k: Seq<char>) -> int
    decreases m.len(),
{
    if m.len() == 0 {
        0
    } else if m[0].0@ == k {
        0
    } else {
        1 + key_index(m.drop_first(), k)
    }
}

/// The value of the first entry whose key is `k`.
pub open spec fn lookup<T>(m: Seq<(String, T)>, k: Seq<char>) -> Option<T> {
    let i = key_index(m, k);
    if i < m.len() {
        Some(m[i].1)
    } else {
        None
    }
}

/// `key_index` is the first position holding `k`.
pub proof fn lemma_key_index<T>(m: Seq<(String, T)>, k: Seq<char>, i: int)
    requires
        0 <= i <= m.len(),
        forall|j: int| 0 <= j < i ==> (#[trigger] m[j]).0@ != k,
        i == m.len() || m[i].0@ == k,
    ensures
        key_index(m, k) == i,
    decreases i,
{
    if i > 0 {
        assert forall|j: int| 0 <= j < i - 1 implies (#[trigger] m.drop_first()[j]).0@ != k by {
            assert(m.drop_first()[j] == m[j + 1]);
        }
        lemma_key_index(m.drop_first(), k, i - 1);
    }
}

/// Position of the first entry whose key is `k`.
pub fn position<T>(m: &Vec<(String, T)>, k: &str) -> (r: Option<usize>)
    ensures
        match r {
            Some(i) => i == key_index(m@, k@) && i < m@.len(),
            None => key_index(m@, k@) == m@.len(),
        },
{
    let n = m.len();
    let mut i: usize = 0;
    while i < n
        invariant
            i <= n == m@.len(),
            forall|j: int| 0 <= j < i ==> (#[trigger] m@[j]).0@ != k@,
        decreases n - i,
    {
        if str_eq(m[i].0.as_str(), k) {
            proof {
                lemma_key_index(m@, k@, i as int);
            }
            return Some(i);
        }
        i = i + 1;
    }
    proof {
        lemma_key_index(m@, k@, n as int);
    }
    None
}

/// The value of the first entry whose key is `k`.
pub fn find<'a, T>(m: &'a Vec<(String, T)>, k: &str) -> (r: Option<&'a T>)
    ensures
        match r {
            Some(x) => lookup(m@, k@) == Some(*x),
            None => lookup(m@, k@) is None,
        },
{
    match position(m, k) {
        Some(i) => Some(&m[i].1),
        None => None,
    }
}

// ---------------------------------------------------------------------------
// Maps as they are built: entries viewed as (characters, value model)
// ---------------------------------------------------------------------------

/// The entries with keys as characters and values as their models.
pub open spec fn entries_view<T: View>(s: Seq<(String, T)>) -> Seq<(Seq<char>, T::V)> {
    Seq::new(s.len(), |i: int| (s[i].0@, s[i].1@))
}

/// Index of the first entry whose key is `k`, or `m.len()` when none is.
pub open spec fn mkey_index<V>(m: Seq<(Seq<char>, V)>, k: Seq<char>) -> int
    decreases m.len(),
{
    if m.len() == 0 {
        0
    } else if m[0].0 == k {
        0
    } else {
        1 + mkey_index(m.drop_first(), k)
    }
}

pub open spec fn mlookup<V>(m: Seq<(Seq<char>, V)>, k: Seq<char>) -> Option<V> {
    let i = mkey_index(m, k);
    if i < m.len() {
        Some(m[i].1)
    } else {
        None
    }
}

pub open spec fn mhas_key<V>(m: Seq<(Seq<char>, V)>, k: Seq<char>) -> bool {
    mkey_index(m, k) < m.len()
}

pub proof fn lemma_mkey_index<V>(m: Seq<(Seq<char>, V)>, k: Seq<char>, i: int)
    requires
        0 <= i <= m.len(),
        forall|j: int| 0 <= j < i ==> (#[trigger] m[j]).0 != k,
        i == m.len() || m[i].0 == k,
    ensures
        mkey_index(m, k) == i,
    decreases i,
{
    if i > 0 {
        assert forall|j: int| 0 <= j < i - 1 implies (#[trigger] m.drop_first()[j]).0 != k by {
            assert(m.drop_first()[j] == m[j + 1]);
        }
        lemma_mkey_index(m.drop_first(), k, i - 1);
    }
}

pub proof fn lemma_mkey_index_bounds<V>(m: Seq<(Seq<char>, V)>, k: Seq<char>)
    ensures
        0 <= mkey_index(m, k) <= m.len(),
        forall|j: int| 0 <= j < mkey_index(m, k) ==> (#[trigger] m[j]).0 != k,
        mkey_index(m, k) < m.len() ==> m[mkey_index(m, k)].0 == k,
    decreases m.len(),
{
    if m.len() > 0 && m[0].0 != k {
        lemma_mkey_index_bounds(m.drop_first(), k);
        assert forall|j: int| 0 <= j < mkey_index(m, k) implies (#[trigger] m[j]).0 != k by {
            if j > 0 {
                assert(m[j] == m.drop_first()[j - 1]);
            }
        }
    }
}

/// Position of the first entry whose key is `k`, in terms of the view.
pub fn mposition<T: View>(m: &Vec<(String, T)>, k: &str) -> (r: Option<usize>)
    ensures
        match r {
            Some(i) => i == mkey_index(entries_view(m@), k@) && i < m@.len(),
            None => mkey_index(entries_view(m@), k@) == m@.len(),
        },
{
    let ghost e = entries_view(m@);
    let n = m.len();
    let mut i: usize = 0;
    while i < n
        invariant
            i <= n == m@.len(),
            e == entries_view(m@),
            forall|j: int| 0 <= j < i ==> (#[trigger] e[j]).0 != k@,
        decreases n - i,
    {
        if str_eq(m[i].0.as_str(), k) {
            proof {
                lemma_mkey_index(e, k@, i as int);
            }
            return Some(i);
        }
        i = i + 1;
    }
    proof {
        lemma_mkey_index(e, k@, n as int);
    }
    None
}

pub fn mcontains_key<T: View>(m: &Vec<(String, T)>, k: &str) -> (r: bool)
    ensures
        r == mhas_key(entries_view(m@), k@),
{
    mposition(m, k).is_some()
}

/// `m` after `insert(k, v)` on a map that keeps insertion order: an existing
/// entry keeps its key and place and takes the new value; a new key goes last.
pub open spec fn mput<V>(m: Seq<(Seq<char>, V)>, k: Seq<char>, v: V) -> Seq<(Seq<char>, V)> {
    let i = mkey_index(m, k);
    if i < m.len() {
        m.update(i, (k, v))
    } else {
        m.push((k, v))
    }
}

pub fn put_entry<T: View>(m: &mut Vec<(String, T)>, k: String, v: T)
    ensures
        entries_view(final(m)@) == mput(entries_view(old(m)@), k@, v@),
{
    let ghost e = entries_view(m@);
    match mposition(m, k.as_str()) {
        Some(i) => {
            let (key, _old) = m.remove(i);
            assert(key@ == e[i as int].0);
            proof {
                lemma_mkey_index_bounds(e, k@);
            }
            m.insert(i, (key, v));
            assert(entries_view(m@) =~= e.update(i as int, (k@, v@)));
        },
        None => {
            m.push((k, v));
            assert(entries_view(m@) =~= mput(entries_view(old(m)@), k@, v@));
        },
    }
}

/// `m` after `insert(k, v)` on a map ordered by key (`BTreeMap`): walking the
/// entries in order, an entry with key `k` takes the new value, and otherwise
/// the new entry goes before the first larger key.
pub open spec fn msorted_put<V>(m: Seq<(Seq<char>, V)>, k: Seq<char>, v: V) -> Seq<(Seq<char>, V)>
    decreases m.len(),
{
    if m.len() == 0 {
        seq![(k, v)]
    } else if m[0].0 == k {
        seq![(k, v)] + m.drop_first()
    } else if str_lt(k, m[0].0) {
        seq![(k, v)] + m
    } else {
        seq![m[0]] + msorted_put(m.drop_first(), k, v)
    }
}

proof fn lemma_msorted_put<V>(m: Seq<(Seq<char>, V)>, k: Seq<char>, v: V, p: int)
    requires
        0 <= p <= m.len(),
        forall|j: int| 0 <= j < p ==> (#[trigger] m[j]).0 != k && !str_lt(k, m[j].0),
        p < m.len() ==> (m[p].0 == k || str_lt(k, m[p].0)),
    ensures
        msorted_put(m, k, v) == if p < m.len() && m[p].0 == k {
            m.update(p, (k, v))
        } else {
            m.insert(p, (k, v))
        },
    decreases p,
{
    if p == 0 {
        if m.len() == 0 {
            assert(m.insert(0, (k, v)) =~= seq![(k, v)]);
        } else if m[0].0 == k {
            assert(seq![(k, v)] + m.drop_first() =~= m.update(0, (k, v)));
        } else {
            assert(seq![(k, v)] + m =~= m.insert(0, (k, v)));
        }
    } else {
        let t = m.drop_first();
        assert forall|j: int| 0 <= j < p - 1 implies (#[trigger] t[j]).0 != k && !str_lt(
            k,
            t[j].0,
        ) by {
            assert(t[j] == m[j + 1]);
        }
        lemma_msorted_put(t, k, v, p - 1);
        if p < m.len() && m[p].0 == k {
            assert(seq![m[0]] + t.update(p - 1, (k, v)) =~= m.update(p, (k, v)));
        } else {
            assert(seq![m[0]] + t.insert(p - 1, (k, v)) =~= m.insert(p, (k, v)));
        }
    }
}

pub fn sorted_put_entry<T: View>(m: &mut Vec<(String, T)>, k: String, v: T)
    ensures
        entries_view(final(m)@) == msorted_put(entries_view(old(m)@), k@, v@),
{
    let ghost e = entries_view(m@);
    let n = m.len();
    let mut p: usize = 0;
    while p < n && !str_eq(m[p].0.as_str(), k.as_str()) && !less(k.as_str(), m[p].0.as_str())
        invariant
            p <= n == m@.len(),
            e == entries_view(m@),
            forall|j: int| 0 <= j < p ==> (#[trigger] e[j]).0 != k@ && !str_lt(k@, e[j].0),
        decreases n - p,
    {
        p = p + 1;
    }
    proof {
        lemma_msorted_put(e, k@, v@, p as int);
    }
    if p < n && str_eq(m[p].0.as_str(), k.as_str()) {
        let (key, _old) = m.remove(p);
        m.insert(p, (key, v));
        assert(entries_view(m@) =~= e.update(p as int, (k@, v@)));
    } else {
        let ghost kv = k@;
        m.insert(p, (k, v));
        assert(entries_view(m@) =~= e.insert(p as int, (kv, v@)));
    }
}


/// Every value of `msorted_put(m, k, v)` is `v` or a value of `m`.
pub proof fn lemma_msorted_put_values<V>(m: Seq<(Seq<char>, V)>, k: Seq<char>, v: V, p: spec_fn(V) -> bool)
    requires
        forall|i: int| 0 <= i < m.len() ==> p(#[trigger] m[i].1),
        p(v),
    ensures
        forall|i: int| 0 <= i < msorted_put(m, k, v).len() ==> p(#[trigger] msorted_put(m, k, v)[i].1),
    decreases m.len(),
{
    let r = msorted_put(m, k, v);
    if m.len() == 0 {
    } else if m[0].0 == k {
        assert forall|i: int| 0 <= i < r.len() implies p(#[trigger] r[i].1) by {
            if i > 0 {
                assert(r[i] == m[i]);
            }
        }
    } else if str_lt(k, m[0].0) {
        assert forall|i: int| 0 <= i < r.len() implies p(#[trigger] r[i].1) by {
            if i > 0 {
                assert(r[i] == m[i - 1]);
            }
        }
    } else {
        let t = m.drop_first();
        assert forall|i: int| 0 <= i < t.len() implies p(#[trigger] t[i].1) by {
            assert(t[i] == m[i + 1]);
        }
        lemma_msorted_put_values(t, k, v, p);
        let rt = msorted_put(t, k, v);
        assert forall|i: int| 0 <= i < r.len() implies p(#[trigger] r[i].1) by {
            if i > 0 {
                assert(r[i] == rt[i - 1]);
            }
        }
    }
}


/// Every key of `msorted_put(m, k, v)` is `k` or a key of `m`.
pub proof fn lemma_msorted_put_keys<V>(m: Seq<(Seq<char>, V)>, k: Seq<char>, v: V, p: spec_fn(Seq<char>) -> bool)
    requires
        forall|i: int| 0 <= i < m.len() ==> p(#[trigger] m[i].0),
        p(k),
    ensures
        forall|i: int| 0 <= i < msorted_put(m, k, v).len() ==> p(#[trigger] msorted_put(m, k, v)[i].0),
    decreases m.len(),
{
    let r = msorted_put(m, k, v);
    if m.len() == 0 {
    } else if m[0].0 == k {
        assert forall|i: int| 0 <= i < r.len() implies p(#[trigger] r[i].0) by {
            if i > 0 {
                assert(r[i] == m[i]);
            }
        }
    } else if str_lt(k, m[0].0) {
        assert forall|i: int| 0 <= i < r.len() implies p(#[trigger] r[i].0) by {
            if i > 0 {
                assert(r[i] == m[i - 1]);
            }
        }
    } else {
        let t = m.drop_first();
        assert forall|i: int| 0 <= i < t.len() implies p(#[trigger] t[i].0) by {
            assert(t[i] == m[i + 1]);
        }
        lemma_msorted_put_keys(t, k, v, p);
        let rt = msorted_put(t, k, v);
        assert forall|i: int| 0 <= i < r.len() implies p(#[trigger] r[i].0) by {
            if i > 0 {
                assert(r[i] == rt[i - 1]);
            }
        }
    }
}

/// The keys are in strictly ascending order (so each occurs once).
pub open spec fn sorted_keys<V>(m: Seq<(Seq<char>, V)>) -> bool {
    forall|i: int, j: int| 0 <= i < j < m.len() ==> str_lt(#[trigger] m[i].0, #[trigger] m[j].0)
}

/// Law: inserting into a map ordered by key keeps its keys in strictly
/// ascending order, so each key occurs once.
pub proof fn law_sorted_put_keeps_order<V>(m: Seq<(Seq<char>, V)>, k: Seq<char>, v: V)
    requires
        sorted_keys(m),
    ensures
        sorted_keys(msorted_put(m, k, v)),
    decreases m.len(),
{
    let r = msorted_put(m, k, v);
    if m.len() == 0 {
    } else if m[0].0 == k {
        assert forall|i: int, j: int| 0 <= i < j < r.len() implies str_lt(
            #[trigger] r[i].0,
            #[trigger] r[j].0,
        ) by {
            assert(r[j] == m[j]);
            if i > 0 {
                assert(r[i] == m[i]);
            }
        }
    } else if str_lt(k, m[0].0) {
        assert forall|i: int, j: int| 0 <= i < j < r.len() implies str_lt(
            #[trigger] r[i].0,
            #[trigger] r[j].0,
        ) by {
            assert(r[j] == m[j - 1]);
            if i > 0 {
                assert(r[i] == m[i - 1]);
            } else if j > 1 {
                lemma_str_lt_transitive(k, m[0].0, m[j - 1].0);
            }
        }
    } else {
        lemma_str_lt_total(k, m[0].0);
        let t = m.drop_first();
        assert forall|i: int, j: int| 0 <= i < j < t.len() implies str_lt(
            #[trigger] t[i].0,
            #[trigger] t[j].0,
        ) by {
            assert(t[i] == m[i + 1]);
            assert(t[j] == m[j + 1]);
        }
        law_sorted_put_keeps_order(t, k, v);
        let rt = msorted_put(t, k, v);
        let m0 = m[0].0;
        assert forall|i: int| 0 <= i < t.len() implies str_lt(m0, #[trigger] t[i].0) by {
            assert(t[i] == m[i + 1]);
        }
        let p = |x: Seq<char>| str_lt(m0, x);
        lemma_msorted_put_keys(t, k, v, p);
        assert forall|i: int, j: int| 0 <= i < j < r.len() implies str_lt(
            #[trigger] r[i].0,
            #[trigger] r[j].0,
        ) by {
            assert(r[j] == rt[j - 1]);
            if i > 0 {
                assert(r[i] == rt[i - 1]);
            } else {
                assert(p(rt[j - 1].0));
            }
        }
    }
}

/// Law: after inserting `v` under `k` into a map ordered by key, `k` reads
/// back `v` and every other key reads what it read before.
pub proof fn law_sorted_put_lookup<V>(m: Seq<(Seq<char>, V)>, k: Seq<char>, v: V, q: Seq<char>)
    ensures
        mlookup(msorted_put(m, k, v), q) == if q == k {
            Some(v)
        } else {
            mlookup(m, q)
        },
    decreases m.len(),
{
    let r = msorted_put(m, k, v);
    lemma_mkey_index_bounds(m, q);
    let i = mkey_index(m, q);
    if m.len() == 0 {
        if q == k {
            lemma_mkey_index(r, q, 0);
        } else {
            lemma_mkey_index(r, q, 1);
        }
    } else if m[0].0 == k {
        if q == k {
            lemma_mkey_index(r, q, 0);
        } else {
            assert forall|j: int| 0 <= j < i implies (#[trigger] r[j]).0 != q by {
                if j > 0 {
                    assert(r[j] == m[j]);
                }
            }
            if i < m.len() {
                assert(r[i] == m[i]);
            }
            lemma_mkey_index(r, q, i);
        }
    } else if str_lt(k, m[0].0) {
        if q == k {
            lemma_mkey_index(r, q, 0);
        } else {
            assert forall|j: int| 0 <= j < i + 1 implies (#[trigger] r[j]).0 != q by {
                if j > 0 {
                    assert(r[j] == m[j - 1]);
                }
            }
            if i < m.len() {
                assert(r[i + 1] == m[i]);
            }
            lemma_mkey_index(r, q, i + 1);
        }
    } else {
        let t = m.drop_first();
        let rt = msorted_put(t, k, v);
        law_sorted_put_lookup(t, k, v, q);
        assert(r == seq![m[0]] + rt);
        if m[0].0 == q {
            lemma_mkey_index(r, q, 0);
        } else {
            lemma_mkey_index_bounds(rt, q);
            let irt = mkey_index(rt, q);
            assert forall|j: int| 0 <= j < irt + 1 implies (#[trigger] r[j]).0 != q by {
                if j > 0 {
                    assert(r[j] == rt[j - 1]);
                }
            }
            if irt < rt.len() {
                assert(r[irt + 1] == rt[irt]);
            }
            lemma_mkey_index(r, q, irt + 1);
            lemma_mkey_index_bounds(t, q);
            let it = mkey_index(t, q);
            assert forall|j: int| 0 <= j < it + 1 implies (#[trigger] m[j]).0 != q by {
                if j > 0 {
                    assert(m[j] == t[j - 1]);
                }
            }
            if it < t.len() {
                assert(m[it + 1] == t[it]);
            }
            lemma_mkey_index(m, q, it + 1);
        }
    }
}

/// Law: after `insert(k, v)` on a map that keeps insertion order, `k` reads
/// back `v` and every other key reads what it read before.
pub proof fn law_put_lookup<V>(m: Seq<(Seq<char>, V)>, k: Seq<char>, v: V, q: Seq<char>)
    ensures
        mlookup(mput(m, k, v), q) == if q == k {
            Some(v)
        } else {
            mlookup(m, q)
        },
{
    let r = mput(m, k, v);
    let i = mkey_index(m, k);
    lemma_mkey_index_bounds(m, k);
    lemma_mkey_index_bounds(m, q);
    let iq = mkey_index(m, q);
    if q == k {
        lemma_mkey_index(r, q, i);
    } else {
        assert forall|j: int| 0 <= j < iq implies (#[trigger] r[j]).0 != q by {
            if j != i {
                assert(r[j] == m[j]);
            }
        }
        if iq < m.len() {
            assert(r[iq] == m[iq]);
            lemma_mkey_index(r, q, iq);
        } else {
            lemma_mkey_index(r, q, r.len() as int);
        }
    }
}

} // verus!
