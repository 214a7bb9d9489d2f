use vstd::prelude::*;

verus! {

/// The finite map that an association sequence of (key, value) pairs denotes,
/// keys and values taken through the given view functions; a later pair wins
/// over an earlier one with the same key.
pub open spec fn table_of<K, V, KV, VV>(
    s: Seq<(K, V)>,
    kf: spec_fn(K) -> KV,
    vf: spec_fn(V) -> VV,
) -> Map<KV, VV>
    decreases s.len(),
{
    if s.len() == 0 {
        Map::empty()
    } else {
        table_of(s.drop_last(), kf, vf).insert(kf(s.last().0), vf(s.last().1))
    }
}

/// Whether the keys of an association sequence are pairwise distinct under the
/// given view function.
pub open spec fn distinct_keys<K, V, KV>(s: Seq<(K, V)>, kf: spec_fn(K) -> KV) -> bool {
    forall|i: int, j: int| 0 <= i < j < s.len() ==> kf(s[i].0) != kf(s[j].0)
}

/// Every pair of an association sequence with distinct keys is in its table.
pub proof fn lemma_table_at<K, V, KV, VV>(
    s: Seq<(K, V)>,
    kf: spec_fn(K) -> KV,
    vf: spec_fn(V) -> VV,
    i: int,
)
    requires
        distinct_keys(s, kf),
        0 <= i < s.len(),
    ensures
        table_of(s, kf, vf).contains_key(kf(s[i].0)),
        table_of(s, kf, vf)[kf(s[i].0)] == vf(s[i].1),
    decreases s.len(),
{
    if i == s.len() - 1 {
    } else {
        assert(distinct_keys(s.drop_last(), kf));
        assert(s.drop_last()[i] == s[i]);
        lemma_table_at(s.drop_last(), kf, vf, i);
        assert(kf(s[i].0) != kf(s.last().0));
    }
}

/// A key that no pair carries is not in the table.
pub proof fn lemma_table_absent<K, V, KV, VV>(
    s: Seq<(K, V)>,
    kf: spec_fn(K) -> KV,
    vf: spec_fn(V) -> VV,
    k: KV,
)
    requires
        forall|i: int| 0 <= i < s.len() ==> kf(s[i].0) != k,
    ensures
        !table_of(s, kf, vf).contains_key(k),
    decreases s.len(),
{
    if s.len() > 0 {
        assert(forall|i: int| 0 <= i < s.drop_last().len() ==> kf(s.drop_last()[i].0) != k);
        lemma_table_absent(s.drop_last(), kf, vf, k);
        assert(kf(s.last().0) != k);
    }
}

/// Appending a pair with a fresh key inserts it into the table and keeps the
/// keys distinct.
pub proof fn lemma_table_push<K, V, KV, VV>(
    s: Seq<(K, V)>,
    kf: spec_fn(K) -> KV,
    vf: spec_fn(V) -> VV,
    k: K,
    v: V,
)
    ensures
        table_of(s.push((k, v)), kf, vf) == table_of(s, kf, vf).insert(kf(k), vf(v)),
        distinct_keys(s, kf) && (forall|i: int| 0 <= i < s.len() ==> kf(s[i].0) != kf(k))
            ==> distinct_keys(s.push((k, v)), kf),
{
    let t = s.push((k, v));
    assert(t.drop_last() =~= s);
    assert(t.last() == (k, v));
    if distinct_keys(s, kf) && (forall|i: int| 0 <= i < s.len() ==> kf(s[i].0) != kf(k)) {
        assert forall|i: int, j: int| 0 <= i < j < t.len() implies kf(t[i].0) != kf(t[j].0) by {
            if j < s.len() {
                assert(kf(s[i].0) != kf(s[j].0));
            } else {
                assert(t[j] == (k, v));
                assert(kf(s[i].0) != kf(k));
            }
        }
    }
}

/// Replacing the value of the pair at one index updates the table at that
/// pair's key and keeps the keys distinct.
pub proof fn lemma_table_update<K, V, KV, VV>(
    s: Seq<(K, V)>,
    kf: spec_fn(K) -> KV,
    vf: spec_fn(V) -> VV,
    i: int,
    v: V,
)
    requires
        distinct_keys(s, kf),
        0 <= i < s.len(),
    ensures
        table_of(s.update(i, (s[i].0, v)), kf, vf)
            == table_of(s, kf, vf).insert(kf(s[i].0), vf(v)),
        distinct_keys(s.update(i, (s[i].0, v)), kf),
    decreases s.len(),
{
    let u = s.update(i, (s[i].0, v));
    assert(distinct_keys(u, kf)) by {
        assert forall|m: int, n: int| 0 <= m < n < u.len() implies kf(u[m].0) != kf(u[n].0) by {
            assert(u[m].0 == s[m].0);
            assert(u[n].0 == s[n].0);
        }
    }
    if i == s.len() - 1 {
        assert(u.drop_last() =~= s.drop_last());
        assert(u.last() == (s[i].0, v));
        assert(table_of(u, kf, vf) =~= table_of(s, kf, vf).insert(kf(s[i].0), vf(v)));
    } else {
        assert(u.drop_last() =~= s.drop_last().update(i, (s[i].0, v)));
        assert(u.last() == s.last());
        assert(distinct_keys(s.drop_last(), kf));
        assert(s.drop_last()[i] == s[i]);
        lemma_table_update(s.drop_last(), kf, vf, i, v);
        assert(kf(s[i].0) != kf(s.last().0));
        assert(table_of(u, kf, vf) =~= table_of(s, kf, vf).insert(kf(s[i].0), vf(v)));
    }
}

/// A table with distinct keys has exactly one entry per pair.
pub proof fn lemma_table_len<K, V, KV, VV>(s: Seq<(K, V)>, kf: spec_fn(K) -> KV, vf: spec_fn(V) -> VV)
    requires
        distinct_keys(s, kf),
    ensures
        table_of(s, kf, vf).dom().finite(),
        table_of(s, kf, vf).dom().len() == s.len(),
    decreases s.len(),
{
    if s.len() > 0 {
        assert(distinct_keys(s.drop_last(), kf));
        lemma_table_len(s.drop_last(), kf, vf);
        assert(forall|i: int| 0 <= i < s.drop_last().len() ==> kf(s.drop_last()[i].0) != kf(s.last().0));
        lemma_table_absent(s.drop_last(), kf, vf, kf(s.last().0));
        vstd::set::axiom_set_insert_len(table_of(s.drop_last(), kf, vf).dom(), kf(s.last().0));
    }
}

/// The set of views that a sequence of elements denotes, taken through the
/// given view function.
pub open spec fn set_of<T, TV>(s: Seq<T>, f: spec_fn(T) -> TV) -> Set<TV>
    decreases s.len(),
{
    if s.len() == 0 {
        Set::empty()
    } else {
        set_of(s.drop_last(), f).insert(f(s.last()))
    }
}

/// Whether the elements of a sequence are pairwise distinct under the given
/// view function.
pub open spec fn distinct_elems<T, TV>(s: Seq<T>, f: spec_fn(T) -> TV) -> bool {
    forall|i: int, j: int| 0 <= i < j < s.len() ==> f(s[i]) != f(s[j])
}

/// Every element of a sequence is in its set of views.
pub proof fn lemma_set_at<T, TV>(s: Seq<T>, f: spec_fn(T) -> TV, i: int)
    requires
        0 <= i < s.len(),
    ensures
        set_of(s, f).contains(f(s[i])),
    decreases s.len(),
{
    if i < s.len() - 1 {
        assert(s.drop_last()[i] == s[i]);
        lemma_set_at(s.drop_last(), f, i);
    }
}

/// A view that no element carries is not in the set.
pub proof fn lemma_set_absent<T, TV>(s: Seq<T>, f: spec_fn(T) -> TV, x: TV)
    requires
        forall|i: int| 0 <= i < s.len() ==> f(s[i]) != x,
    ensures
        !set_of(s, f).contains(x),
    decreases s.len(),
{
    if s.len() > 0 {
        assert(forall|i: int| 0 <= i < s.drop_last().len() ==> f(s.drop_last()[i]) != x);
        lemma_set_absent(s.drop_last(), f, x);
        assert(f(s.last()) != x);
    }
}

/// Appending a fresh element inserts its view into the set and keeps the
/// elements distinct.
pub proof fn lemma_set_push<T, TV>(s: Seq<T>, f: spec_fn(T) -> TV, e: T)
    ensures
        set_of(s.push(e), f) == set_of(s, f).insert(f(e)),
        distinct_elems(s, f) && (forall|i: int| 0 <= i < s.len() ==> f(s[i]) != f(e))
            ==> distinct_elems(s.push(e), f),
{
    let t = s.push(e);
    assert(t.drop_last() =~= s);
    assert(t.last() == e);
    if distinct_elems(s, f) && (forall|i: int| 0 <= i < s.len() ==> f(s[i]) != f(e)) {
        assert forall|i: int, j: int| 0 <= i < j < t.len() implies f(t[i]) != f(t[j]) by {
            if j < s.len() {
                assert(f(s[i]) != f(s[j]));
            } else {
                assert(t[j] == e);
                assert(f(s[i]) != f(e));
            }
        }
    }
}

/// Removing the element at one index removes its view from the set and keeps
/// the elements distinct.
pub proof fn lemma_set_remove<T, TV>(s: Seq<T>, f: spec_fn(T) -> TV, i: int)
    requires
        distinct_elems(s, f),
        0 <= i < s.len(),
    ensures
        set_of(s.remove(i), f) == set_of(s, f).remove(f(s[i])),
        distinct_elems(s.remove(i), f),
    decreases s.len(),
{
    let u = s.remove(i);
    assert(distinct_elems(u, f)) by {
        assert forall|m: int, n: int| 0 <= m < n < u.len() implies f(u[m]) != f(u[n]) by {
            if m < i && n < i {
                assert(u[m] == s[m] && u[n] == s[n]);
            } else if m < i {
                assert(u[m] == s[m] && u[n] == s[n + 1]);
            } else {
                assert(u[m] == s[m + 1] && u[n] == s[n + 1]);
            }
        }
    }
    if i == s.len() - 1 {
        assert(u =~= s.drop_last());
        assert(forall|j: int| 0 <= j < s.drop_last().len() ==> f(s.drop_last()[j]) != f(s[i]));
        lemma_set_absent(s.drop_last(), f, f(s[i]));
        assert(set_of(u, f) =~= set_of(s, f).remove(f(s[i])));
    } else {
        assert(u.drop_last() =~= s.drop_last().remove(i));
        assert(u.last() == s.last());
        assert(distinct_elems(s.drop_last(), f));
        assert(s.drop_last()[i] == s[i]);
        lemma_set_remove(s.drop_last(), f, i);
        assert(f(s[i]) != f(s.last()));
        assert(set_of(u, f) =~= set_of(s, f).remove(f(s[i])));
    }
}

} // verus!
