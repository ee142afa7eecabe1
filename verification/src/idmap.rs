//! A small association map from variable identifiers to values.
//!
//! The protocol's value bundles and the variable registry are mappings from
//! a signed 32-bit variable id to a typed value, with unique keys and
//! irrelevant order. This module provides that mapping as a vector of pairs
//! with a uniqueness invariant; its view is the sequence of id/value pairs,
//! and [`get_of`] gives the lookup function that contracts speak of.

use vstd::prelude::*;

verus! {

/// View of a pair sequence: each element viewed pointwise.
pub open spec fn pairs_view<V: View>(s: Seq<(i32, V)>) -> Seq<(i32, V::V)> {
    s.map_values(|p: (i32, V)| (p.0, p.1@))
}

/// No id occurs twice.
pub open spec fn distinct_keys<T>(s: Seq<(i32, T)>) -> bool {
    forall|i: int, j: int| 0 <= i < j < s.len() ==> s[i].0 != s[j].0
}

/// First-match lookup of `id` in a pair sequence.
pub open spec fn get_of<T>(s: Seq<(i32, T)>, id: i32) -> Option<T>
    decreases s.len(),
{
    if s.len() == 0 {
        None
    } else if s[0].0 == id {
        Some(s[0].1)
    } else {
        get_of(s.skip(1), id)
    }
}

/// Whether `id` occurs in a pair sequence.
pub open spec fn has_key<T>(s: Seq<(i32, T)>, id: i32) -> bool {
    get_of(s, id) is Some
}

/// Replacement of the binding for `id` (or appending it if absent).
pub open spec fn insert_of<T>(s: Seq<(i32, T)>, id: i32, v: T) -> Seq<(i32, T)>
    decreases s.len(),
{
    if s.len() == 0 {
        seq![(id, v)]
    } else if s[0].0 == id {
        seq![(id, v)] + s.skip(1)
    } else {
        seq![s[0]] + insert_of(s.skip(1), id, v)
    }
}

/// Lookup only sees the keys, so skipping a non-matching prefix is neutral.
pub proof fn lemma_get_of_skip<T>(s: Seq<(i32, T)>, id: i32, i: int)
    requires
        0 <= i <= s.len(),
        forall|j: int| 0 <= j < i ==> s[j].0 != id,
    ensures
        get_of(s, id) == get_of(s.skip(i), id),
    decreases i,
{
    if i > 0 {
        assert(s.skip(1).skip(i - 1) =~= s.skip(i));
        lemma_get_of_skip(s.skip(1), id, i - 1);
    } else {
        assert(s.skip(0) =~= s);
    }
}

/// A match at index `i`, with no earlier match, is what lookup returns.
pub proof fn lemma_get_of_found<T>(s: Seq<(i32, T)>, id: i32, i: int)
    requires
        0 <= i < s.len(),
        s[i].0 == id,
        forall|j: int| 0 <= j < i ==> s[j].0 != id,
    ensures
        get_of(s, id) == Some(s[i].1),
{
    lemma_get_of_skip(s, id, i);
}

/// If no index matches, lookup fails.
pub proof fn lemma_get_of_absent<T>(s: Seq<(i32, T)>, id: i32)
    requires
        forall|j: int| 0 <= j < s.len() ==> s[j].0 != id,
    ensures
        get_of(s, id) is None,
{
    lemma_get_of_skip(s, id, s.len() as int);
    assert(s.skip(s.len() as int) =~= Seq::<(i32, T)>::empty());
}

/// Every binding of `id` in a duplicate-free sequence is what lookup returns.
pub proof fn lemma_get_of_index<T>(s: Seq<(i32, T)>, i: int)
    requires
        distinct_keys(s),
        0 <= i < s.len(),
    ensures
        get_of(s, s[i].0) == Some(s[i].1),
{
    lemma_get_of_found(s, s[i].0, i);
}

/// How [`insert_of`] affects lookups, key distinctness and length.
pub proof fn lemma_insert_of<T>(s: Seq<(i32, T)>, id: i32, v: T)
    requires
        distinct_keys(s),
    ensures
        distinct_keys(insert_of(s, id, v)),
        get_of(insert_of(s, id, v), id) == Some(v),
        forall|o: i32| o != id ==> get_of(insert_of(s, id, v), o) == get_of(s, o),
        has_key(s, id) ==> insert_of(s, id, v).len() == s.len(),
        !has_key(s, id) ==> insert_of(s, id, v).len() == s.len() + 1,
        forall|k: int|
            0 <= k < insert_of(s, id, v).len() ==> #[trigger] insert_of(s, id, v)[k].0 == (
            if k < s.len() {
                s[k].0
            } else {
                id
            }),
    decreases s.len(),
{
    let t = insert_of(s, id, v);
    if s.len() == 0 {
        assert(t =~= seq![(id, v)]);
        assert forall|o: i32| o != id implies get_of(t, o) == get_of(s, o) by {
            assert(t.skip(1) =~= Seq::<(i32, T)>::empty());
            assert(t[0].0 == id);
            assert(get_of(t, o) == get_of(t.skip(1), o));
            assert(get_of(t.skip(1), o) is None);
            assert(get_of(s, o) is None);
        }
    } else if s[0].0 == id {
        assert(t =~= seq![(id, v)] + s.skip(1));
        assert(t.skip(1) =~= s.skip(1));
        assert forall|o: i32| o != id implies get_of(t, o) == get_of(s, o) by {
            assert(t[0].0 == id);
            assert(get_of(t, o) == get_of(t.skip(1), o));
            assert(get_of(s, o) == get_of(s.skip(1), o));
        }
    } else {
        assert(distinct_keys(s.skip(1))) by {
            assert forall|i: int, j: int|
                0 <= i < j < s.skip(1).len() implies s.skip(1)[i].0 != s.skip(1)[j].0 by {
                assert(s[i + 1].0 != s[j + 1].0);
            }
        }
        lemma_insert_of(s.skip(1), id, v);
        assert(t =~= seq![s[0]] + insert_of(s.skip(1), id, v));
        assert(t.skip(1) =~= insert_of(s.skip(1), id, v));
        assert(t[0] == s[0]);
        assert(get_of(t, id) == Some(v));
        assert forall|o: i32| o != id implies get_of(t, o) == get_of(s, o) by {
            if s[0].0 == o {
                assert(get_of(t, o) == Some(t[0].1));
                assert(get_of(s, o) == Some(s[0].1));
            } else {
                assert(get_of(t, o) == get_of(insert_of(s.skip(1), id, v), o));
                assert(get_of(s, o) == get_of(s.skip(1), o));
            }
        }
        if !has_key(s, id) {
            assert(get_of(s.skip(1), id) is None);
        }
        assert forall|i: int, j: int| 0 <= i < j < t.len() implies t[i].0 != t[j].0 by {
            if i == 0 {
                if j < s.len() {
                    assert(t[j].0 == s[j].0);
                } else {
                    assert(t[j].0 == id);
                }
            }
        }
    }
}

/// An association map from `i32` ids to values, with unique keys.
///
/// Its view is the underlying pair sequence (pointwise viewed); order is
/// preserved so that encodings of a map are deterministic.
#[derive(Debug, Clone)]
pub struct IdMap<V> {
    pairs: Vec<(i32, V)>,
}

impl<V: View> View for IdMap<V> {
    type V = Seq<(i32, V::V)>;

    closed spec fn view(&self) -> Seq<(i32, V::V)> {
        pairs_view(self.pairs@)
    }
}

impl<V: View> IdMap<V> {
    /// Key uniqueness, the map's invariant.
    pub open spec fn wf(&self) -> bool {
        distinct_keys(self@)
    }

    /// The empty map.
    pub fn new() -> (r: IdMap<V>)
        ensures
            r@ =~= Seq::<(i32, V::V)>::empty(),
            r.wf(),
    {
        IdMap { pairs: Vec::new() }
    }

    /// Number of bindings.
    pub fn len(&self) -> (r: usize)
        ensures
            r == self@.len(),
    {
        self.pairs.len()
    }

    /// Read-only access to the underlying pairs, for iteration.
    pub fn entries(&self) -> (r: &Vec<(i32, V)>)
        ensures
            pairs_view(r@) == self@,
    {
        &self.pairs
    }

    /// Look the value for `id` up.
    pub fn get(&self, id: i32) -> (r: Option<&V>)
        ensures
            match r {
                Some(v) => get_of(self@, id) == Some(v@),
                None => get_of(self@, id) is None,
            },
    {
        let n = self.pairs.len();
        let mut i: usize = 0;
        while i < n
            invariant
                n == self.pairs.len(),
                0 <= i <= n,
                forall|j: int| 0 <= j < i ==> self@[j].0 != id,
            decreases n - i,
        {
            if self.pairs[i].0 == id {
                proof {
                    lemma_get_of_found(self@, id, i as int);
                }
                return Some(&self.pairs[i].1);
            }
            i = i + 1;
        }
        proof {
            lemma_get_of_absent(self@, id);
        }
        None
    }

    /// Whether `id` is bound.
    pub fn contains(&self, id: i32) -> (r: bool)
        ensures
            r == has_key(self@, id),
    {
        self.get(id).is_some()
    }

    /// Bind `id` to `value`, replacing any existing binding.
    #[verifier::rlimit(30)]
    #[verifier::loop_isolation(false)]
    pub fn insert(&mut self, id: i32, value: V)
        requires
            old(self).wf(),
        ensures
            final(self).wf(),
            final(self)@ == insert_of(old(self)@, id, value@),
            get_of(final(self)@, id) == Some(value@),
            forall|o: i32| o != id ==> get_of(final(self)@, o) == get_of(old(self)@, o),
            has_key(old(self)@, id) ==> final(self)@.len() == old(self)@.len(),
            !has_key(old(self)@, id) ==> final(self)@.len() == old(self)@.len() + 1,
    {
        proof {
            lemma_insert_of(old(self)@, id, value@);
        }
        let ghost s0 = self@;
        let ghost p0 = self.pairs@;
        let n = self.pairs.len();
        let mut i: usize = 0;
        while i < n
            invariant
                n == self.pairs.len(),
                0 <= i <= n,
                self.pairs@ == p0,
                self@ == s0,
                forall|j: int| 0 <= j < i ==> self@[j].0 != id,
            decreases n - i,
        {
            if self.pairs[i].0 == id {
                proof {
                    assert(self@[i as int].0 == id);
                }
                self.pairs.remove(i);
                self.pairs.insert(i, (id, value));
                proof {
                    p0.remove_ensures(i as int);
                    p0.remove(i as int).insert_ensures(i as int, (id, value));
                    assert(self.pairs@ =~= p0.update(i as int, (id, value)));
                    assert(self@ =~= s0.update(i as int, (id, value@)));
                    lemma_insert_found(s0, id, value@, i as int);
                }
                return ;
            }
            i = i + 1;
        }
        self.pairs.push((id, value));
        proof {
            assert(self@ =~= s0.push((id, value@)));
            lemma_get_of_absent(s0, id);
            lemma_insert_absent(s0, id, value@);
        }
    }
}

/// When `id` already sits at index `i`, insertion is an in-place update.
proof fn lemma_insert_found<T>(s: Seq<(i32, T)>, id: i32, v: T, i: int)
    requires
        0 <= i < s.len(),
        s[i].0 == id,
        forall|j: int| 0 <= j < i ==> s[j].0 != id,
    ensures
        insert_of(s, id, v) =~= s.update(i, (id, v)),
    decreases i,
{
    if i > 0 {
        lemma_insert_found(s.skip(1), id, v, i - 1);
        assert(insert_of(s, id, v) =~= seq![s[0]] + insert_of(s.skip(1), id, v));
        assert(s.update(i, (id, v)) =~= seq![s[0]] + s.skip(1).update(i - 1, (id, v)));
    } else {
        assert(insert_of(s, id, v) =~= seq![(id, v)] + s.skip(1));
        assert(s.update(0, (id, v)) =~= seq![(id, v)] + s.skip(1));
    }
}

/// When `id` is absent, insertion appends the new binding.
proof fn lemma_insert_absent<T>(s: Seq<(i32, T)>, id: i32, v: T)
    requires
        get_of(s, id) is None,
    ensures
        insert_of(s, id, v) =~= s.push((id, v)),
    decreases s.len(),
{
    if s.len() > 0 {
        lemma_insert_absent(s.skip(1), id, v);
        assert(insert_of(s, id, v) =~= seq![s[0]] + insert_of(s.skip(1), id, v));
        assert(s.push((id, v)) =~= seq![s[0]] + s.skip(1).push((id, v)));
    }
}

} // verus!

verus! {

/// The map that results from inserting a pair sequence, left to right,
/// into an empty map.
pub open spec fn fold_insert<T>(s: Seq<(i32, T)>) -> Seq<(i32, T)>
    decreases s.len(),
{
    if s.len() == 0 {
        Seq::empty()
    } else {
        insert_of(fold_insert(s.drop_last()), s.last().0, s.last().1)
    }
}

/// Folding preserves key distinctness.
pub proof fn lemma_fold_insert_wf<T>(s: Seq<(i32, T)>)
    ensures
        distinct_keys(fold_insert(s)),
    decreases s.len(),
{
    if s.len() > 0 {
        lemma_fold_insert_wf(s.drop_last());
        lemma_insert_of(fold_insert(s.drop_last()), s.last().0, s.last().1);
    }
}

/// Folding a duplicate-free pair sequence reproduces it unchanged.
pub proof fn lemma_fold_insert_distinct<T>(s: Seq<(i32, T)>)
    requires
        distinct_keys(s),
    ensures
        fold_insert(s) == s,
    decreases s.len(),
{
    if s.len() > 0 {
        let h = s.drop_last();
        assert(distinct_keys(h)) by {
            assert(forall|i: int| 0 <= i < h.len() ==> h[i] == s[i]);
        }
        lemma_fold_insert_distinct(h);
        assert(forall|j: int| 0 <= j < h.len() ==> h[j].0 != s.last().0);
        lemma_get_of_absent(h, s.last().0);
        lemma_insert_absent(h, s.last().0, s.last().1);
        assert(h.push((s.last().0, s.last().1)) =~= s);
    }
}

impl<V: View> IdMap<V> {
    /// Build a map from raw entries; a later binding of an id replaces an
    /// earlier one.
    #[verifier::loop_isolation(false)]
    pub fn from_entries(entries: Vec<(i32, V)>) -> (r: IdMap<V>)
        ensures
            r.wf(),
            r@ == fold_insert(pairs_view(entries@)),
    {
        let ghost all = pairs_view(entries@);
        let mut entries = entries;
        let n_at_entry = entries.len();
        let ghost n = n_at_entry as nat;
        let mut r = IdMap::new();
        let mut i: usize = 0;
        while entries.len() > 0
            invariant
                0 <= i <= n,
                n <= usize::MAX,
                entries@.len() == n - i,
                pairs_view(entries@) == all.skip(i as int),
                r.wf(),
                r@ == fold_insert(all.take(i as int)),
            decreases entries@.len(),
        {
            let ghost before = entries@;
            let (id, v) = entries.remove(0);
            r.insert(id, v);
            proof {
                assert(entries@ =~= before.skip(1));
                assert(pairs_view(before)[0] == all.skip(i as int)[0]);
                assert((id, v@) == all[i as int]);
                assert(pairs_view(entries@) =~= pairs_view(before).skip(1));
                assert(pairs_view(before).skip(1) =~= all.skip(i as int + 1));
                assert(all.take(i as int + 1).drop_last() =~= all.take(i as int));
                assert(all.take(i as int + 1).last() == all[i as int]);
            }
            i = i + 1;
        }
        proof {
            assert(all.take(i as int) =~= all);
        }
        r
    }
}

} // verus!

verus! {

/// The map that results from inserting a pair sequence, left to right,
/// into an existing map.
pub open spec fn fold_insert_from<T>(base: Seq<(i32, T)>, s: Seq<(i32, T)>) -> Seq<(i32, T)>
    decreases s.len(),
{
    if s.len() == 0 {
        base
    } else {
        insert_of(fold_insert_from(base, s.drop_last()), s.last().0, s.last().1)
    }
}

/// Folding from an empty map is plain folding.
pub proof fn lemma_fold_insert_from_empty<T>(s: Seq<(i32, T)>)
    ensures
        fold_insert_from(Seq::<(i32, T)>::empty(), s) == fold_insert(s),
    decreases s.len(),
{
    if s.len() > 0 {
        lemma_fold_insert_from_empty(s.drop_last());
    }
}

/// Folding from a duplicate-free map keeps keys distinct.
pub proof fn lemma_fold_insert_from_wf<T>(base: Seq<(i32, T)>, s: Seq<(i32, T)>)
    requires
        distinct_keys(base),
    ensures
        distinct_keys(fold_insert_from(base, s)),
    decreases s.len(),
{
    if s.len() > 0 {
        lemma_fold_insert_from_wf(base, s.drop_last());
        lemma_insert_of(fold_insert_from(base, s.drop_last()), s.last().0, s.last().1);
    }
}

} // verus!
