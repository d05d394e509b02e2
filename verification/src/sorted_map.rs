//! An ordered map from `u16` keys to values, kept as a vector of entries
//! sorted by strictly increasing key.
//!
//! Every keyed table of the configuration model (peers, API endpoints,
//! module instances) uses this structure, so that iteration order, and with
//! it every hash computed over a table, is determined by the table's
//! contents alone.

use vstd::prelude::*;

verus! {

pub struct SortedMap<V> {
    entries: Vec<(u16, V)>,
}

impl<V: DeepView> DeepView for SortedMap<V> {
    type V = Seq<(u16, V::V)>;

    open spec fn deep_view(&self) -> Seq<(u16, V::V)> {
        self.dseq()
    }
}

/// The keys of `s` are strictly increasing.
pub open spec fn entries_sorted<V>(s: Seq<(u16, V)>) -> bool {
    forall|i: int, j: int| 0 <= i < j < s.len() ==> (#[trigger] s[i]).0 < (#[trigger] s[j]).0
}

/// Lookup by key in any sequence of keyed records: the first match.
pub open spec fn seq_lookup<T>(s: Seq<(u16, T)>, k: u16) -> Option<T>
    decreases s.len(),
{
    if s.len() == 0 {
        None
    } else if s[0].0 == k {
        Some(s[0].1)
    } else {
        seq_lookup(s.drop_first(), k)
    }
}

/// On a sequence with sorted keys, `seq_lookup` is exactly membership of the
/// key, with the stored record.
pub proof fn lemma_seq_lookup_entries<T>(s: Seq<(u16, T)>, k: u16)
    requires
        entries_sorted(s),
    ensures
        (exists|i: int| 0 <= i < s.len() && (#[trigger] s[i]).0 == k) ==> forall|i: int|
            0 <= i < s.len() && (#[trigger] s[i]).0 == k ==> seq_lookup(s, k) == Some(s[i].1),
        (forall|i: int| 0 <= i < s.len() ==> (#[trigger] s[i]).0 != k) ==> seq_lookup(s, k)
            is None,
{
    if exists|i: int| 0 <= i < s.len() && (#[trigger] s[i]).0 == k {
        assert forall|i: int|
            0 <= i < s.len() && (#[trigger] s[i]).0 == k implies seq_lookup(s, k) == Some(
            s[i].1,
        ) by {
            lemma_seq_lookup_present(s, k, i);
        }
    } else {
        lemma_seq_lookup_absent(s, k);
    }
}

/// A present key is found.
pub proof fn lemma_seq_lookup_some<T>(s: Seq<(u16, T)>, k: u16)
    requires
        exists|i: int| 0 <= i < s.len() && (#[trigger] s[i]).0 == k,
    ensures
        seq_lookup(s, k) is Some,
    decreases s.len(),
{
    let i = choose|i: int| 0 <= i < s.len() && (#[trigger] s[i]).0 == k;
    if s[0].0 != k {
        assert(s.drop_first()[i - 1] == s[i]);
        lemma_seq_lookup_some(s.drop_first(), k);
    }
}

/// What a lookup finds is one of the entries, under the looked-up key.
pub proof fn lemma_seq_lookup_in<T>(s: Seq<(u16, T)>, k: u16)
    requires
        seq_lookup(s, k) is Some,
    ensures
        exists|i: int|
            0 <= i < s.len() && (#[trigger] s[i]).0 == k && s[i].1 == seq_lookup(s, k).unwrap(),
    decreases s.len(),
{
    if s[0].0 == k {
        assert(s[0].0 == k && s[0].1 == seq_lookup(s, k).unwrap());
    } else {
        lemma_seq_lookup_in(s.drop_first(), k);
        let i = choose|i: int|
            0 <= i < s.drop_first().len() && (#[trigger] s.drop_first()[i]).0 == k
                && s.drop_first()[i].1 == seq_lookup(s.drop_first(), k).unwrap();
        assert(s[i + 1].0 == k && s[i + 1].1 == seq_lookup(s, k).unwrap());
    }
}

proof fn lemma_seq_lookup_present<T>(s: Seq<(u16, T)>, k: u16, i: int)
    requires
        entries_sorted(s),
        0 <= i < s.len(),
        s[i].0 == k,
    ensures
        seq_lookup(s, k) == Some(s[i].1),
    decreases s.len(),
{
    if i == 0 {
    } else {
        assert(s[0].0 < s[i].0);
        assert(s.drop_first()[i - 1] == s[i]);
        lemma_seq_lookup_present(s.drop_first(), k, i - 1);
    }
}

proof fn lemma_seq_lookup_absent<T>(s: Seq<(u16, T)>, k: u16)
    requires
        forall|i: int| 0 <= i < s.len() ==> (#[trigger] s[i]).0 != k,
    ensures
        seq_lookup(s, k) is None,
    decreases s.len(),
{
    if s.len() > 0 {
        assert(forall|i: int|
            0 <= i < s.drop_first().len() ==> (#[trigger] s.drop_first()[i]).0 != k);
        lemma_seq_lookup_absent(s.drop_first(), k);
    }
}

impl<V: DeepView> SortedMap<V> {
    /// The entries as they are stored, in key order.
    pub closed spec fn entries_seq(self) -> Seq<(u16, V)> {
        self.entries@
    }

    pub open spec fn wf(self) -> bool {
        entries_sorted(self.entries_seq())
    }

    /// Lookup in a sequence of entries, at the level of deep views.
    pub open spec fn seq_dget(s: Seq<(u16, V)>, k: u16) -> Option<V::V>
        decreases s.len(),
    {
        if s.len() == 0 {
            None
        } else if s[0].0 == k {
            Some(s[0].1.deep_view())
        } else {
            Self::seq_dget(s.drop_first(), k)
        }
    }

    /// The value stored under `k`, as a deep view.
    pub open spec fn dget(self, k: u16) -> Option<V::V> {
        Self::seq_dget(self.entries_seq(), k)
    }

    pub open spec fn spec_contains_key(self, k: u16) -> bool {
        self.dget(k) is Some
    }

    pub open spec fn spec_len(self) -> nat {
        self.entries_seq().len()
    }

    proof fn lemma_dget_present(s: Seq<(u16, V)>, k: u16, i: int)
        requires
            entries_sorted(s),
            0 <= i < s.len(),
            s[i].0 == k,
        ensures
            Self::seq_dget(s, k) == Some(s[i].1.deep_view()),
        decreases s.len(),
    {
        if i == 0 {
        } else {
            assert(s[0].0 < s[i].0);
            assert(s.drop_first()[i - 1] == s[i]);
            Self::lemma_dget_present(s.drop_first(), k, i - 1);
        }
    }

    proof fn lemma_dget_absent(s: Seq<(u16, V)>, k: u16)
        requires
            forall|i: int| 0 <= i < s.len() ==> (#[trigger] s[i]).0 != k,
        ensures
            Self::seq_dget(s, k) is None,
        decreases s.len(),
    {
        if s.len() > 0 {
            assert(forall|i: int|
                0 <= i < s.drop_first().len() ==> (#[trigger] s.drop_first()[i]).0 != k);
            Self::lemma_dget_absent(s.drop_first(), k);
        }
    }

    /// On a sorted entry sequence, `seq_dget` is exactly membership of the key
    /// among the entries, with the stored value.
    pub proof fn lemma_dget_entries(s: Seq<(u16, V)>, k: u16)
        requires
            entries_sorted(s),
        ensures
            (exists|i: int| 0 <= i < s.len() && (#[trigger] s[i]).0 == k) ==> forall|i: int|
                0 <= i < s.len() && (#[trigger] s[i]).0 == k ==> Self::seq_dget(s, k) == Some(
                    s[i].1.deep_view(),
                ),
            (forall|i: int| 0 <= i < s.len() ==> (#[trigger] s[i]).0 != k) ==> Self::seq_dget(s, k)
                is None,
    {
        if exists|i: int| 0 <= i < s.len() && (#[trigger] s[i]).0 == k {
            assert forall|i: int|
                0 <= i < s.len() && (#[trigger] s[i]).0 == k implies Self::seq_dget(s, k) == Some(
                s[i].1.deep_view(),
            ) by {
                Self::lemma_dget_present(s, k, i);
            }
        } else {
            Self::lemma_dget_absent(s, k);
        }
    }

    /// The entries at the level of deep views, in key order.
    pub open spec fn dseq(self) -> Seq<(u16, V::V)> {
        self.entries_seq().map_values(|e: (u16, V)| (e.0, e.1.deep_view()))
    }

    pub fn new() -> (r: Self)
        ensures
            r.wf(),
            r.spec_len() == 0,
            forall|k: u16| r.dget(k) is None,
            r.entries_seq() == Seq::<(u16, V)>::empty(),
    {
        let r = SortedMap { entries: Vec::new() };
        proof {
            assert forall|k: u16| r.dget(k) is None by {
                Self::lemma_dget_absent(r.entries@, k);
            }
            assert(r.entries@ =~= Seq::<(u16, V)>::empty());
        }
        r
    }

    pub fn len(&self) -> (r: usize)
        ensures
            r == self.spec_len(),
    {
        self.entries.len()
    }

    /// The stored entries, in key order.
    pub fn entries(&self) -> (r: &Vec<(u16, V)>)
        ensures
            r@ == self.entries_seq(),
    {
        &self.entries
    }

    pub fn get(&self, k: u16) -> (r: Option<&V>)
        requires
            self.wf(),
        ensures
            match r {
                Some(v) => self.dget(k) == Some(v.deep_view()) && exists|j: int|
                    0 <= j < self.spec_len() && #[trigger] self.entries_seq()[j] == (k, *v),
                None => self.dget(k) is None,
            },
    {
        let n = self.entries.len();
        let mut i: usize = 0;
        while i < n
            invariant
                self.wf(),
                n == self.spec_len(),
                0 <= i <= n,
                forall|j: int| 0 <= j < i ==> (#[trigger] self.entries_seq()[j]).0 != k,
            decreases n - i,
        {
            if self.entries[i].0 == k {
                proof {
                    Self::lemma_dget_present(self.entries_seq(), k, i as int);
                }
                return Some(&self.entries[i].1);
            }
            if self.entries[i].0 > k {
                proof {
                    assert forall|j: int|
                        0 <= j < self.entries_seq().len() implies (
                    #[trigger] self.entries_seq()[j]).0 != k by {
                        if j > i {
                            assert(self.entries_seq()[i as int].0 < self.entries_seq()[j].0);
                        }
                    }
                    Self::lemma_dget_absent(self.entries_seq(), k);
                }
                return None;
            }
            i += 1;
        }
        proof {
            Self::lemma_dget_absent(self.entries_seq(), k);
        }
        None
    }

    pub fn contains_key(&self, k: u16) -> (r: bool)
        requires
            self.wf(),
        ensures
            r == self.spec_contains_key(k),
    {
        self.get(k).is_some()
    }

    /// Insert `v` under `k`, replacing any value already stored there.
    pub fn insert(&mut self, k: u16, v: V)
        requires
            old(self).wf(),
        ensures
            final(self).wf(),
            final(self).dget(k) == Some(v.deep_view()),
            forall|k2: u16| k2 != k ==> final(self).dget(k2) == old(self).dget(k2),
            final(self).spec_len() == old(self).spec_len() + (if old(self).spec_contains_key(k) {
                0int
            } else {
                1int
            }),
            old(self).spec_contains_key(k) ==> forall|j: int|
                0 <= j < final(self).spec_len() ==> (#[trigger] final(self).entries_seq()[j]).0
                    == old(self).entries_seq()[j].0,
    {
        let ghost olds = self.entries@;
        let n = self.entries.len();
        let mut i: usize = 0;
        while i < n && self.entries[i].0 < k
            invariant
                entries_sorted(self.entries@),
                self.entries@ == olds,
                n == olds.len(),
                0 <= i <= n,
                forall|j: int| 0 <= j < i ==> (#[trigger] olds[j]).0 < k,
            decreases n - i,
        {
            i += 1;
        }
        // i is the first position with key >= k (or n)
        proof {
            assert(forall|j: int| 0 <= j < i ==> (#[trigger] olds[j]).0 < k);
            assert(i < n ==> olds[i as int].0 >= k);
        }
        if i < n && self.entries[i].0 == k {
            // replace in place
            let _prev = self.entries.remove(i);
            self.entries.insert(i, (k, v));
            proof {
                let news = self.entries@;
                assert(news =~= olds.update(i as int, (k, v)));
                assert forall|j1: int, j2: int|
                    0 <= j1 < j2 < news.len() implies (#[trigger] news[j1]).0 < (
                #[trigger] news[j2]).0 by {
                    assert(olds[j1].0 < olds[j2].0);
                }
                Self::lemma_dget_present(news, k, i as int);
                Self::lemma_dget_present(olds, k, i as int);
                assert forall|k2: u16| k2 != k implies Self::seq_dget(news, k2) == Self::seq_dget(
                    olds,
                    k2,
                ) by {
                    Self::lemma_dget_entries(news, k2);
                    Self::lemma_dget_entries(olds, k2);
                    if exists|j: int| 0 <= j < olds.len() && (#[trigger] olds[j]).0 == k2 {
                        let j = choose|j: int| 0 <= j < olds.len() && (#[trigger] olds[j]).0 == k2;
                        assert(news[j].0 == k2 && news[j].1 == olds[j].1);
                    } else {
                        assert(forall|j: int|
                            0 <= j < news.len() ==> (#[trigger] news[j]).0 != k2);
                    }
                }
            }
        } else {
            self.entries.insert(i, (k, v));
            proof {
                let news = self.entries@;
                assert(news =~= olds.subrange(0, i as int) + seq![(k, v)] + olds.subrange(
                    i as int,
                    olds.len() as int,
                ));
                assert(forall|j: int| 0 <= j < i ==> (#[trigger] news[j]) == olds[j]);
                assert(news[i as int] == (k, v));
                assert(forall|j: int|
                    i < j < news.len() ==> (#[trigger] news[j]) == olds[j - 1]);
                assert forall|j1: int, j2: int|
                    0 <= j1 < j2 < news.len() implies (#[trigger] news[j1]).0 < (
                #[trigger] news[j2]).0 by {
                    if j2 < i {
                    } else if j1 < i && j2 == i {
                        assert(olds[j1].0 < k);
                    } else if j1 < i && j2 > i {
                        assert(olds[j1].0 < k);
                        assert(olds[j2 - 1].0 >= k);
                        if j2 - 1 > i - 1 && i <= j2 - 1 {
                            if i < n {
                                assert(olds[i as int].0 > k || olds[i as int].0 == k);
                            }
                        }
                        assert(j1 < j2 - 1 || olds[j2 - 1].0 > olds[j1].0);
                        if j1 == j2 - 1 {
                        } else {
                            assert(olds[j1].0 < olds[j2 - 1].0);
                        }
                    } else if j1 == i {
                        // news[j1].0 == k, news[j2].0 == olds[j2-1].0 with j2-1 >= i
                        assert(olds[j2 - 1].0 >= k);
                        assert(olds[j2 - 1].0 != k);
                    } else {
                        assert(olds[j1 - 1].0 < olds[j2 - 1].0);
                    }
                }
                Self::lemma_dget_present(news, k, i as int);
                Self::lemma_dget_absent_old(olds, k, i as int);
                assert forall|k2: u16| k2 != k implies Self::seq_dget(news, k2) == Self::seq_dget(
                    olds,
                    k2,
                ) by {
                    Self::lemma_dget_entries(news, k2);
                    Self::lemma_dget_entries(olds, k2);
                    if exists|j: int| 0 <= j < olds.len() && (#[trigger] olds[j]).0 == k2 {
                        let j = choose|j: int| 0 <= j < olds.len() && (#[trigger] olds[j]).0 == k2;
                        if j < i {
                            assert(news[j].0 == k2 && news[j].1 == olds[j].1);
                        } else {
                            assert(news[j + 1].0 == k2 && news[j + 1].1 == olds[j].1);
                        }
                    } else {
                        assert forall|j: int|
                            0 <= j < news.len() implies (#[trigger] news[j]).0 != k2 by {
                            if j < i {
                                assert(news[j] == olds[j]);
                            } else if j == i {
                            } else {
                                assert(news[j] == olds[j - 1]);
                            }
                        }
                    }
                }
            }
        }
    }

    /// Whether the stored entries are in strictly increasing key order.
    /// True for every map built through this interface; a map received from
    /// elsewhere can be checked before its well-formedness is relied on.
    pub fn is_sorted(&self) -> (r: bool)
        ensures
            r == self.wf(),
    {
        let n = self.entries.len();
        let mut i: usize = 1;
        while i < n
            invariant
                n == self.spec_len(),
                1 <= i || n == 0,
                i <= n || (n == 0 && i == 1),
                forall|j: int|
                    1 <= j < i && j < n ==> (#[trigger] self.entries_seq()[j - 1]).0
                        < self.entries_seq()[j].0,
            decreases n - i,
        {
            if self.entries[i - 1].0 >= self.entries[i].0 {
                return false;
            }
            i += 1;
        }
        proof {
            assert forall|a: int, b: int|
                0 <= a < b < self.spec_len() implies (#[trigger] self.entries_seq()[a]).0 < (
            #[trigger] self.entries_seq()[b]).0 by {
                Self::lemma_sorted_from_adjacent(self.entries_seq(), a, b);
            }
        }
        true
    }

    proof fn lemma_sorted_from_adjacent(s: Seq<(u16, V)>, a: int, b: int)
        requires
            forall|j: int| 1 <= j < s.len() ==> (#[trigger] s[j - 1]).0 < s[j].0,
            0 <= a < b < s.len(),
        ensures
            s[a].0 < s[b].0,
        decreases b - a,
    {
        if a + 1 == b {
            assert(s[b - 1].0 < s[b].0);
        } else {
            Self::lemma_sorted_from_adjacent(s, a, b - 1);
            assert(s[b - 1].0 < s[b].0);
        }
    }

    /// Give up the map for its entries, in key order.
    pub fn into_entries(self) -> (r: Vec<(u16, V)>)
        ensures
            r@ == self.entries_seq(),
    {
        self.entries
    }

    /// Append an entry whose key is larger than every stored key.
    pub fn push_back(&mut self, k: u16, v: V)
        requires
            old(self).wf(),
            forall|j: int| 0 <= j < old(self).spec_len() ==> (#[trigger] old(
                self,
            ).entries_seq()[j]).0 < k,
        ensures
            final(self).wf(),
            final(self).entries_seq() == old(self).entries_seq() + seq![(k, v)],
            final(self).dseq() == old(self).dseq() + seq![(k, v.deep_view())],
            final(self).dget(k) == Some(v.deep_view()),
            forall|k2: u16| k2 != k ==> final(self).dget(k2) == old(self).dget(k2),
    {
        let ghost olds = self.entries@;
        self.entries.push((k, v));
        proof {
            let news = self.entries@;
            assert(news =~= olds + seq![(k, v)]);
            assert forall|j1: int, j2: int|
                0 <= j1 < j2 < news.len() implies (#[trigger] news[j1]).0 < (
            #[trigger] news[j2]).0 by {
                if j2 < olds.len() {
                    assert(olds[j1].0 < olds[j2].0);
                } else {
                    assert(olds[j1].0 < k);
                }
            }
            assert(final(self).dseq() =~= old(self).dseq() + seq![(k, v.deep_view())]);
            Self::lemma_dget_present(news, k, news.len() - 1);
            assert forall|k2: u16| k2 != k implies Self::seq_dget(news, k2) == Self::seq_dget(
                olds,
                k2,
            ) by {
                Self::lemma_dget_entries(news, k2);
                Self::lemma_dget_entries(olds, k2);
                if exists|j: int| 0 <= j < olds.len() && (#[trigger] olds[j]).0 == k2 {
                    let j = choose|j: int| 0 <= j < olds.len() && (#[trigger] olds[j]).0 == k2;
                    assert(news[j].0 == k2 && news[j].1 == olds[j].1);
                } else {
                    assert forall|j: int|
                        0 <= j < news.len() implies (#[trigger] news[j]).0 != k2 by {
                        if j < olds.len() {
                            assert(news[j] == olds[j]);
                        }
                    }
                }
            }
        }
    }

    proof fn lemma_dget_absent_old(s: Seq<(u16, V)>, k: u16, i: int)
        requires
            entries_sorted(s),
            0 <= i <= s.len(),
            forall|j: int| 0 <= j < i ==> (#[trigger] s[j]).0 < k,
            i < s.len() ==> s[i].0 > k,
        ensures
            Self::seq_dget(s, k) is None,
    {
        assert forall|j: int| 0 <= j < s.len() implies (#[trigger] s[j]).0 != k by {
            if j < i {
                assert(s[j].0 < k);
            } else {
                assert(i < s.len());
                if j > i {
                    assert(s[i].0 < s[j].0);
                }
            }
        }
        Self::lemma_dget_absent(s, k);
    }

    /// Lookup on the deep view agrees with `dget`.
    pub proof fn lemma_dget_is_dseq_lookup(self, k: u16)
        ensures
            self.dget(k) == seq_lookup(self.dseq(), k),
    {
        Self::lemma_seq_dget_lookup(self.entries_seq(), k);
    }

    proof fn lemma_seq_dget_lookup(s: Seq<(u16, V)>, k: u16)
        ensures
            Self::seq_dget(s, k) == seq_lookup(
                s.map_values(|e: (u16, V)| (e.0, e.1.deep_view())),
                k,
            ),
        decreases s.len(),
    {
        let m = s.map_values(|e: (u16, V)| (e.0, e.1.deep_view()));
        if s.len() == 0 {
        } else {
            assert(m[0] == (s[0].0, s[0].1.deep_view()));
            Self::lemma_seq_dget_lookup(s.drop_first(), k);
            assert(m.drop_first() =~= s.drop_first().map_values(
                |e: (u16, V)| (e.0, e.1.deep_view()),
            ));
        }
    }

    /// Two well-formed maps that agree on every lookup store, at the level
    /// of deep views, the same entries in the same order: the representation
    /// is canonical in the contents.
    pub proof fn lemma_canonical(m1: Self, m2: Self)
        requires
            m1.wf(),
            m2.wf(),
            forall|k: u16| #[trigger] m1.dget(k) == m2.dget(k),
        ensures
            m1.entries_seq().map_values(|e: (u16, V)| (e.0, e.1.deep_view()))
                =~= m2.entries_seq().map_values(|e: (u16, V)| (e.0, e.1.deep_view())),
    {
        assert forall|k: u16| #[trigger] Self::seq_dget(m1.entries_seq(), k) == Self::seq_dget(
            m2.entries_seq(),
            k,
        ) by {
            assert(m1.dget(k) == m2.dget(k));
        }
        Self::lemma_canonical_seq(m1.entries_seq(), m2.entries_seq());
    }

    proof fn lemma_canonical_seq(s1: Seq<(u16, V)>, s2: Seq<(u16, V)>)
        requires
            entries_sorted(s1),
            entries_sorted(s2),
            forall|k: u16| #[trigger] Self::seq_dget(s1, k) == Self::seq_dget(s2, k),
        ensures
            s1.map_values(|e: (u16, V)| (e.0, e.1.deep_view())) =~= s2.map_values(
                |e: (u16, V)| (e.0, e.1.deep_view()),
            ),
        decreases s1.len() + s2.len(),
    {
        if s1.len() == 0 && s2.len() == 0 {
        } else if s1.len() == 0 {
            Self::lemma_dget_present(s2, s2[0].0, 0);
            Self::lemma_dget_absent(s1, s2[0].0);
            assert(false);
        } else if s2.len() == 0 {
            Self::lemma_dget_present(s1, s1[0].0, 0);
            Self::lemma_dget_absent(s2, s1[0].0);
            assert(false);
        } else {
            let k1 = s1[0].0;
            let k2 = s2[0].0;
            Self::lemma_dget_present(s1, k1, 0);
            Self::lemma_dget_present(s2, k2, 0);
            // k1 occurs in s2, so some index of s2 carries k1; sortedness puts
            // s2's head at or below it, and symmetrically.
            Self::lemma_dget_entries(s2, k1);
            Self::lemma_dget_entries(s1, k2);
            if !(exists|i: int| 0 <= i < s2.len() && (#[trigger] s2[i]).0 == k1) {
                assert(Self::seq_dget(s2, k1) is None);
                assert(false);
            }
            if !(exists|i: int| 0 <= i < s1.len() && (#[trigger] s1[i]).0 == k2) {
                assert(Self::seq_dget(s1, k2) is None);
                assert(false);
            }
            let i2 = choose|i: int| 0 <= i < s2.len() && (#[trigger] s2[i]).0 == k1;
            let i1 = choose|i: int| 0 <= i < s1.len() && (#[trigger] s1[i]).0 == k2;
            assert(i2 > 0 ==> s2[0].0 < s2[i2].0);
            assert(i1 > 0 ==> s1[0].0 < s1[i1].0);
            assert(k1 == k2) by {
                if k1 < k2 {
                    assert(i2 == 0 ==> k2 == k1);
                    assert(i2 > 0 ==> k2 < k1);
                }
                if k2 < k1 {
                    assert(i1 == 0 ==> k1 == k2);
                    assert(i1 > 0 ==> k1 < k2);
                }
            }
            assert(s1[0].1.deep_view() == s2[0].1.deep_view());
            // the tails agree on every key
            let t1 = s1.drop_first();
            let t2 = s2.drop_first();
            assert forall|k: u16| #[trigger]
                Self::seq_dget(t1, k) == Self::seq_dget(t2, k) by {
                if k == k1 {
                    Self::lemma_head_key_not_in_tail(s1);
                    Self::lemma_head_key_not_in_tail(s2);
                } else {
                    assert(Self::seq_dget(s1, k) == Self::seq_dget(t1, k));
                    assert(Self::seq_dget(s2, k) == Self::seq_dget(t2, k));
                }
            }
            Self::lemma_canonical_seq(t1, t2);
            let f = |e: (u16, V)| (e.0, e.1.deep_view());
            assert(s1.map_values(f)[0] == s2.map_values(f)[0]);
            assert forall|j: int|
                0 <= j < s1.map_values(f).len() implies s1.map_values(f)[j] == s2.map_values(
                f,
            )[j] by {
                if j > 0 {
                    assert(t1.map_values(f) =~= t2.map_values(f));
                    assert(t1.map_values(f)[j - 1] == t2.map_values(f)[j - 1]);
                    assert(t1[j - 1] == s1[j]);
                    assert(t2[j - 1] == s2[j]);
                }
            }
        }
    }

    proof fn lemma_head_key_not_in_tail(s: Seq<(u16, V)>)
        requires
            entries_sorted(s),
            s.len() > 0,
        ensures
            Self::seq_dget(s.drop_first(), s[0].0) is None,
    {
        let t = s.drop_first();
        assert forall|j: int| 0 <= j < t.len() implies (#[trigger] t[j]).0 != s[0].0 by {
            assert(t[j] == s[j + 1]);
            assert(s[0].0 < s[j + 1].0);
        }
        Self::lemma_dget_absent(t, s[0].0);
    }
}

} // verus!
