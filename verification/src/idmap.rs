//! A small association map from `u64` identifiers to values.
//!
//! The session state keys everything by speaker identity (and audio-source
//! identity), so one ordered map with unique keys serves the speaker table,
//! the source table and the transcript buffer.  Entries keep their insertion
//! order, which makes draining the transcript buffer deterministic.

use vstd::prelude::*;

verus! {

/// An insertion-ordered map from `u64` keys to values, with unique keys.
pub struct IdMap<V> {
    entries: Vec<(u64, V)>,
}

impl<V> IdMap<V> {
    /// The entries in insertion order.
    pub closed spec fn entries_seq(&self) -> Seq<(u64, V)> {
        self.entries@
    }

    /// Well-formed: no key occurs twice.
    pub open spec fn wf(&self) -> bool {
        forall|i: int, j: int|
            0 <= i < j < self.entries_seq().len() ==> (#[trigger] self.entries_seq()[i]).0 != (
            #[trigger] self.entries_seq()[j]).0
    }

    pub open spec fn len_spec(&self) -> nat {
        self.entries_seq().len()
    }

    pub open spec fn contains_spec(&self, k: u64) -> bool {
        exists|i: int|
            0 <= i < self.entries_seq().len() && (#[trigger] self.entries_seq()[i]).0 == k
    }

    /// The index of the entry with key `k` (meaningful only when present
    /// and the map is well-formed).
    pub open spec fn index_of(&self, k: u64) -> int {
        choose|i: int|
            0 <= i < self.entries_seq().len() && (#[trigger] self.entries_seq()[i]).0 == k
    }

    /// The value stored under `k`, if any.
    pub open spec fn get_spec(&self, k: u64) -> Option<V> {
        if self.contains_spec(k) {
            Some(self.entries_seq()[self.index_of(k)].1)
        } else {
            None
        }
    }

    /// In a well-formed map, any entry holding key `k` is the entry
    /// `index_of(k)` points at.
    pub proof fn lemma_unique_index(&self, k: u64, i: int)
        requires
            self.wf(),
            0 <= i < self.entries_seq().len(),
            self.entries_seq()[i].0 == k,
        ensures
            self.contains_spec(k),
            self.index_of(k) == i,
            self.get_spec(k) == Some(self.entries_seq()[i].1),
    {
        let j = self.index_of(k);
        assert(0 <= j < self.entries_seq().len() && self.entries_seq()[j].0 == k);
    }

    pub fn new() -> (r: Self)
        ensures
            r.wf(),
            r.entries_seq() =~= Seq::<(u64, V)>::empty(),
            r.len_spec() == 0,
    {
        IdMap { entries: Vec::new() }
    }

    pub fn len(&self) -> (r: usize)
        ensures
            r == self.len_spec(),
    {
        self.entries.len()
    }

    pub fn is_empty(&self) -> (r: bool)
        ensures
            r == (self.len_spec() == 0),
    {
        self.entries.len() == 0
    }

    #[verifier::loop_isolation(false)]
    pub fn contains(&self, k: u64) -> (r: bool)
        requires
            self.wf(),
        ensures
            r == self.contains_spec(k),
    {
        let n = self.entries.len();
        let mut i: usize = 0;
        while i < n
            invariant
                n == self.entries_seq().len(),
                0 <= i <= n,
                forall|j: int| 0 <= j < i ==> (#[trigger] self.entries_seq()[j]).0 != k,
            decreases n - i,
        {
            if self.entries[i].0 == k {
                return true;
            }
            i += 1;
        }
        false
    }

    #[verifier::loop_isolation(false)]
    pub fn get(&self, k: u64) -> (r: Option<&V>)
        requires
            self.wf(),
        ensures
            match r {
                Some(v) => self.get_spec(k) == Some(*v),
                None => self.get_spec(k) is None,
            },
    {
        let n = self.entries.len();
        let mut i: usize = 0;
        while i < n
            invariant
                self.wf(),
                n == self.entries_seq().len(),
                0 <= i <= n,
                forall|j: int| 0 <= j < i ==> (#[trigger] self.entries_seq()[j]).0 != k,
            decreases n - i,
        {
            if self.entries[i].0 == k {
                proof {
                    self.lemma_unique_index(k, i as int);
                }
                return Some(&self.entries[i].1);
            }
            i += 1;
        }
        None
    }

    /// Insert `v` under `k`, replacing any previous value in place and
    /// appending a new entry otherwise.
    #[verifier::loop_isolation(false)]
    pub fn insert(&mut self, k: u64, v: V)
        requires
            old(self).wf(),
        ensures
            final(self).wf(),
            old(self).contains_spec(k) ==> final(self).entries_seq() =~= old(
                self,
            ).entries_seq().update(old(self).index_of(k), (k, v)),
            !old(self).contains_spec(k) ==> final(self).entries_seq() =~= old(
                self,
            ).entries_seq().push((k, v)),
            final(self).get_spec(k) == Some(v),
            forall|k2: u64| k2 != k ==> final(self).get_spec(k2) == old(self).get_spec(k2),
            final(self).len_spec() == if old(self).contains_spec(k) {
                old(self).len_spec()
            } else {
                old(self).len_spec() + 1
            },
            forall|k2: u64| #[trigger]
                final(self).contains_spec(k2) <==> (old(self).contains_spec(k2) || k2 == k),
    {
        let ghost old_map = *self;
        let n = self.entries.len();
        let mut i: usize = 0;
        while i < n
            invariant
                self.wf(),
                *self == old_map,
                n == self.entries_seq().len(),
                0 <= i <= n,
                forall|j: int| 0 <= j < i ==> (#[trigger] self.entries_seq()[j]).0 != k,
            decreases n - i,
        {
            if self.entries[i].0 == k {
                proof {
                    old_map.lemma_unique_index(k, i as int);
                }
                self.entries[i] = (k, v);
                proof {
                    assert(self.entries_seq() =~= old_map.entries_seq().update(i as int, (k, v)));
                    self.lemma_unique_index(k, i as int);
                    assert forall|k2: u64| k2 != k implies self.get_spec(k2) == old_map.get_spec(
                        k2,
                    ) by {
                        Self::lemma_same_lookup_update(old_map, *self, k2, i as int);
                    }
                    assert forall|k2: u64| #[trigger]
                        self.contains_spec(k2) <==> (old_map.contains_spec(k2) || k2 == k) by {
                        if old_map.contains_spec(k2) {
                            let j = old_map.index_of(k2);
                            assert(self.entries_seq()[j].0 == k2);
                        }
                        if self.contains_spec(k2) && k2 != k {
                            let j = self.index_of(k2);
                            assert(old_map.entries_seq()[j].0 == k2);
                        }
                    }
                }
                return ;
            }
            i += 1;
        }
        self.entries.push((k, v));
        proof {
            assert(self.entries_seq() =~= old_map.entries_seq().push((k, v)));
            assert(!old_map.contains_spec(k));
            self.lemma_unique_index(k, old_map.entries_seq().len() as int);
            assert forall|k2: u64| k2 != k implies self.get_spec(k2) == old_map.get_spec(k2) by {
                Self::lemma_same_lookup_push(old_map, *self, k2);
            }
            assert forall|k2: u64| #[trigger]
                self.contains_spec(k2) <==> (old_map.contains_spec(k2) || k2 == k) by {
                if old_map.contains_spec(k2) {
                    let j = old_map.index_of(k2);
                    assert(self.entries_seq()[j].0 == k2);
                }
                if self.contains_spec(k2) && k2 != k {
                    let j = self.index_of(k2);
                    assert(old_map.entries_seq()[j].0 == k2);
                }
            }
        }
    }

    /// Lookup of a key other than the updated one is unchanged by an
    /// in-place entry update.
    proof fn lemma_same_lookup_update(m0: Self, m1: Self, k2: u64, i: int)
        requires
            m0.wf(),
            m1.wf(),
            0 <= i < m0.entries_seq().len(),
            m1.entries_seq() == m0.entries_seq().update(i, (m0.entries_seq()[i].0, m1.entries_seq()[i].1)),
            k2 != m0.entries_seq()[i].0,
        ensures
            m1.get_spec(k2) == m0.get_spec(k2),
    {
        if m0.contains_spec(k2) {
            let j = m0.index_of(k2);
            assert(m1.entries_seq()[j].0 == k2);
            m1.lemma_unique_index(k2, j);
        } else {
            assert forall|j: int| 0 <= j < m1.entries_seq().len() implies (
            #[trigger] m1.entries_seq()[j]).0 != k2 by {
                assert(m0.entries_seq()[j].0 != k2);
            }
        }
    }

    /// Lookup of a key other than the appended one is unchanged by a push.
    proof fn lemma_same_lookup_push(m0: Self, m1: Self, k2: u64)
        requires
            m0.wf(),
            m1.wf(),
            m1.entries_seq().len() == m0.entries_seq().len() + 1,
            m1.entries_seq() == m0.entries_seq().push(
                m1.entries_seq()[m0.entries_seq().len() as int],
            ),
            k2 != m1.entries_seq()[m0.entries_seq().len() as int].0,
        ensures
            m1.get_spec(k2) == m0.get_spec(k2),
    {
        if m0.contains_spec(k2) {
            let j = m0.index_of(k2);
            assert(m1.entries_seq()[j].0 == k2);
            m1.lemma_unique_index(k2, j);
        } else {
            assert forall|j: int| 0 <= j < m1.entries_seq().len() implies (
            #[trigger] m1.entries_seq()[j]).0 != k2 by {
                if j < m0.entries_seq().len() {
                    assert(m0.entries_seq()[j].0 != k2);
                }
            }
        }
    }

    /// Remove the entry under `k`, if present.
    #[verifier::loop_isolation(false)]
    pub fn remove(&mut self, k: u64)
        requires
            old(self).wf(),
        ensures
            final(self).wf(),
            !final(self).contains_spec(k),
            old(self).contains_spec(k) ==> final(self).entries_seq() =~= old(
                self,
            ).entries_seq().remove(old(self).index_of(k)),
            !old(self).contains_spec(k) ==> final(self).entries_seq() == old(self).entries_seq(),
            forall|k2: u64| k2 != k ==> final(self).get_spec(k2) == old(self).get_spec(k2),
            forall|k2: u64| #[trigger]
                final(self).contains_spec(k2) <==> (old(self).contains_spec(k2) && k2 != k),
            final(self).len_spec() == if old(self).contains_spec(k) {
                (old(self).len_spec() - 1) as nat
            } else {
                old(self).len_spec()
            },
    {
        let ghost old_map = *self;
        let n = self.entries.len();
        let mut i: usize = 0;
        while i < n
            invariant
                self.wf(),
                *self == old_map,
                n == self.entries_seq().len(),
                0 <= i <= n,
                forall|j: int| 0 <= j < i ==> (#[trigger] self.entries_seq()[j]).0 != k,
            decreases n - i,
        {
            if self.entries[i].0 == k {
                proof {
                    old_map.lemma_unique_index(k, i as int);
                }
                self.entries.remove(i);
                proof {
                    assert(self.entries_seq() =~= old_map.entries_seq().remove(i as int));
                    Self::lemma_lookup_after_remove(old_map, *self, k, i as int);
                }
                return ;
            }
            i += 1;
        }
        proof {
            assert(!old_map.contains_spec(k));
        }
    }

    /// After removing the entry at `i` (whose key is `k`), `k` is gone and
    /// every other key maps as before.
    proof fn lemma_lookup_after_remove(m0: Self, m1: Self, k: u64, i: int)
        requires
            m0.wf(),
            0 <= i < m0.entries_seq().len(),
            m0.entries_seq()[i].0 == k,
            m1.entries_seq() == m0.entries_seq().remove(i),
        ensures
            m1.wf(),
            !m1.contains_spec(k),
            forall|k2: u64| k2 != k ==> m1.get_spec(k2) == m0.get_spec(k2),
            forall|k2: u64| #[trigger] m1.contains_spec(k2) <==> (m0.contains_spec(k2) && k2 != k),
    {
        assert forall|p: int, q: int|
            0 <= p < q < m1.entries_seq().len() implies (#[trigger] m1.entries_seq()[p]).0 != (
        #[trigger] m1.entries_seq()[q]).0 by {
            let p0 = if p < i { p } else { p + 1 };
            let q0 = if q < i { q } else { q + 1 };
            assert(m0.entries_seq()[p0].0 != m0.entries_seq()[q0].0);
        }
        assert forall|j: int| 0 <= j < m1.entries_seq().len() implies (
        #[trigger] m1.entries_seq()[j]).0 != k by {
            let j0 = if j < i { j } else { j + 1 };
            assert(m1.entries_seq()[j] == m0.entries_seq()[j0]);
            if j0 != i {
                m0.lemma_unique_index(k, i);
                if m0.entries_seq()[j0].0 == k {
                    m0.lemma_unique_index(k, j0);
                }
            }
        }
        assert forall|k2: u64| k2 != k implies m1.get_spec(k2) == m0.get_spec(k2) by {
            if m0.contains_spec(k2) {
                let j0 = m0.index_of(k2);
                assert(m0.entries_seq()[j0].0 == k2);
                assert(j0 != i);
                let j1 = if j0 < i { j0 } else { j0 - 1 };
                assert(m1.entries_seq()[j1] == m0.entries_seq()[j0]);
                m1.lemma_unique_index(k2, j1);
            } else {
                assert forall|j: int| 0 <= j < m1.entries_seq().len() implies (
                #[trigger] m1.entries_seq()[j]).0 != k2 by {
                    let j0 = if j < i { j } else { j + 1 };
                    assert(m0.entries_seq()[j0].0 != k2);
                }
            }
        }
        assert forall|k2: u64| #[trigger]
            m1.contains_spec(k2) <==> (m0.contains_spec(k2) && k2 != k) by {
            if m1.contains_spec(k2) {
                let j = m1.index_of(k2);
                let j0 = if j < i { j } else { j + 1 };
                assert(m0.entries_seq()[j0].0 == k2);
            }
            if m0.contains_spec(k2) && k2 != k {
                let j0 = m0.index_of(k2);
                assert(j0 != i);
                let j1 = if j0 < i { j0 } else { j0 - 1 };
                assert(m1.entries_seq()[j1].0 == k2);
            }
        }
    }

    /// Take all entries, leaving the map empty.
    pub fn drain(&mut self) -> (r: Vec<(u64, V)>)
        ensures
            r@ == old(self).entries_seq(),
            final(self).entries_seq() =~= Seq::<(u64, V)>::empty(),
            final(self).wf(),
    {
        let mut taken: Vec<(u64, V)> = Vec::new();
        core::mem::swap(&mut self.entries, &mut taken);
        taken
    }
}

impl IdMap<u64> {
    /// Remove every entry whose value equals `val` (keeping entry order).
    #[verifier::loop_isolation(false)]
    pub fn remove_by_value(&mut self, val: u64)
        requires
            old(self).wf(),
        ensures
            final(self).wf(),
            final(self).entries_seq() =~= old(self).entries_seq().filter(
                |e: (u64, u64)| e.1 != val,
            ),
            forall|s: u64| #[trigger]
                final(self).contains_spec(s) <==> (old(self).contains_spec(s) && old(
                self,
                ).get_spec(s) != Some(val)),
            forall|s: u64|
                final(self).contains_spec(s) ==> final(self).get_spec(s) == old(self).get_spec(s),
    {
        let ghost old_map = *self;
        let ghost old_seq = self.entries_seq();
        let n = self.entries.len();
        let mut kept: Vec<(u64, u64)> = Vec::new();
        let mut i: usize = 0;
        while i < n
            invariant
                self.wf(),
                self.entries_seq() == old_seq,
                n == old_seq.len(),
                0 <= i <= n,
                kept@ =~= old_seq.take(i as int).filter(|e: (u64, u64)| e.1 != val),
            decreases n - i,
        {
            let e = self.entries[i];
            proof {
                assert(old_seq.take(i + 1).drop_last() =~= old_seq.take(i as int));
                reveal_with_fuel(Seq::filter, 2);
            }
            if e.1 != val {
                kept.push(e);
            }
            i += 1;
        }
        proof {
            assert(old_seq.take(n as int) =~= old_seq);
        }
        self.entries = kept;
        proof {
            Self::lemma_filter_keeps_wf(old_seq, self.entries_seq(), val);
            let pred = |e: (u64, u64)| e.1 != val;
            assert forall|s: u64| #[trigger]
                self.contains_spec(s) implies (old_map.contains_spec(s) && old_map.get_spec(s)
                != Some(val)) by {
                let j = self.index_of(s);
                Self::lemma_filter_member(old_seq, val, j);
                let i0 = choose|i0: int|
                    0 <= i0 < old_seq.len() && old_seq[i0] == self.entries_seq()[j];
                old_map.lemma_unique_index(s, i0);
                old_seq.lemma_filter_pred(pred, j);
            }
            assert forall|s: u64|
                old_map.contains_spec(s) && old_map.get_spec(s) != Some(val) implies #[trigger]
                self.contains_spec(s) by {
                let i0 = old_map.index_of(s);
                old_seq.lemma_filter_contains(pred, i0);
                let j = choose|j: int|
                    0 <= j < self.entries_seq().len() && self.entries_seq()[j] == old_seq[i0];
                assert(self.entries_seq()[j].0 == s);
            }
            assert forall|s: u64| self.contains_spec(s) implies self.get_spec(s)
                == old_map.get_spec(s) by {
                let j = self.index_of(s);
                self.lemma_unique_index(s, j);
                Self::lemma_filter_member(old_seq, val, j);
                let i0 = choose|i0: int|
                    0 <= i0 < old_seq.len() && old_seq[i0] == self.entries_seq()[j];
                old_map.lemma_unique_index(s, i0);
            }
        }
    }

    /// Filtering a unique-key entry sequence keeps its keys unique.
    proof fn lemma_filter_keeps_wf(s0: Seq<(u64, u64)>, s1: Seq<(u64, u64)>, val: u64)
        requires
            forall|i: int, j: int|
                0 <= i < j < s0.len() ==> (#[trigger] s0[i]).0 != (#[trigger] s0[j]).0,
            s1 == s0.filter(|e: (u64, u64)| e.1 != val),
        ensures
            forall|i: int, j: int|
                0 <= i < j < s1.len() ==> (#[trigger] s1[i]).0 != (#[trigger] s1[j]).0,
        decreases s0.len(),
    {
        if s0.len() > 0 {
            let prefix = s0.drop_last();
            let last = s0.last();
            reveal_with_fuel(Seq::filter, 2);
            Self::lemma_filter_keeps_wf(prefix, prefix.filter(|e: (u64, u64)| e.1 != val), val);
            if last.1 != val {
                assert(s1 == prefix.filter(|e: (u64, u64)| e.1 != val).push(last));
                let p1 = prefix.filter(|e: (u64, u64)| e.1 != val);
                assert forall|i: int, j: int|
                    0 <= i < j < s1.len() implies (#[trigger] s1[i]).0 != (
                #[trigger] s1[j]).0 by {
                    if j < p1.len() {
                    } else {
                        assert(s1[j] == last);
                        let e = p1[i];
                        Self::lemma_filter_member(prefix, val, i);
                    }
                }
            } else {
                assert(s1 == prefix.filter(|e: (u64, u64)| e.1 != val));
            }
        }
    }

    /// Every element of the filtered sequence occurs in the unfiltered one.
    proof fn lemma_filter_member(s: Seq<(u64, u64)>, val: u64, i: int)
        requires
            0 <= i < s.filter(|e: (u64, u64)| e.1 != val).len(),
        ensures
            exists|j: int|
                0 <= j < s.len() && s[j] == s.filter(|e: (u64, u64)| e.1 != val)[i],
        decreases s.len(),
    {
        reveal_with_fuel(Seq::filter, 2);
        if s.len() > 0 {
            let prefix = s.drop_last();
            let f1 = prefix.filter(|e: (u64, u64)| e.1 != val);
            if i < f1.len() {
                Self::lemma_filter_member(prefix, val, i);
                let j = choose|j: int| 0 <= j < prefix.len() && prefix[j] == f1[i];
                assert(s[j] == f1[i]);
            } else {
                assert(s[s.len() - 1] == s.filter(|e: (u64, u64)| e.1 != val)[i]);
            }
        }
    }
}

} // verus!
