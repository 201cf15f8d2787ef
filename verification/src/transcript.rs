//! The shared per-speaker transcript buffer.
//!
//! Recognition fragments are appended per speaker as they arrive and the
//! decision task drains the whole buffer once per cycle.  Text that could
//! not be finalised yet (its speaker is still mid-utterance) is requeued in
//! front of whatever arrives next, so no utterance is truncated.

use crate::idmap::IdMap;
use crate::text::{append_chars, clone_chars};
use vstd::prelude::*;

verus! {

/// Pending utterance text per speaker, in first-buffered order.
pub struct TranscriptBuffer {
    map: IdMap<Vec<char>>,
}

impl TranscriptBuffer {
    /// The buffered entries in order.
    pub closed spec fn entries_seq(&self) -> Seq<(u64, Vec<char>)> {
        self.map.entries_seq()
    }

    pub closed spec fn wf(&self) -> bool {
        self.map.wf()
    }

    pub closed spec fn contains_spec(&self, k: u64) -> bool {
        self.map.contains_spec(k)
    }

    /// The text buffered for speaker `k` (empty when nothing is buffered).
    pub closed spec fn pending_of(&self, k: u64) -> Seq<char> {
        match self.map.get_spec(k) {
            Some(v) => v@,
            None => Seq::empty(),
        }
    }

    pub open spec fn len_spec(&self) -> nat {
        self.entries_seq().len()
    }

    pub fn new() -> (r: Self)
        ensures
            r.wf(),
            r.entries_seq() =~= Seq::<(u64, Vec<char>)>::empty(),
            forall|k: u64| (#[trigger] r.pending_of(k)) =~= Seq::<char>::empty(),
            forall|k: u64| !(#[trigger] r.contains_spec(k)),
    {
        let r = TranscriptBuffer { map: IdMap::new() };
        proof {
            assert forall|k: u64| !(#[trigger] r.map.contains_spec(k)) by {}
        }
        r
    }

    pub fn is_empty(&self) -> (r: bool)
        ensures
            r == (self.len_spec() == 0),
    {
        self.map.is_empty()
    }

    /// Append a fragment to the end of speaker `k`'s pending text.
    pub fn append(&mut self, k: u64, frag: &Vec<char>)
        requires
            old(self).wf(),
        ensures
            final(self).wf(),
            final(self).pending_of(k) == old(self).pending_of(k) + frag@,
            final(self).contains_spec(k),
            forall|k2: u64| k2 != k ==> final(self).pending_of(k2) == old(self).pending_of(k2),
            forall|k2: u64| #[trigger]
                final(self).contains_spec(k2) <==> (old(self).contains_spec(k2) || k2 == k),
            old(self).contains_spec(k) ==> final(self).len_spec() == old(self).len_spec(),
            !old(self).contains_spec(k) ==> final(self).len_spec() == old(self).len_spec() + 1,
    {
        let new_v: Vec<char> = match self.map.get(k) {
            Some(v) => {
                let mut c = clone_chars(v);
                append_chars(&mut c, frag);
                c
            },
            None => clone_chars(frag),
        };
        self.map.insert(k, new_v);
    }

    /// Put text back in front of speaker `k`'s pending text, so that
    /// fragments buffered later keep their relative order.
    pub fn requeue(&mut self, k: u64, text: &Vec<char>)
        requires
            old(self).wf(),
        ensures
            final(self).wf(),
            final(self).pending_of(k) == text@ + old(self).pending_of(k),
            final(self).contains_spec(k),
            forall|k2: u64| k2 != k ==> final(self).pending_of(k2) == old(self).pending_of(k2),
            forall|k2: u64| #[trigger]
                final(self).contains_spec(k2) <==> (old(self).contains_spec(k2) || k2 == k),
            !old(self).contains_spec(k) ==> {
                &&& final(self).entries_seq().len() == old(self).entries_seq().len() + 1
                &&& final(self).entries_seq().last().0 == k
                &&& final(self).entries_seq().last().1@ == text@
                &&& forall|i: int|
                    0 <= i < old(self).entries_seq().len() ==> final(self).entries_seq()[i] == old(
                        self,
                    ).entries_seq()[i]
            },
    {
        let new_v: Vec<char> = match self.map.get(k) {
            Some(v) => {
                let mut c = clone_chars(text);
                append_chars(&mut c, v);
                c
            },
            None => clone_chars(text),
        };
        self.map.insert(k, new_v);
    }

    /// Drop whatever is buffered for speaker `k`.
    pub fn remove(&mut self, k: u64)
        requires
            old(self).wf(),
        ensures
            final(self).wf(),
            !final(self).contains_spec(k),
            final(self).pending_of(k) =~= Seq::<char>::empty(),
            forall|k2: u64| k2 != k ==> final(self).pending_of(k2) == old(self).pending_of(k2),
            forall|k2: u64| #[trigger]
                final(self).contains_spec(k2) <==> (old(self).contains_spec(k2) && k2 != k),
    {
        self.map.remove(k);
    }

    /// In a well-formed buffer, no speaker has two entries.
    pub proof fn lemma_entries_unique(&self)
        requires
            self.wf(),
        ensures
            forall|i: int, j: int|
                0 <= i < j < self.entries_seq().len() ==> (#[trigger] self.entries_seq()[i]).0 != (
                #[trigger] self.entries_seq()[j]).0,
    {
    }

    /// Every entry's speaker is a key of the buffer.
    pub proof fn lemma_entry_key_contained(&self, i: int)
        requires
            self.wf(),
            0 <= i < self.entries_seq().len(),
        ensures
            self.contains_spec(self.entries_seq()[i].0),
    {
    }

    /// Take the whole buffer, in buffered order, leaving it empty.
    pub fn drain(&mut self) -> (r: Vec<(u64, Vec<char>)>)
        ensures
            r@ == old(self).entries_seq(),
            final(self).wf(),
            final(self).entries_seq() =~= Seq::<(u64, Vec<char>)>::empty(),
            forall|k: u64| (#[trigger] final(self).pending_of(k)) =~= Seq::<char>::empty(),
            forall|k: u64| !(#[trigger] final(self).contains_spec(k)),
    {
        let r = self.map.drain();
        proof {
            assert forall|k: u64| !(#[trigger] self.map.contains_spec(k)) by {}
        }
        r
    }
}

} // verus!
