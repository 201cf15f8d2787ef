//! The turn-taking decision procedure.
//!
//! Once per interval the decision task drains the transcript buffer and
//! decides whether an utterance is finished: while the orchestrator is
//! engaged with an addressed speaker only that speaker's settled text is
//! finalised; while engaged with nobody in particular, every settled text
//! is combined into one group request as soon as at most one of its
//! authors is still mid-utterance; while idle, settled text engages the
//! orchestrator (on a trigger when several participants are present).
//! At most one response pipeline run is in flight at a time: a decision
//! that invokes the pipeline blocks further invocations until the
//! driver reports playback completion.

use crate::idmap::IdMap;
use crate::session::{OrchestrationState, SpeakerState, VoiceSession};
use crate::text::{trim_chars, trim_spec};
use vstd::prelude::*;

verus! {

/// What one decision cycle asks the driver to do.
pub enum CycleDecision {
    /// Nothing to run this cycle (unfinished text was requeued).
    NoAction,
    /// The addressed speaker's utterance is final: run the response
    /// pipeline for this text.
    InvokeSingle { speaker: u64, text: Vec<char> },
    /// Several settled utterances are answered at once: run the response
    /// pipeline for the combined parts, in buffer order.
    InvokeGroup { parts: Vec<(u64, Vec<char>)> },
}

/// Spec view of a cycle decision.
pub enum CycleOutcome {
    Quiet,
    Single { speaker: u64, text: Seq<char> },
    Group { parts: Seq<(u64, Seq<char>)> },
}

/// The spec view of buffered entries.
pub open spec fn buf_view(s: Seq<(u64, Vec<char>)>) -> Seq<(u64, Seq<char>)> {
    s.map_values(|e: (u64, Vec<char>)| (e.0, e.1@))
}

pub open spec fn outcome_of(d: CycleDecision) -> CycleOutcome {
    match d {
        CycleDecision::NoAction => CycleOutcome::Quiet,
        CycleDecision::InvokeSingle { speaker, text } => CycleOutcome::Single {
            speaker,
            text: text@,
        },
        CycleDecision::InvokeGroup { parts } => CycleOutcome::Group { parts: buf_view(parts@) },
    }
}

/// The orchestration-relevant projection of a session: the turn-taking
/// flags and the buffered text.
pub struct OrchView {
    pub engaged: bool,
    pub addressed: Option<u64>,
    pub awaiting: bool,
    pub pending: Seq<(u64, Seq<char>)>,
}

pub open spec fn session_orch_view(s: VoiceSession) -> OrchView {
    OrchView {
        engaged: s.orch.engaged,
        addressed: s.orch.addressed,
        awaiting: s.orch.awaiting_playback,
        pending: buf_view(s.buffer.entries_seq()),
    }
}

/// `v` with its pending text replaced.
pub open spec fn with_pending(v: OrchView, pending: Seq<(u64, Seq<char>)>) -> OrchView {
    OrchView { engaged: v.engaged, addressed: v.addressed, awaiting: v.awaiting, pending }
}

/// `v` with a response pipeline run now in flight.
pub open spec fn with_awaiting(v: OrchView) -> OrchView {
    OrchView { engaged: v.engaged, addressed: v.addressed, awaiting: true, pending: v.pending }
}

/// The per-speaker speaking predicate of session `s` at instant `now`.
pub open spec fn speaking_of(s: VoiceSession, now: u64) -> spec_fn(u64) -> bool {
    |u: u64| s.speaking_at(u, now)
}

/// The settled candidates of a cycle: every entry trimmed, blanks
/// dropped, buffer order kept.
pub open spec fn settled_spec(entries: Seq<(u64, Seq<char>)>) -> Seq<(u64, Seq<char>)>
    decreases entries.len(),
{
    if entries.len() == 0 {
        Seq::empty()
    } else {
        let rest = settled_spec(entries.drop_last());
        let e = entries.last();
        if trim_spec(e.1).len() > 0 {
            rest.push((e.0, trim_spec(e.1)))
        } else {
            rest
        }
    }
}

/// How many of the settled entries belong to a speaker still speaking.
pub open spec fn speaking_count(
    pend: Seq<(u64, Seq<char>)>,
    speaking: spec_fn(u64) -> bool,
) -> nat
    decreases pend.len(),
{
    if pend.len() == 0 {
        0
    } else {
        speaking_count(pend.drop_last(), speaking) + if speaking(pend.last().0) {
            1nat
        } else {
            0nat
        }
    }
}

/// The settled entries an idle cycle keeps for later: every author still
/// speaking, and — unless a multi-participant session lacks a trigger —
/// every settled author about to engage.
pub open spec fn waiting_kept(
    pend: Seq<(u64, Seq<char>)>,
    speaking: spec_fn(u64) -> bool,
    multi: bool,
    trigger: bool,
) -> Seq<(u64, Seq<char>)>
    decreases pend.len(),
{
    if pend.len() == 0 {
        Seq::empty()
    } else {
        let rest = waiting_kept(pend.drop_last(), speaking, multi, trigger);
        let e = pend.last();
        if speaking(e.0) || !multi || trigger {
            rest.push(e)
        } else {
            rest
        }
    }
}

/// The settled entries that engage an idle orchestrator: authors no
/// longer speaking, admitted by the trigger when several participants
/// are present.
pub open spec fn engaging(
    pend: Seq<(u64, Seq<char>)>,
    speaking: spec_fn(u64) -> bool,
    multi: bool,
    trigger: bool,
) -> Seq<(u64, Seq<char>)>
    decreases pend.len(),
{
    if pend.len() == 0 {
        Seq::empty()
    } else {
        let rest = engaging(pend.drop_last(), speaking, multi, trigger);
        let e = pend.last();
        if !speaking(e.0) && (!multi || trigger) {
            rest.push(e)
        } else {
            rest
        }
    }
}

/// The trimmed text buffered for speaker `t` (empty when none, or blank).
pub open spec fn target_settled(entries: Seq<(u64, Seq<char>)>, t: u64) -> Seq<char>
    decreases entries.len(),
{
    if entries.len() == 0 {
        Seq::empty()
    } else {
        let rest = target_settled(entries.drop_last(), t);
        if rest.len() > 0 {
            rest
        } else if entries.last().0 == t {
            trim_spec(entries.last().1)
        } else {
            Seq::empty()
        }
    }
}

/// One decision cycle over the orchestration projection.  `speaking`
/// reads the debounced per-speaker flag at the cycle instant, `multi`
/// says whether the session has more than one participant, and `trigger`
/// is the engagement predicate for multi-participant sessions.
pub open spec fn cycle_transition(
    v: OrchView,
    speaking: spec_fn(u64) -> bool,
    multi: bool,
    trigger: bool,
) -> (OrchView, CycleOutcome) {
    if v.awaiting {
        // A response is still being spoken: no draining, no decision.
        (v, CycleOutcome::Quiet)
    } else if v.engaged {
        match v.addressed {
            Some(t) => {
                let tt = target_settled(v.pending, t);
                if tt.len() == 0 {
                    // Nothing settled from the addressed speaker; text of
                    // everybody else is not being listened to.
                    (with_pending(v, Seq::empty()), CycleOutcome::Quiet)
                } else if speaking(t) {
                    // Still mid-utterance: wait, keeping the text.
                    (with_pending(v, seq![(t, tt)]), CycleOutcome::Quiet)
                } else {
                    (
                        with_awaiting(with_pending(v, Seq::empty())),
                        CycleOutcome::Single { speaker: t, text: tt },
                    )
                }
            },
            None => {
                let pend = settled_spec(v.pending);
                if speaking_count(pend, speaking) > 1 {
                    // More than one author is still mid-utterance: defer.
                    (with_pending(v, pend), CycleOutcome::Quiet)
                } else if pend.len() > 0 {
                    (
                        with_awaiting(with_pending(v, Seq::empty())),
                        CycleOutcome::Group { parts: pend },
                    )
                } else {
                    (with_pending(v, Seq::empty()), CycleOutcome::Quiet)
                }
            },
        }
    } else {
        let pend = settled_spec(v.pending);
        let keep = waiting_kept(pend, speaking, multi, trigger);
        let engages = engaging(pend, speaking, multi, trigger);
        (
            OrchView {
                engaged: engages.len() > 0,
                addressed: if !multi && engages.len() > 0 {
                    Some(engages.last().0)
                } else {
                    None
                },
                awaiting: false,
                pending: keep,
            },
            CycleOutcome::Quiet,
        )
    }
}

/// Every settled entry's key comes from an entry of the cycle's input.
proof fn lemma_settled_keys_from(entries: Seq<(u64, Seq<char>)>, i: int)
    requires
        0 <= i < settled_spec(entries).len(),
    ensures
        exists|j: int|
            0 <= j < entries.len() && (#[trigger] entries[j]).0 == settled_spec(entries)[i].0,
    decreases entries.len(),
{
    if entries.len() > 0 {
        let rest = settled_spec(entries.drop_last());
        if i < rest.len() {
            lemma_settled_keys_from(entries.drop_last(), i);
            let j = choose|j: int|
                0 <= j < entries.drop_last().len() && (#[trigger] entries.drop_last()[j]).0
                    == rest[i].0;
            assert(entries[j].0 == settled_spec(entries)[i].0);
        } else {
            assert(entries[entries.len() - 1].0 == settled_spec(entries)[i].0);
        }
    }
}

/// Settled entries keep the input's key uniqueness.
proof fn lemma_settled_keys_unique(entries: Seq<(u64, Seq<char>)>)
    requires
        forall|i: int, j: int|
            0 <= i < j < entries.len() ==> (#[trigger] entries[i]).0 != (#[trigger] entries[j]).0,
    ensures
        forall|i: int, j: int|
            0 <= i < j < settled_spec(entries).len() ==> (#[trigger] settled_spec(entries)[i]).0
                != (#[trigger] settled_spec(entries)[j]).0,
    decreases entries.len(),
{
    if entries.len() > 0 {
        let prefix = entries.drop_last();
        lemma_settled_keys_unique(prefix);
        let rest = settled_spec(prefix);
        let out = settled_spec(entries);
        if trim_spec(entries.last().1).len() > 0 {
            assert forall|i: int, j: int|
                0 <= i < j < out.len() implies (#[trigger] out[i]).0 != (#[trigger] out[j]).0 by {
                if j == out.len() - 1 {
                    lemma_settled_keys_from(prefix, i);
                    let jj = choose|jj: int|
                        0 <= jj < prefix.len() && (#[trigger] prefix[jj]).0 == rest[i].0;
                    assert(entries[jj].0 == out[i].0);
                    assert(entries[entries.len() - 1].0 == out[j].0);
                }
            }
        }
    }
}

/// A buffer holding one already-trimmed text for speaker `t` settles to
/// exactly that text.
pub proof fn lemma_trimmed_settles(txt: Seq<char>, t: u64)
    ensures
        target_settled(seq![(t, trim_spec(txt))], t) == trim_spec(txt),
{
    crate::text::lemma_trim_idempotent(txt);
    let s = seq![(t, trim_spec(txt))];
    assert(s.drop_last() =~= Seq::<(u64, Seq<char>)>::empty());
    assert(target_settled(s.drop_last(), t) == Seq::<char>::empty());
    assert(s.last() == (t, trim_spec(txt)));
    assert(target_settled(s, t) == trim_spec(trim_spec(txt)));
}

/// A structured instruction returned by the chat backend next to its
/// reply text, applied when playback of that reply completes.
pub enum Action {
    /// Hand the conversation to another speaker and stay engaged.
    Redirect { speaker: u64 },
    /// Close the topic and return to open listening.
    EndTopic,
    /// Post this text to the configured auxiliary channel.  The driver
    /// performs the send; the turn-taking state is unaffected.
    PostMessage { text: Vec<char> },
    /// An instruction this orchestrator does not interpret.
    Other,
}

/// The engaged/addressed state after applying `actions` in order.  A
/// redirect to an untracked speaker is treated as closing the topic.
pub open spec fn apply_actions_spec(
    speakers: IdMap<SpeakerState>,
    st: (bool, Option<u64>),
    actions: Seq<Action>,
) -> (bool, Option<u64>)
    decreases actions.len(),
{
    if actions.len() == 0 {
        st
    } else {
        let prev = apply_actions_spec(speakers, st, actions.drop_last());
        match actions.last() {
            Action::Redirect { speaker } => if speakers.contains_spec(speaker) {
                (true, Some(speaker))
            } else {
                (false, None)
            },
            Action::EndTopic => (false, None),
            Action::PostMessage { .. } => prev,
            Action::Other => prev,
        }
    }
}

/// An addressed speaker produced by action application is tracked and
/// implies engagement.
pub proof fn lemma_apply_actions_wf(
    speakers: IdMap<SpeakerState>,
    st: (bool, Option<u64>),
    actions: Seq<Action>,
)
    requires
        st.1 matches Some(u) ==> st.0 && speakers.contains_spec(u),
    ensures
        apply_actions_spec(speakers, st, actions).1 matches Some(u) ==> apply_actions_spec(
            speakers,
            st,
            actions,
        ).0 && speakers.contains_spec(u),
    decreases actions.len(),
{
    if actions.len() > 0 {
        lemma_apply_actions_wf(speakers, st, actions.drop_last());
    }
}

impl VoiceSession {
    /// One decision cycle at instant `now`.  Drains the buffer, requeues
    /// what must wait, and returns at most one pipeline invocation, as
    /// [`cycle_transition`] describes.  Participants, routes and the
    /// continuation token are untouched.
    pub fn decision_cycle(&mut self, now: u64, trigger: bool) -> (r: CycleDecision)
        requires
            old(self).wf(),
        ensures
            final(self).wf(),
            final(self).speakers == old(self).speakers,
            final(self).sources == old(self).sources,
            final(self).orch.continuation == old(self).orch.continuation,
            ({
                let (v2, o) = cycle_transition(
                    session_orch_view(*old(self)),
                    speaking_of(*old(self), now),
                    old(self).speakers.len_spec() != 1,
                    trigger,
                );
                session_orch_view(*final(self)) == v2 && outcome_of(r) == o
            }),
    {
        let ghost s0 = *self;
        let ghost v0 = session_orch_view(s0);
        let multi = self.participant_count() != 1;

        if self.orch.awaiting_playback {
            return CycleDecision::NoAction;
        }

        let engaged = self.orch.engaged;
        let addressed = self.orch.addressed;
        let entries = self.buffer.drain();
        proof {
            assert(buf_view(entries@) == v0.pending);
            s0.buffer.lemma_entries_unique();
            assert forall|i: int, j: int|
                0 <= i < j < entries@.len() implies (#[trigger] entries@[i]).0 != (
            #[trigger] entries@[j]).0 by {
                assert(entries@[i] == s0.buffer.entries_seq()[i]);
                assert(entries@[j] == s0.buffer.entries_seq()[j]);
            }
            assert forall|i: int|
                0 <= i < entries@.len() implies s0.speakers.contains_spec(
                (#[trigger] entries@[i]).0,
            ) by {
                s0.buffer.lemma_entry_key_contained(i);
            }
        }

        match addressed {
            Some(t) if engaged => self.cycle_engaged_target(Ghost(s0), Ghost(v0), entries, t, now),
            _ => {
                if engaged {
                    self.cycle_engaged_group(Ghost(s0), Ghost(v0), entries, now)
                } else {
                    self.cycle_idle(Ghost(s0), Ghost(v0), entries, multi, now, trigger)
                }
            },
        }
    }

    /// The engaged-with-addressed-speaker arm of the cycle: only the
    /// addressed speaker's settled text can finalise an utterance.
    #[verifier::loop_isolation(false)]
    fn cycle_engaged_target(
        &mut self,
        Ghost(s0): Ghost<VoiceSession>,
        Ghost(v0): Ghost<OrchView>,
        entries: Vec<(u64, Vec<char>)>,
        t: u64,
        now: u64,
    ) -> (r: CycleDecision)
        requires
            s0.wf(),
            old(self).speakers == s0.speakers,
            old(self).sources == s0.sources,
            old(self).orch == s0.orch,
            old(self).buffer.wf(),
            old(self).buffer.entries_seq().len() == 0,
            forall|k: u64| !(#[trigger] old(self).buffer.contains_spec(k)),
            v0 == session_orch_view(s0),
            buf_view(entries@) == v0.pending,
            !s0.orch.awaiting_playback,
            s0.orch.engaged,
            s0.orch.addressed == Some(t),
        ensures
            final(self).wf(),
            final(self).speakers == s0.speakers,
            final(self).sources == s0.sources,
            final(self).orch.continuation == s0.orch.continuation,
            ({
                let tt = target_settled(v0.pending, t);
                if tt.len() == 0 {
                    &&& r is NoAction
                    &&& final(self).orch == s0.orch
                    &&& buf_view(final(self).buffer.entries_seq()) == Seq::<
                        (u64, Seq<char>),
                    >::empty()
                } else if speaking_of(s0, now)(t) {
                    &&& r is NoAction
                    &&& final(self).orch == s0.orch
                    &&& buf_view(final(self).buffer.entries_seq()) == seq![(t, tt)]
                } else {
                    &&& outcome_of(r) == (CycleOutcome::Single { speaker: t, text: tt })
                    &&& final(self).orch == (OrchestrationState {
                        engaged: true,
                        addressed: Some(t),
                        awaiting_playback: true,
                        continuation: s0.orch.continuation,
                    })
                    &&& buf_view(final(self).buffer.entries_seq()) == Seq::<
                        (u64, Seq<char>),
                    >::empty()
                }
            }),
    {
        let ghost ev = buf_view(entries@);
        let mut found: Vec<char> = Vec::new();
        let n = entries.len();
        let mut i: usize = 0;
        while i < n
            invariant
                0 <= i <= n,
                n == entries@.len(),
                found@ == target_settled(ev.take(i as int), t),
            decreases n - i,
        {
            proof {
                assert(ev.take(i + 1).drop_last() =~= ev.take(i as int));
                assert(ev[i as int] == (entries@[i as int].0, entries@[i as int].1@));
            }
            if entries[i].0 == t && found.len() == 0 {
                found = trim_chars(&entries[i].1);
            }
            i += 1;
        }
        proof {
            assert(ev.take(n as int) =~= ev);
        }
        if found.len() > 0 {
            if self.is_speaking(t, now) {
                self.buffer.requeue(t, &found);
                proof {
                    assert(buf_view(self.buffer.entries_seq()) =~= seq![
                        (t, target_settled(v0.pending, t)),
                    ]);
                }
                CycleDecision::NoAction
            } else {
                self.orch.awaiting_playback = true;
                proof {
                    assert(buf_view(self.buffer.entries_seq()) =~= Seq::<
                        (u64, Seq<char>),
                    >::empty());
                }
                CycleDecision::InvokeSingle { speaker: t, text: found }
            }
        } else {
            proof {
                assert(buf_view(self.buffer.entries_seq()) =~= Seq::<(u64, Seq<char>)>::empty());
            }
            CycleDecision::NoAction
        }
    }

    /// The engaged-with-nobody arm of the cycle: all settled utterances
    /// are answered together once at most one author is mid-utterance.
    #[verifier::loop_isolation(false)]
    fn cycle_engaged_group(
        &mut self,
        Ghost(s0): Ghost<VoiceSession>,
        Ghost(v0): Ghost<OrchView>,
        entries: Vec<(u64, Vec<char>)>,
        now: u64,
    ) -> (r: CycleDecision)
        requires
            s0.wf(),
            old(self).speakers == s0.speakers,
            old(self).sources == s0.sources,
            old(self).orch == s0.orch,
            old(self).buffer.wf(),
            old(self).buffer.entries_seq().len() == 0,
            forall|k: u64| !(#[trigger] old(self).buffer.contains_spec(k)),
            v0 == session_orch_view(s0),
            buf_view(entries@) == v0.pending,
            forall|i: int, j: int|
                0 <= i < j < entries@.len() ==> (#[trigger] entries@[i]).0 != (
                #[trigger] entries@[j]).0,
            forall|i: int|
                0 <= i < entries@.len() ==> s0.speakers.contains_spec((#[trigger] entries@[i]).0),
            !s0.orch.awaiting_playback,
            s0.orch.engaged,
            s0.orch.addressed is None,
        ensures
            final(self).wf(),
            final(self).speakers == s0.speakers,
            final(self).sources == s0.sources,
            final(self).orch.continuation == s0.orch.continuation,
            ({
                let pend = settled_spec(v0.pending);
                if speaking_count(pend, speaking_of(s0, now)) > 1 {
                    &&& r is NoAction
                    &&& final(self).orch == s0.orch
                    &&& buf_view(final(self).buffer.entries_seq()) == pend
                } else if pend.len() > 0 {
                    &&& outcome_of(r) == (CycleOutcome::Group { parts: pend })
                    &&& final(self).orch == (OrchestrationState {
                        engaged: true,
                        addressed: None,
                        awaiting_playback: true,
                        continuation: s0.orch.continuation,
                    })
                    &&& buf_view(final(self).buffer.entries_seq()) == Seq::<
                        (u64, Seq<char>),
                    >::empty()
                } else {
                    &&& r is NoAction
                    &&& final(self).orch == s0.orch
                    &&& buf_view(final(self).buffer.entries_seq()) == Seq::<
                        (u64, Seq<char>),
                    >::empty()
                }
            }),
    {
        let ghost ev = buf_view(entries@);
        let ghost speaking = speaking_of(s0, now);
        let mut pend: Vec<(u64, Vec<char>)> = Vec::new();
        let mut cnt: usize = 0;
        let n = entries.len();
        let mut i: usize = 0;
        while i < n
            invariant
                0 <= i <= n,
                n == entries@.len(),
                buf_view(pend@) =~= settled_spec(ev.take(i as int)),
                cnt == speaking_count(settled_spec(ev.take(i as int)), speaking),
                cnt <= i,
            decreases n - i,
        {
            let ghost settled_i = settled_spec(ev.take(i as int));
            proof {
                assert(ev.take(i + 1).drop_last() =~= ev.take(i as int));
                assert(ev[i as int] == (entries@[i as int].0, entries@[i as int].1@));
            }
            let tt = trim_chars(&entries[i].1);
            if tt.len() > 0 {
                if self.is_speaking(entries[i].0, now) {
                    cnt += 1;
                }
                pend.push((entries[i].0, tt));
                proof {
                    let e_new = (entries@[i as int].0, trim_spec(entries@[i as int].1@));
                    assert(settled_spec(ev.take(i + 1)) == settled_i.push(e_new));
                    assert(settled_i.push(e_new).drop_last() =~= settled_i);
                    assert(speaking_count(settled_i.push(e_new), speaking) == speaking_count(
                        settled_i,
                        speaking,
                    ) + if speaking(e_new.0) {
                        1nat
                    } else {
                        0nat
                    });
                    assert(buf_view(pend@) =~= settled_spec(ev.take(i + 1)));
                }
            } else {
                proof {
                    assert(settled_spec(ev.take(i + 1)) == settled_i);
                }
            }
            i += 1;
        }
        proof {
            assert(ev.take(n as int) =~= ev);
            assert(buf_view(pend@) == settled_spec(v0.pending));
            lemma_settled_keys_unique(ev);
            assert forall|i2: int, j2: int|
                0 <= i2 < j2 < pend@.len() implies (#[trigger] pend@[i2]).0 != (
            #[trigger] pend@[j2]).0 by {
                assert(buf_view(pend@)[i2].0 == pend@[i2].0);
                assert(buf_view(pend@)[j2].0 == pend@[j2].0);
            }
            assert forall|j2: int|
                0 <= j2 < pend@.len() implies s0.speakers.contains_spec(
                (#[trigger] pend@[j2]).0,
            ) by {
                lemma_settled_keys_from(ev, j2);
                let jj = choose|jj: int|
                    0 <= jj < ev.len() && (#[trigger] ev[jj]).0 == settled_spec(ev)[j2].0;
                assert(entries@[jj].0 == pend@[j2].0);
            }
        }
        let ghost pend_view = settled_spec(v0.pending);
        if cnt > 1 {
            let m = pend.len();
            let mut j: usize = 0;
            while j < m
                invariant
                    0 <= j <= m,
                    m == pend@.len(),
                    self.speakers == s0.speakers,
                    self.sources == s0.sources,
                    self.orch == s0.orch,
                    self.buffer.wf(),
                    buf_view(self.buffer.entries_seq()) =~= buf_view(pend@).take(j as int),
                    self.buffer.entries_seq().len() == j,
                    forall|k: u64| #[trigger]
                        self.buffer.contains_spec(k) ==> exists|jj: int|
                            0 <= jj < j && (#[trigger] pend@[jj]).0 == k,
                decreases m - j,
            {
                proof {
                    if self.buffer.contains_spec(pend@[j as int].0) {
                        let jj = choose|jj: int|
                            0 <= jj < j && (#[trigger] pend@[jj]).0 == pend@[j as int].0;
                        assert(false);
                    }
                }
                let key = pend[j].0;
                self.buffer.requeue(key, &pend[j].1);
                proof {
                    assert(buf_view(self.buffer.entries_seq()) =~= buf_view(pend@).take(j + 1));
                }
                j += 1;
            }
            proof {
                assert(buf_view(pend@).take(m as int) =~= buf_view(pend@));
                assert(buf_view(self.buffer.entries_seq()) == pend_view);
            }
            CycleDecision::NoAction
        } else if pend.len() > 0 {
            self.orch.awaiting_playback = true;
            proof {
                assert(buf_view(self.buffer.entries_seq()) =~= Seq::<(u64, Seq<char>)>::empty());
            }
            CycleDecision::InvokeGroup { parts: pend }
        } else {
            proof {
                assert(buf_view(self.buffer.entries_seq()) =~= Seq::<(u64, Seq<char>)>::empty());
            }
            CycleDecision::NoAction
        }
    }

    /// The idle arm of the cycle: settled text engages the orchestrator
    /// (with a trigger when several participants are present), while
    /// mid-utterance text waits.
    #[verifier::loop_isolation(false)]
    fn cycle_idle(
        &mut self,
        Ghost(s0): Ghost<VoiceSession>,
        Ghost(v0): Ghost<OrchView>,
        entries: Vec<(u64, Vec<char>)>,
        multi: bool,
        now: u64,
        trigger: bool,
    ) -> (r: CycleDecision)
        requires
            s0.wf(),
            old(self).speakers == s0.speakers,
            old(self).sources == s0.sources,
            old(self).orch == s0.orch,
            old(self).buffer.wf(),
            old(self).buffer.entries_seq().len() == 0,
            forall|k: u64| !(#[trigger] old(self).buffer.contains_spec(k)),
            v0 == session_orch_view(s0),
            buf_view(entries@) == v0.pending,
            forall|i: int, j: int|
                0 <= i < j < entries@.len() ==> (#[trigger] entries@[i]).0 != (
                #[trigger] entries@[j]).0,
            forall|i: int|
                0 <= i < entries@.len() ==> s0.speakers.contains_spec((#[trigger] entries@[i]).0),
            multi == (s0.speakers.len_spec() != 1),
            !s0.orch.awaiting_playback,
            !s0.orch.engaged,
            s0.orch.addressed is None,
        ensures
            final(self).wf(),
            final(self).speakers == s0.speakers,
            final(self).sources == s0.sources,
            final(self).orch.continuation == s0.orch.continuation,
            r is NoAction,
            ({
                let pend = settled_spec(v0.pending);
                let speaking = speaking_of(s0, now);
                let keep = waiting_kept(pend, speaking, multi, trigger);
                let engages = engaging(pend, speaking, multi, trigger);
                &&& buf_view(final(self).buffer.entries_seq()) == keep
                &&& final(self).orch.engaged == (engages.len() > 0)
                &&& final(self).orch.addressed == (if !multi && engages.len() > 0 {
                    Some(engages.last().0)
                } else {
                    None::<u64>
                })
                &&& !final(self).orch.awaiting_playback
            }),
    {
        let ghost ev = buf_view(entries@);
        let ghost speaking = speaking_of(s0, now);
        let mut any_engage = false;
        let mut new_addr: Option<u64> = None;
        let n = entries.len();
        let mut i: usize = 0;
        while i < n
            invariant
                0 <= i <= n,
                n == entries@.len(),
                self.speakers == s0.speakers,
                self.sources == s0.sources,
                self.orch == s0.orch,
                self.buffer.wf(),
                buf_view(self.buffer.entries_seq()) =~= waiting_kept(
                    settled_spec(ev.take(i as int)),
                    speaking,
                    multi,
                    trigger,
                ),
                any_engage == (engaging(
                    settled_spec(ev.take(i as int)),
                    speaking,
                    multi,
                    trigger,
                ).len() > 0),
                new_addr == (if !multi && engaging(
                    settled_spec(ev.take(i as int)),
                    speaking,
                    multi,
                    trigger,
                ).len() > 0 {
                    Some(
                        engaging(settled_spec(ev.take(i as int)), speaking, multi, trigger).last().0,
                    )
                } else {
                    None::<u64>
                }),
                forall|k: u64| #[trigger]
                    self.buffer.contains_spec(k) ==> exists|jj: int|
                        0 <= jj < i && (#[trigger] entries@[jj]).0 == k,
                new_addr matches Some(u) ==> s0.speakers.contains_spec(u),
            decreases n - i,
        {
            let ghost settled_i = settled_spec(ev.take(i as int));
            proof {
                assert(ev.take(i + 1).drop_last() =~= ev.take(i as int));
                assert(ev[i as int] == (entries@[i as int].0, entries@[i as int].1@));
            }
            let u = entries[i].0;
            let tt = trim_chars(&entries[i].1);
            if tt.len() > 0 {
                let ghost e_new = (entries@[i as int].0, trim_spec(entries@[i as int].1@));
                proof {
                    assert(settled_spec(ev.take(i + 1)) == settled_i.push(e_new));
                    assert(settled_i.push(e_new).drop_last() =~= settled_i);
                    if self.buffer.contains_spec(u) {
                        let jj = choose|jj: int| 0 <= jj < i && (#[trigger] entries@[jj]).0 == u;
                        assert(false);
                    }
                }
                if self.is_speaking(u, now) {
                    self.buffer.requeue(u, &tt);
                    proof {
                        assert(buf_view(self.buffer.entries_seq()) =~= waiting_kept(
                            settled_spec(ev.take(i + 1)),
                            speaking,
                            multi,
                            trigger,
                        ));
                    }
                } else if multi && !trigger {
                } else {
                    self.buffer.requeue(u, &tt);
                    any_engage = true;
                    if !multi {
                        new_addr = Some(u);
                    }
                    proof {
                        assert(buf_view(self.buffer.entries_seq()) =~= waiting_kept(
                            settled_spec(ev.take(i + 1)),
                            speaking,
                            multi,
                            trigger,
                        ));
                    }
                }
            } else {
                proof {
                    assert(settled_spec(ev.take(i + 1)) == settled_i);
                }
            }
            i += 1;
        }
        proof {
            assert(ev.take(n as int) =~= ev);
        }
        self.orch.engaged = any_engage;
        self.orch.addressed = new_addr;
        CycleDecision::NoAction
    }

    /// The driver reports that playback of the current reply finished.
    /// The returned actions are applied in order, an empty reply hands
    /// the floor back to everybody, and the continuation token is
    /// replaced by the one this exchange produced.
    #[verifier::loop_isolation(false)]
    pub fn on_playback_complete(
        &mut self,
        reply_empty: bool,
        actions: &Vec<Action>,
        new_token: String,
    )
        requires
            old(self).wf(),
            old(self).orch.awaiting_playback,
        ensures
            final(self).wf(),
            final(self).speakers == old(self).speakers,
            final(self).sources == old(self).sources,
            final(self).buffer == old(self).buffer,
            ({
                let st = apply_actions_spec(
                    old(self).speakers,
                    (old(self).orch.engaged, old(self).orch.addressed),
                    actions@,
                );
                let a2 = if reply_empty {
                    None::<u64>
                } else {
                    st.1
                };
                &&& final(self).orch.addressed == a2
                &&& final(self).orch.engaged == (if a2 is None {
                    false
                } else {
                    st.0
                })
                &&& !final(self).orch.awaiting_playback
                &&& final(self).orch.continuation == Some(new_token)
            }),
    {
        let ghost speakers0 = self.speakers;
        let ghost st0 = (self.orch.engaged, self.orch.addressed);
        let n = actions.len();
        let mut i: usize = 0;
        while i < n
            invariant
                self.speakers == old(self).speakers,
                self.sources == old(self).sources,
                self.buffer == old(self).buffer,
                self.orch.awaiting_playback == old(self).orch.awaiting_playback,
                self.orch.continuation == old(self).orch.continuation,
                speakers0 == self.speakers,
                0 <= i <= n,
                (self.orch.engaged, self.orch.addressed) == apply_actions_spec(
                    speakers0,
                    st0,
                    actions@.take(i as int),
                ),
                self.orch.addressed matches Some(u) ==> self.orch.engaged
                    && self.speakers.contains_spec(u),
            decreases n - i,
        {
            proof {
                assert(actions@.take(i + 1).drop_last() =~= actions@.take(i as int));
            }
            match &actions[i] {
                Action::Redirect { speaker } => {
                    if self.speakers.contains(*speaker) {
                        self.orch.engaged = true;
                        self.orch.addressed = Some(*speaker);
                    } else {
                        self.orch.engaged = false;
                        self.orch.addressed = None;
                    }
                },
                Action::EndTopic => {
                    self.orch.engaged = false;
                    self.orch.addressed = None;
                },
                Action::PostMessage { .. } => {},
                Action::Other => {},
            }
            i += 1;
        }
        proof {
            assert(actions@.take(n as int) =~= actions@);
        }
        if reply_empty {
            self.orch.addressed = None;
        }
        if self.orch.addressed.is_none() {
            self.orch.engaged = false;
        }
        self.orch.awaiting_playback = false;
        self.orch.continuation = Some(new_token);
    }

    /// The driver reports that the response pipeline failed (profile
    /// lookup, chat call, synthesis or playback).  The cycle is abandoned
    /// and the session returns to idle listening; nothing else changes.
    pub fn on_pipeline_failure(&mut self)
        requires
            old(self).wf(),
            old(self).orch.awaiting_playback,
        ensures
            final(self).wf(),
            final(self).speakers == old(self).speakers,
            final(self).sources == old(self).sources,
            final(self).buffer == old(self).buffer,
            final(self).orch == (OrchestrationState {
                engaged: false,
                addressed: None,
                awaiting_playback: false,
                continuation: old(self).orch.continuation,
            }),
    {
        self.orch.engaged = false;
        self.orch.addressed = None;
        self.orch.awaiting_playback = false;
    }
}

} // verus!
