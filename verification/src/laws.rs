//! Session-wide guarantees of the turn-taking procedure.
//!
//! These lemmas state, over the spec-level transition
//! [`cycle_transition`](crate::turn::cycle_transition), the guarantees the
//! decision task gives across cycles: an addressed speaker is never cut
//! off mid-utterance, a lone participant's settled utterance produces
//! exactly one pipeline invocation, response pipeline runs never overlap,
//! and an addressed speaker is always a tracked participant.

use crate::session::VoiceSession;
use crate::text::trim_spec;
use crate::turn::{
    cycle_transition, lemma_trimmed_settles, settled_spec, CycleOutcome, OrchView,
};
use vstd::prelude::*;

verus! {

/// An utterance is never finalised while its speaker is still speaking:
/// whenever a cycle invokes the pipeline for a single speaker, that
/// speaker's debounced flag is down at the cycle instant.
pub proof fn lemma_no_finalize_while_speaking(
    v: OrchView,
    speaking: spec_fn(u64) -> bool,
    multi: bool,
    trigger: bool,
)
    ensures
        cycle_transition(v, speaking, multi, trigger).1 matches CycleOutcome::Single {
            speaker,
            ..
        } ==> !speaking(speaker),
{
}

/// Single-speaker convergence: in a one-participant session that is idle
/// with one settled (non-blank, no longer spoken) utterance buffered, the
/// next cycle engages that speaker without invoking the pipeline, and the
/// cycle after it invokes the pipeline exactly once, for exactly that
/// utterance, leaving the buffer empty and a response in flight — so no
/// further cycle can invoke again before playback completes.
pub proof fn lemma_single_speaker_convergence(
    v: OrchView,
    speaking: spec_fn(u64) -> bool,
    t: u64,
    txt: Seq<char>,
    trigger: bool,
)
    requires
        !v.awaiting,
        !v.engaged,
        v.addressed is None,
        v.pending == seq![(t, txt)],
        trim_spec(txt).len() > 0,
        !speaking(t),
    ensures
        ({
            let (v1, o1) = cycle_transition(v, speaking, false, trigger);
            let (v2, o2) = cycle_transition(v1, speaking, false, trigger);
            &&& o1 is Quiet
            &&& v1.engaged
            &&& v1.addressed == Some(t)
            &&& !v1.awaiting
            &&& o2 == (CycleOutcome::Single { speaker: t, text: trim_spec(txt) })
            &&& v2.awaiting
            &&& v2.pending.len() == 0
        }),
{
    reveal_with_fuel(crate::turn::settled_spec, 2);
    reveal_with_fuel(crate::turn::waiting_kept, 2);
    reveal_with_fuel(crate::turn::engaging, 2);
    reveal_with_fuel(crate::turn::target_settled, 2);
    assert(v.pending.drop_last() =~= Seq::<(u64, Seq<char>)>::empty());
    assert(v.pending.last() == (t, txt));
    let pend = settled_spec(v.pending);
    assert(pend =~= seq![(t, trim_spec(txt))]);
    assert(pend.drop_last() =~= Seq::<(u64, Seq<char>)>::empty());
    let keep = crate::turn::waiting_kept(pend, speaking, false, trigger);
    let engages = crate::turn::engaging(pend, speaking, false, trigger);
    assert(keep =~= seq![(t, trim_spec(txt))]);
    assert(engages =~= seq![(t, trim_spec(txt))]);
    assert(engages.last() == (t, trim_spec(txt)));
    let (v1, o1) = cycle_transition(v, speaking, false, trigger);
    assert(v1.pending == seq![(t, trim_spec(txt))]);
    lemma_trimmed_settles(txt, t);
}

/// While a response is in flight, decision cycles neither invoke the
/// pipeline nor touch the session's state.
pub proof fn lemma_awaiting_blocks_cycles(
    v: OrchView,
    speaking: spec_fn(u64) -> bool,
    multi: bool,
    trigger: bool,
)
    requires
        v.awaiting,
    ensures
        cycle_transition(v, speaking, multi, trigger) == (v, CycleOutcome::Quiet),
{
}

/// A cycle that invokes the pipeline runs only while no response is in
/// flight, and leaves one in flight.  Together with
/// [`lemma_no_overlapping_responses`] this gives the no-overlap
/// guarantee for any sequence of session events.
pub proof fn lemma_cycle_no_overlap(
    v: OrchView,
    speaking: spec_fn(u64) -> bool,
    multi: bool,
    trigger: bool,
)
    ensures
        !(cycle_transition(v, speaking, multi, trigger).1 is Quiet) ==> (!v.awaiting
            && cycle_transition(v, speaking, multi, trigger).0.awaiting),
{
}

/// One step of the decision/playback protocol, seen only through the
/// "response in flight" flag: a decision cycle either invokes the
/// pipeline (raising the flag) or leaves it as it was, and a playback
/// completion lowers it.
pub enum TurnStep {
    Decision { invoked: bool },
    PlaybackDone,
}

/// Whether a response is in flight after `steps`, starting from `a0`.
pub open spec fn awaiting_after(a0: bool, steps: Seq<TurnStep>) -> bool
    decreases steps.len(),
{
    if steps.len() == 0 {
        a0
    } else {
        match steps.last() {
            TurnStep::Decision { invoked } => invoked || awaiting_after(a0, steps.drop_last()),
            TurnStep::PlaybackDone => false,
        }
    }
}

/// The protocol every session run obeys: a cycle can invoke the pipeline
/// only while no response is in flight.  `decision_cycle` guarantees this
/// shape: its contract (`cycle_transition`) returns a non-quiet outcome
/// only when `awaiting_playback` was false, and raises the flag when it
/// does; only `on_playback_complete` and `on_pipeline_failure` lower it.
pub open spec fn valid_trace(a0: bool, steps: Seq<TurnStep>) -> bool {
    forall|i: int|
        0 <= i < steps.len() && ((#[trigger] steps[i]) matches TurnStep::Decision {
            invoked: true,
        }) ==> !awaiting_after(a0, steps.take(i))
}

/// While no playback completion occurs, an in-flight response stays in
/// flight.
proof fn lemma_awaiting_persists(a0: bool, steps: Seq<TurnStep>, p: int, q: int)
    requires
        0 <= p <= q <= steps.len(),
        awaiting_after(a0, steps.take(p)),
        forall|k: int| p <= k < q ==> !((#[trigger] steps[k]) is PlaybackDone),
    ensures
        awaiting_after(a0, steps.take(q)),
    decreases q - p,
{
    if p < q {
        lemma_awaiting_persists(a0, steps, p, q - 1);
        assert(steps.take(q).drop_last() =~= steps.take(q - 1));
        assert(steps.take(q).last() == steps[q - 1]);
    }
}

/// No-overlap guarantee: in any run of the protocol, between two cycles
/// that invoke the response pipeline there is a playback completion — the
/// second invocation cannot begin before the first response has finished
/// playing.
pub proof fn lemma_no_overlapping_responses(a0: bool, steps: Seq<TurnStep>, i: int, j: int)
    requires
        valid_trace(a0, steps),
        0 <= i < j < steps.len(),
        steps[i] matches TurnStep::Decision { invoked: true },
        steps[j] matches TurnStep::Decision { invoked: true },
    ensures
        exists|k: int| i < k < j && (#[trigger] steps[k]) is PlaybackDone,
{
    if forall|k: int| i < k < j ==> !((#[trigger] steps[k]) is PlaybackDone) {
        assert(steps.take(i + 1).drop_last() =~= steps.take(i));
        assert(steps.take(i + 1).last() == steps[i]);
        assert(awaiting_after(a0, steps.take(i + 1)));
        lemma_awaiting_persists(a0, steps, i + 1, j);
        assert(!awaiting_after(a0, steps.take(j)));
        assert(false);
    }
}

/// Addressed-speaker validity: in a well-formed session the addressed
/// speaker, when there is one, is a tracked participant.  Every operation
/// of [`VoiceSession`] preserves well-formedness (each `ensures` the
/// session it leaves behind is `wf`), redirect actions included, so this
/// holds at every decision cycle boundary.
pub proof fn lemma_addressed_speaker_valid(s: VoiceSession)
    requires
        s.wf(),
    ensures
        s.orch.addressed matches Some(u) ==> s.speakers.contains_spec(u),
{
}

} // verus!
