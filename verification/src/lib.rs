//! Verified core of a multi-speaker voice-conversation orchestrator.
//!
//! The library models the turn-taking logic of a group voice session: it
//! tracks which participants are currently speaking (with a silence
//! debounce), routes per-tick audio frames to the speaker that produced
//! them, accumulates per-speaker transcript fragments, and decides when an
//! utterance is finished and a reply should be produced.  All state
//! transitions are expressed over plain values so that the surrounding
//! asynchronous driver only performs I/O and feeds events back in.

pub mod idmap;
pub mod text;
pub mod pcm;
pub mod transcript;
pub mod session;
pub mod turn;
pub mod laws;
pub mod config;
pub mod convert;
pub mod records;
pub mod chatmsg;
pub mod glacialeur;

use vstd::prelude::*;

verus! {

/// Milliseconds after which a speaker with no fresh speaking signal is
/// considered silent again.
pub const SPEAKING_TIMEOUT_MS: u64 = 3000;

/// A per-speaker "is currently emitting audio" flag with a silence
/// debounce: the flag only counts as set while the last update is more
/// recent than [`SPEAKING_TIMEOUT_MS`].
#[derive(Clone, Copy)]
pub struct SpeakingTracker {
    pub value: bool,
    pub updated_at: u64,
}

impl SpeakingTracker {
    /// The raw flag as last written.
    pub open spec fn spec_value(&self) -> bool {
        self.value
    }

    /// The instant of the last update.
    pub open spec fn spec_updated_at(&self) -> u64 {
        self.updated_at
    }

    /// What `get` reports at instant `now`: the flag, debounced.
    pub open spec fn spec_get(&self, now: u64) -> bool {
        self.spec_value() && now - self.spec_updated_at() < SPEAKING_TIMEOUT_MS
    }

    /// The tracker value that `set(value, now)` produces.
    pub open spec fn spec_set(value: bool, now: u64) -> SpeakingTracker {
        SpeakingTracker { value, updated_at: now }
    }

    pub fn new() -> (r: Self)
        ensures
            !r.spec_value(),
            r.spec_updated_at() == 0,
    {
        SpeakingTracker { value: false, updated_at: 0 }
    }

    /// Record a fresh speaking signal, resetting the silence timer.
    pub fn set(&mut self, value: bool, now: u64)
        ensures
            *final(self) == Self::spec_set(value, now),
            final(self).spec_value() == value,
            final(self).spec_updated_at() == now,
    {
        self.value = value;
        self.updated_at = now;
    }

    /// Read the debounced flag at instant `now`.
    pub fn get(&self, now: u64) -> (r: bool)
        ensures
            r == self.spec_get(now),
    {
        self.value && (now <= self.updated_at || now - self.updated_at < SPEAKING_TIMEOUT_MS)
    }
}

/// Debounce law: after a speaking signal at `t0`, the tracker reads true
/// at every later instant strictly inside the timeout window and false
/// from the moment the timeout has elapsed — unless a fresh signal
/// arrives first, in which case the same law applies to the fresh
/// signal's instant.
pub proof fn lemma_debounce(tr: SpeakingTracker, t0: u64, t: u64)
    requires
        tr.spec_value(),
        tr.spec_updated_at() == t0,
        t >= t0,
    ensures
        tr.spec_get(t) <==> t - t0 < SPEAKING_TIMEOUT_MS,
{
}

} // verus!
