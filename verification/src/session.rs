//! The live state of one connected voice channel.
//!
//! A [`VoiceSession`] owns the speaker table, the mapping from audio-source
//! identifiers to speakers, the shared transcript buffer and the
//! orchestration state of the turn-taking loop.  The asynchronous driver
//! feeds it events (speaking announcements, audio ticks, transcript
//! fragments, departures) and carries out the returned instructions.

use crate::idmap::IdMap;
use crate::pcm::{encode_samples, le_bytes_spec};
use crate::transcript::TranscriptBuffer;
use crate::SpeakingTracker;
use vstd::prelude::*;

verus! {

/// Per-speaker live state.  The recognition stream itself is owned by the
/// driver under the same speaker id; it exists exactly while the speaker
/// is tracked here, and `session_live` records whether it is still
/// healthy (a dead stream is reopened on the speaker's next speaking
/// announcement, so a failure only silences them until then).
#[derive(Clone, Copy)]
pub struct SpeakerState {
    pub speaking: SpeakingTracker,
    pub session_live: bool,
}

/// The turn-taking state of the conversation.
pub struct OrchestrationState {
    /// Whether the orchestrator is currently exchanging with somebody.
    pub engaged: bool,
    /// The one speaker being listened to, if the exchange is one-on-one.
    pub addressed: Option<u64>,
    /// Whether a response pipeline run (chat call, synthesis, playback)
    /// is still in flight; no second one may start while this holds.
    pub awaiting_playback: bool,
    /// Opaque token threading conversation context through successive
    /// chat-backend calls.
    pub continuation: Option<String>,
}

/// The aggregate state of one voice channel.
pub struct VoiceSession {
    /// Tracked participants, keyed by speaker id.
    pub speakers: IdMap<SpeakerState>,
    /// Audio-source id to speaker id, learned from speaking announcements.
    pub sources: IdMap<u64>,
    /// Per-speaker pending utterance text.
    pub buffer: TranscriptBuffer,
    /// Turn-taking state.
    pub orch: OrchestrationState,
}

/// What a speaking announcement asks the driver to do.
pub enum PresenceAction {
    /// The audio source was already known; nothing changed.
    KnownSource,
    /// The speaker was already tracked under another source id; the new
    /// source id now routes to them as well.
    SourceRemapped,
    /// A new speaker joined: the driver must open a recognition stream
    /// for them.
    SpeakerJoined,
    /// The speaker's recognition stream has ended: the driver must open
    /// a fresh one.
    StreamRetry,
}

impl VoiceSession {
    /// Whether speaker `u` currently counts as speaking at instant `now`.
    pub open spec fn speaking_at(&self, u: u64, now: u64) -> bool {
        match self.speakers.get_spec(u) {
            Some(st) => st.speaking.spec_get(now),
            None => false,
        }
    }

    /// Internal consistency: unique keys everywhere, every routed source
    /// and every buffered or addressed speaker is tracked, and the
    /// orchestration flags are coherent.
    pub open spec fn wf(&self) -> bool {
        &&& self.speakers.wf()
        &&& self.sources.wf()
        &&& self.buffer.wf()
        &&& forall|s: u64| #[trigger]
            self.sources.contains_spec(s) ==> self.speakers.contains_spec(
                self.sources.get_spec(s)->0,
            )
        &&& forall|k: u64| #[trigger]
            self.buffer.contains_spec(k) ==> self.speakers.contains_spec(k)
        &&& match self.orch.addressed {
            Some(u) => self.speakers.contains_spec(u) && self.orch.engaged,
            None => true,
        }
        &&& (self.orch.awaiting_playback ==> self.orch.engaged)
    }

    /// A fresh session: nobody tracked, idle.
    pub fn new() -> (r: Self)
        ensures
            r.wf(),
            r.speakers.len_spec() == 0,
            r.sources.len_spec() == 0,
            r.buffer.len_spec() == 0,
            !r.orch.engaged,
            r.orch.addressed is None,
            !r.orch.awaiting_playback,
            r.orch.continuation is None,
    {
        VoiceSession {
            speakers: IdMap::new(),
            sources: IdMap::new(),
            buffer: TranscriptBuffer::new(),
            orch: OrchestrationState {
                engaged: false,
                addressed: None,
                awaiting_playback: false,
                continuation: None,
            },
        }
    }

    /// Whether `u` is tracked but their recognition stream has ended.
    pub open spec fn recognition_down(&self, u: u64) -> bool {
        match self.speakers.get_spec(u) {
            Some(st) => !st.session_live,
            None => false,
        }
    }

    /// A speaking announcement says audio source `src` belongs to
    /// `speaker`.  A tracked speaker whose recognition stream has ended
    /// gets it reopened; otherwise a source already routed is left alone,
    /// a known speaker under a new source id only gains the extra route,
    /// and an unknown speaker is registered with a fresh (not speaking)
    /// state, the caller opening a recognition stream for them.
    pub fn on_speaker_presence(&mut self, src: u64, speaker: u64) -> (r: PresenceAction)
        requires
            old(self).wf(),
        ensures
            final(self).wf(),
            final(self).orch == old(self).orch,
            final(self).buffer == old(self).buffer,
            old(self).recognition_down(speaker) ==> {
                &&& r is StreamRetry
                &&& final(self).speakers == old(self).speakers
                &&& final(self).sources.get_spec(src) == (if old(self).sources.contains_spec(src) {
                    old(self).sources.get_spec(src)
                } else {
                    Some(speaker)
                })
                &&& forall|s: u64|
                    s != src ==> final(self).sources.get_spec(s) == old(self).sources.get_spec(s)
            },
            !old(self).recognition_down(speaker) && old(self).sources.contains_spec(src) ==> {
                &&& r is KnownSource
                &&& final(self).sources == old(self).sources
                &&& final(self).speakers == old(self).speakers
            },
            !old(self).recognition_down(speaker) && !old(self).sources.contains_spec(src) && old(
                self,
            ).speakers.contains_spec(speaker) ==> {
                &&& r is SourceRemapped
                &&& final(self).sources.get_spec(src) == Some(speaker)
                &&& forall|s: u64|
                    s != src ==> final(self).sources.get_spec(s) == old(self).sources.get_spec(s)
                &&& final(self).speakers == old(self).speakers
            },
            !old(self).sources.contains_spec(src) && !old(self).speakers.contains_spec(speaker)
                ==> {
                &&& r is SpeakerJoined
                &&& final(self).sources.get_spec(src) == Some(speaker)
                &&& forall|s: u64|
                    s != src ==> final(self).sources.get_spec(s) == old(self).sources.get_spec(s)
                &&& final(self).speakers.contains_spec(speaker)
                &&& !final(self).speakers.get_spec(speaker)->0.speaking.spec_value()
                &&& final(self).speakers.get_spec(speaker)->0.session_live
                &&& forall|u: u64|
                    u != speaker ==> final(self).speakers.get_spec(u) == old(
                        self,
                    ).speakers.get_spec(u)
                &&& forall|u: u64| #[trigger]
                    final(self).speakers.contains_spec(u) <==> (old(self).speakers.contains_spec(u)
                        || u == speaker)
            },
    {
        let down = match self.speakers.get(speaker) {
            Some(st) => !st.session_live,
            None => false,
        };
        if down {
            if !self.sources.contains(src) {
                self.sources.insert(src, speaker);
            }
            return PresenceAction::StreamRetry;
        }
        if self.sources.contains(src) {
            return PresenceAction::KnownSource;
        }
        if self.speakers.contains(speaker) {
            self.sources.insert(src, speaker);
            return PresenceAction::SourceRemapped;
        }
        self.speakers.insert(
            speaker,
            SpeakerState { speaking: SpeakingTracker::new(), session_live: true },
        );
        self.sources.insert(src, speaker);
        PresenceAction::SpeakerJoined
    }

    /// The driver noticed that `speaker`'s recognition stream ended (a
    /// mid-flight error, or a failed open).  The speaker stays tracked
    /// and simply produces no transcripts until the stream is reopened
    /// on their next speaking announcement.
    pub fn on_recognition_ended(&mut self, speaker: u64)
        requires
            old(self).wf(),
        ensures
            final(self).wf(),
            final(self).orch == old(self).orch,
            final(self).buffer == old(self).buffer,
            final(self).sources == old(self).sources,
            forall|u: u64| #[trigger]
                final(self).speakers.contains_spec(u) == old(self).speakers.contains_spec(u),
            old(self).speakers.contains_spec(speaker) ==> final(self).speakers.get_spec(
                speaker,
            ) == Some(
                SpeakerState {
                    speaking: old(self).speakers.get_spec(speaker)->0.speaking,
                    session_live: false,
                },
            ),
            forall|u: u64|
                u != speaker ==> final(self).speakers.get_spec(u) == old(self).speakers.get_spec(
                    u,
                ),
    {
        match self.speakers.get(speaker) {
            Some(st) => {
                let mut st = *st;
                st.session_live = false;
                self.speakers.insert(speaker, st);
            },
            None => {},
        }
    }

    /// The driver opened (or reopened) `speaker`'s recognition stream.
    pub fn on_recognition_opened(&mut self, speaker: u64)
        requires
            old(self).wf(),
        ensures
            final(self).wf(),
            final(self).orch == old(self).orch,
            final(self).buffer == old(self).buffer,
            final(self).sources == old(self).sources,
            forall|u: u64| #[trigger]
                final(self).speakers.contains_spec(u) == old(self).speakers.contains_spec(u),
            old(self).speakers.contains_spec(speaker) ==> final(self).speakers.get_spec(
                speaker,
            ) == Some(
                SpeakerState {
                    speaking: old(self).speakers.get_spec(speaker)->0.speaking,
                    session_live: true,
                },
            ),
            forall|u: u64|
                u != speaker ==> final(self).speakers.get_spec(u) == old(self).speakers.get_spec(
                    u,
                ),
    {
        match self.speakers.get(speaker) {
            Some(st) => {
                let mut st = *st;
                st.session_live = true;
                self.speakers.insert(speaker, st);
            },
            None => {},
        }
    }

    /// A transcript fragment arrived for `speaker`.  It is buffered only
    /// while the speaker is tracked; fragments of departed speakers are
    /// dropped.
    pub fn on_fragment(&mut self, speaker: u64, frag: &Vec<char>)
        requires
            old(self).wf(),
        ensures
            final(self).wf(),
            final(self).orch == old(self).orch,
            final(self).speakers == old(self).speakers,
            final(self).sources == old(self).sources,
            old(self).speakers.contains_spec(speaker) ==> {
                &&& final(self).buffer.pending_of(speaker) == old(self).buffer.pending_of(speaker)
                    + frag@
                &&& forall|k: u64|
                    k != speaker ==> final(self).buffer.pending_of(k) == old(
                        self,
                    ).buffer.pending_of(k)
            },
            !old(self).speakers.contains_spec(speaker) ==> final(self).buffer == old(self).buffer,
    {
        if self.speakers.contains(speaker) {
            self.buffer.append(speaker, frag);
        }
    }

    /// One audio tick: every source with decoded audio marks its speaker
    /// as speaking and yields a little-endian byte payload to forward to
    /// that speaker's recognition stream; every silent source marks its
    /// speaker as not speaking.  Sources that resolve to no speaker are
    /// skipped.
    pub fn on_audio_tick(&mut self, frames: &Vec<(u64, Vec<i16>)>, silent: &Vec<u64>, now: u64)
        -> (out: Vec<(u64, Vec<u8>)>)
        requires
            old(self).wf(),
        ensures
            final(self).wf(),
            final(self).orch == old(self).orch,
            final(self).buffer == old(self).buffer,
            final(self).sources == old(self).sources,
            out@.map_values(|p: (u64, Vec<u8>)| (p.0, p.1@)) == tick_payloads(
                old(self).sources,
                frames@.map_values(|f: (u64, Vec<i16>)| (f.0, f.1@)),
            ),
            forall|u: u64| #[trigger]
                final(self).speakers.contains_spec(u) == old(self).speakers.contains_spec(u),
            forall|u: u64|
                old(self).speakers.contains_spec(u) ==> (#[trigger] final(self).speakers.get_spec(
                    u,
                ))->0.speaking == {
                    if marks_silent(old(self).sources, silent@, u) {
                        silent_mark(now)
                    } else if marks_speaking(
                        old(self).sources,
                        frames@.map_values(|f: (u64, Vec<i16>)| (f.0, f.1@)),
                        u,
                    ) {
                        speaking_mark(now)
                    } else {
                        old(self).speakers.get_spec(u)->0.speaking
                    }
                },
            forall|u: u64|
                old(self).speakers.contains_spec(u) ==> (#[trigger] final(self).speakers.get_spec(
                    u,
                ))->0.session_live == old(self).speakers.get_spec(u)->0.session_live,
    {
        let ghost sources0 = self.sources;
        let ghost speakers0 = self.speakers;
        let ghost frames_model = frames@.map_values(|f: (u64, Vec<i16>)| (f.0, f.1@));
        let mut out: Vec<(u64, Vec<u8>)> = Vec::new();
        let n = frames.len();
        let mut i: usize = 0;
        while i < n
            invariant
                self.wf(),
                self.sources == sources0,
                self.buffer == old(self).buffer,
                self.orch == old(self).orch,
                0 <= i <= n,
                n == frames@.len(),
                frames_model == frames@.map_values(|f: (u64, Vec<i16>)| (f.0, f.1@)),
                out@.map_values(|p: (u64, Vec<u8>)| (p.0, p.1@)) =~= tick_payloads(
                    sources0,
                    frames_model.take(i as int),
                ),
                forall|u: u64| #[trigger]
                    self.speakers.contains_spec(u) == speakers0.contains_spec(u),
                forall|u: u64|
                    speakers0.contains_spec(u) ==> (#[trigger] self.speakers.get_spec(
                        u,
                    ))->0.speaking == {
                        if marks_speaking(sources0, frames_model.take(i as int), u) {
                            speaking_mark(now)
                        } else {
                            speakers0.get_spec(u)->0.speaking
                        }
                    },
                forall|u: u64|
                    speakers0.contains_spec(u) ==> (#[trigger] self.speakers.get_spec(
                        u,
                    ))->0.session_live == speakers0.get_spec(u)->0.session_live,
            decreases n - i,
        {
            let src = frames[i].0;
            proof {
                assert(frames_model.take(i + 1).drop_last() =~= frames_model.take(i as int));
                assert(frames_model[i as int] == (frames@[i as int].0, frames@[i as int].1@));
            }
            match self.sources.get(src) {
                Some(user_ref) => {
                    let user = *user_ref;
                    let payload = encode_samples(&frames[i].1);
                    let mut st = *self.speakers.get(user).unwrap();
                    st.speaking.set(true, now);
                    self.speakers.insert(user, st);
                    out.push((user, payload));
                    proof {
                        assert(out@.map_values(|p: (u64, Vec<u8>)| (p.0, p.1@)) =~= tick_payloads(
                            sources0,
                            frames_model.take(i + 1),
                        ));
                        assert forall|u: u64|
                            speakers0.contains_spec(u) implies (#[trigger] self.speakers.get_spec(
                            u,
                        ))->0.speaking == {
                            if marks_speaking(sources0, frames_model.take(i + 1), u) {
                                speaking_mark(now)
                            } else {
                                speakers0.get_spec(u)->0.speaking
                            }
                        } by {
                            if u != user && marks_speaking(sources0, frames_model.take(i + 1), u)
                                && !marks_speaking(sources0, frames_model.take(i as int), u) {
                                let j = choose|j: int|
                                    0 <= j < frames_model.take(i + 1).len() && sources0.get_spec(
                                        (#[trigger] frames_model.take(i + 1)[j]).0,
                                    ) == Some(u);
                                assert(j == i as int);
                            }
                            if u == user {
                                assert(sources0.get_spec(frames_model.take(i + 1)[i as int].0)
                                    == Some(u));
                                assert(marks_speaking(sources0, frames_model.take(i + 1), u));
                            }
                        }
                    }
                },
                None => {
                    proof {
                        assert(out@.map_values(|p: (u64, Vec<u8>)| (p.0, p.1@)) =~= tick_payloads(
                            sources0,
                            frames_model.take(i + 1),
                        ));
                        assert forall|u: u64|
                            speakers0.contains_spec(u) implies (#[trigger] self.speakers.get_spec(
                            u,
                        ))->0.speaking == {
                            if marks_speaking(sources0, frames_model.take(i + 1), u) {
                                speaking_mark(now)
                            } else {
                                speakers0.get_spec(u)->0.speaking
                            }
                        } by {
                            if marks_speaking(sources0, frames_model.take(i + 1), u)
                                && !marks_speaking(sources0, frames_model.take(i as int), u) {
                                let j = choose|j: int|
                                    0 <= j < frames_model.take(i + 1).len() && sources0.get_spec(
                                        (#[trigger] frames_model.take(i + 1)[j]).0,
                                    ) == Some(u);
                                assert(j == i as int);
                            }
                        }
                    }
                },
            }
            i += 1;
        }
        proof {
            assert(frames_model.take(n as int) =~= frames_model);
        }
        let ghost speakers1 = self.speakers;
        let m = silent.len();
        let mut i: usize = 0;
        while i < m
            invariant
                self.wf(),
                self.sources == sources0,
                self.buffer == old(self).buffer,
                self.orch == old(self).orch,
                0 <= i <= m,
                m == silent@.len(),
                forall|u: u64| #[trigger]
                    self.speakers.contains_spec(u) == speakers1.contains_spec(u),
                forall|u: u64|
                    speakers1.contains_spec(u) ==> (#[trigger] self.speakers.get_spec(
                        u,
                    ))->0.speaking == {
                        if marks_silent(sources0, silent@.take(i as int), u) {
                            silent_mark(now)
                        } else {
                            speakers1.get_spec(u)->0.speaking
                        }
                    },
                forall|u: u64|
                    speakers1.contains_spec(u) ==> (#[trigger] self.speakers.get_spec(
                        u,
                    ))->0.session_live == speakers1.get_spec(u)->0.session_live,
            decreases m - i,
        {
            let src = silent[i];
            proof {
                assert(silent@.take(i + 1).drop_last() =~= silent@.take(i as int));
            }
            match self.sources.get(src) {
                Some(user_ref) => {
                    let user = *user_ref;
                    let mut st = *self.speakers.get(user).unwrap();
                    st.speaking.set(false, now);
                    self.speakers.insert(user, st);
                    proof {
                        assert forall|u: u64|
                            speakers1.contains_spec(u) implies (#[trigger] self.speakers.get_spec(
                            u,
                        ))->0.speaking == {
                            if marks_silent(sources0, silent@.take(i + 1), u) {
                                silent_mark(now)
                            } else {
                                speakers1.get_spec(u)->0.speaking
                            }
                        } by {
                            if u != user && marks_silent(sources0, silent@.take(i + 1), u)
                                && !marks_silent(sources0, silent@.take(i as int), u) {
                                let j = choose|j: int|
                                    0 <= j < silent@.take(i + 1).len() && sources0.get_spec(
                                        #[trigger] silent@.take(i + 1)[j],
                                    ) == Some(u);
                                assert(j == i as int);
                            }
                            if u == user {
                                assert(sources0.get_spec(silent@.take(i + 1)[i as int]) == Some(u));
                                assert(marks_silent(sources0, silent@.take(i + 1), u));
                            }
                        }
                    }
                },
                None => {
                    proof {
                        assert forall|u: u64|
                            speakers1.contains_spec(u) implies (#[trigger] self.speakers.get_spec(
                            u,
                        ))->0.speaking == {
                            if marks_silent(sources0, silent@.take(i + 1), u) {
                                silent_mark(now)
                            } else {
                                speakers1.get_spec(u)->0.speaking
                            }
                        } by {
                            if marks_silent(sources0, silent@.take(i + 1), u) && !marks_silent(
                                sources0,
                                silent@.take(i as int),
                                u,
                            ) {
                                let j = choose|j: int|
                                    0 <= j < silent@.take(i + 1).len() && sources0.get_spec(
                                        #[trigger] silent@.take(i + 1)[j],
                                    ) == Some(u);
                                assert(j == i as int);
                            }
                        }
                    }
                },
            }
            i += 1;
        }
        proof {
            assert(silent@.take(m as int) =~= silent@);
        }
        out
    }

    /// A participant left.  Their state, routes and pending text are
    /// removed; if they were the addressed speaker the topic is closed
    /// defensively; and when the last participant is gone the caller is
    /// told to disconnect the whole session.
    pub fn on_speaker_departure(&mut self, speaker: u64) -> (disconnect: bool)
        requires
            old(self).wf(),
        ensures
            final(self).wf(),
            !final(self).speakers.contains_spec(speaker),
            forall|u: u64| #[trigger]
                final(self).speakers.contains_spec(u) <==> (old(self).speakers.contains_spec(u)
                    && u != speaker),
            forall|u: u64|
                u != speaker ==> final(self).speakers.get_spec(u) == old(self).speakers.get_spec(
                    u,
                ),
            !final(self).buffer.contains_spec(speaker),
            forall|k: u64|
                k != speaker ==> final(self).buffer.pending_of(k) == old(self).buffer.pending_of(
                    k,
                ),
            forall|s: u64| #[trigger]
                final(self).sources.contains_spec(s) <==> (old(self).sources.contains_spec(s)
                    && old(self).sources.get_spec(s) != Some(speaker)),
            final(self).orch.addressed == if old(self).orch.addressed == Some(speaker) {
                None::<u64>
            } else {
                old(self).orch.addressed
            },
            final(self).orch.engaged == if old(self).orch.addressed == Some(speaker) && !old(
                self,
            ).orch.awaiting_playback {
                false
            } else {
                old(self).orch.engaged
            },
            final(self).orch.awaiting_playback == old(self).orch.awaiting_playback,
            final(self).orch.continuation == old(self).orch.continuation,
            disconnect == (final(self).speakers.len_spec() == 0),
    {
        self.speakers.remove(speaker);
        self.buffer.remove(speaker);
        self.sources.remove_by_value(speaker);
        let clear = match self.orch.addressed {
            Some(u) => u == speaker,
            None => false,
        };
        if clear {
            self.orch.addressed = None;
            if !self.orch.awaiting_playback {
                self.orch.engaged = false;
            }
        }
        self.speakers.is_empty()
    }

    /// How many participants are tracked.
    pub fn participant_count(&self) -> (r: usize)
        ensures
            r == self.speakers.len_spec(),
    {
        self.speakers.len()
    }

    /// Whether speaker `u` counts as speaking at instant `now`.
    pub fn is_speaking(&self, u: u64, now: u64) -> (r: bool)
        requires
            self.speakers.wf(),
        ensures
            r == self.speaking_at(u, now),
    {
        match self.speakers.get(u) {
            Some(st) => st.speaking.get(now),
            None => false,
        }
    }
}

/// Whether some frame in `frames` routes to speaker `u`.
pub open spec fn marks_speaking(
    sources: IdMap<u64>,
    frames: Seq<(u64, Seq<i16>)>,
    u: u64,
) -> bool {
    exists|j: int| 0 <= j < frames.len() && sources.get_spec((#[trigger] frames[j]).0) == Some(u)
}

/// Whether some silent source in `silent` routes to speaker `u`.
pub open spec fn marks_silent(sources: IdMap<u64>, silent: Seq<u64>, u: u64) -> bool {
    exists|j: int| 0 <= j < silent.len() && sources.get_spec(#[trigger] silent[j]) == Some(u)
}

/// The tracker state after a speaking mark at `now`.
pub open spec fn speaking_mark(now: u64) -> SpeakingTracker {
    SpeakingTracker::spec_set(true, now)
}

/// The tracker state after a silence mark at `now`.
pub open spec fn silent_mark(now: u64) -> SpeakingTracker {
    SpeakingTracker::spec_set(false, now)
}

/// The payloads one audio tick forwards: one little-endian byte payload
/// per frame whose source routes to a tracked speaker, in frame order.
pub open spec fn tick_payloads(
    sources: IdMap<u64>,
    frames: Seq<(u64, Seq<i16>)>,
) -> Seq<(u64, Seq<u8>)>
    decreases frames.len(),
{
    if frames.len() == 0 {
        Seq::empty()
    } else {
        tick_payloads(sources, frames.drop_last()) + match sources.get_spec(frames.last().0) {
            Some(u) => seq![(u, le_bytes_spec(frames.last().1))],
            None => Seq::empty(),
        }
    }
}

} // verus!
