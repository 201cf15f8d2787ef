//! Scenario tests for the voice session's turn-taking behaviour.

use voice_orchestrator::session::{PresenceAction, VoiceSession};
use voice_orchestrator::turn::{Action, CycleDecision};
use voice_orchestrator::SpeakingTracker;

fn cv(s: &str) -> Vec<char> {
    s.chars().collect()
}

#[test]
fn single_speaker_engages_then_invokes_once() {
    let mut s = VoiceSession::new();
    assert!(matches!(s.on_speaker_presence(10, 1), PresenceAction::SpeakerJoined));
    assert_eq!(s.participant_count(), 1);

    // Audio arrives, then silence; the settled utterance is buffered.
    s.on_audio_tick(&vec![(10, vec![1i16, 2i16])], &vec![], 0);
    s.on_fragment(1, &cv("hello"));
    s.on_audio_tick(&vec![], &vec![10], 1000);

    // First cycle: engage the lone speaker, no pipeline call yet.
    let d1 = s.decision_cycle(2000, false);
    assert!(matches!(d1, CycleDecision::NoAction));
    assert!(s.orch.engaged);
    assert_eq!(s.orch.addressed, Some(1));
    assert!(!s.orch.awaiting_playback);

    // Second cycle: exactly one invocation, with exactly the utterance.
    let d2 = s.decision_cycle(3000, false);
    match d2 {
        CycleDecision::InvokeSingle { speaker, text } => {
            assert_eq!(speaker, 1);
            assert_eq!(text, cv("hello"));
        }
        _ => panic!("expected a single-speaker invocation"),
    }
    assert!(s.orch.awaiting_playback);

    // While the response is being spoken, no second invocation.
    let d3 = s.decision_cycle(4000, false);
    assert!(matches!(d3, CycleDecision::NoAction));

    // Playback done with an empty reply: back to idle.
    s.on_playback_complete(true, &vec![], String::from("tok-1"));
    assert!(!s.orch.engaged);
    assert_eq!(s.orch.addressed, None);
    assert!(!s.orch.awaiting_playback);
    assert_eq!(s.orch.continuation, Some(String::from("tok-1")));
}

#[test]
fn single_speaker_keeps_turn_after_nonempty_reply() {
    let mut s = VoiceSession::new();
    s.on_speaker_presence(10, 1);
    s.on_fragment(1, &cv("first"));
    assert!(matches!(s.decision_cycle(0, false), CycleDecision::NoAction));
    assert!(matches!(
        s.decision_cycle(1000, false),
        CycleDecision::InvokeSingle { .. }
    ));
    s.on_playback_complete(false, &vec![], String::from("tok-2"));
    // A non-empty reply without actions keeps the addressed speaker.
    assert!(s.orch.engaged);
    assert_eq!(s.orch.addressed, Some(1));
    assert!(!s.orch.awaiting_playback);
}

#[test]
fn no_finalize_while_speaker_is_mid_utterance() {
    let mut s = VoiceSession::new();
    s.on_speaker_presence(10, 1);
    s.on_fragment(1, &cv("unfini"));
    // Engage first (not speaking).
    s.decision_cycle(0, false);
    assert_eq!(s.orch.addressed, Some(1));
    // Now audio arrives again: the speaker is mid-utterance.
    s.on_audio_tick(&vec![(10, vec![3i16])], &vec![], 500);
    let d = s.decision_cycle(1000, false);
    assert!(matches!(d, CycleDecision::NoAction));
    assert!(!s.orch.awaiting_playback);
    // More text arrives, the speaker goes silent past the debounce.
    s.on_fragment(1, &cv("shed"));
    let d2 = s.decision_cycle(4000, false);
    match d2 {
        CycleDecision::InvokeSingle { speaker, text } => {
            assert_eq!(speaker, 1);
            assert_eq!(text, cv("unfinished"));
        }
        _ => panic!("expected the completed utterance to be finalised"),
    }
}

#[test]
fn two_speakers_mid_speech_defer_then_aggregate() {
    let mut s = VoiceSession::new();
    s.on_speaker_presence(10, 1);
    s.on_speaker_presence(20, 2);
    assert_eq!(s.participant_count(), 2);

    s.on_fragment(1, &cv("alpha"));
    s.on_fragment(2, &cv("beta"));
    // Both are mid-speech: the cycle defers even with the trigger up.
    s.on_audio_tick(&vec![(10, vec![1i16]), (20, vec![2i16])], &vec![], 0);
    let d1 = s.decision_cycle(500, true);
    assert!(matches!(d1, CycleDecision::NoAction));
    assert!(!s.orch.engaged);

    // Both fall silent: the trigger engages the whole group.
    s.on_audio_tick(&vec![], &vec![10, 20], 600);
    let d2 = s.decision_cycle(1000, true);
    assert!(matches!(d2, CycleDecision::NoAction));
    assert!(s.orch.engaged);
    assert_eq!(s.orch.addressed, None);

    // Both speak again before the next cycle: still deferred.
    s.on_audio_tick(&vec![(10, vec![1i16]), (20, vec![2i16])], &vec![], 1100);
    let d3 = s.decision_cycle(1500, true);
    assert!(matches!(d3, CycleDecision::NoAction));
    assert!(!s.orch.awaiting_playback);

    // Silence again: one aggregated invocation, in buffer order.
    s.on_audio_tick(&vec![], &vec![10, 20], 1600);
    let d4 = s.decision_cycle(2000, true);
    match d4 {
        CycleDecision::InvokeGroup { parts } => {
            assert_eq!(parts.len(), 2);
            assert_eq!(parts[0], (1, cv("alpha")));
            assert_eq!(parts[1], (2, cv("beta")));
        }
        _ => panic!("expected one aggregated invocation"),
    }
    assert!(s.orch.awaiting_playback);
}

#[test]
fn idle_multi_speaker_without_trigger_stays_idle() {
    let mut s = VoiceSession::new();
    s.on_speaker_presence(10, 1);
    s.on_speaker_presence(20, 2);
    s.on_fragment(1, &cv("one"));
    s.on_fragment(2, &cv("two"));
    let d = s.decision_cycle(1000, false);
    assert!(matches!(d, CycleDecision::NoAction));
    assert!(!s.orch.engaged);
    // The untriggered settled texts were dropped: nothing left to invoke.
    let d2 = s.decision_cycle(2000, true);
    assert!(matches!(d2, CycleDecision::NoAction));
    assert!(!s.orch.engaged);
}

#[test]
fn blank_utterances_are_discarded() {
    let mut s = VoiceSession::new();
    s.on_speaker_presence(10, 1);
    s.on_fragment(1, &cv("   \t  "));
    let d = s.decision_cycle(1000, false);
    assert!(matches!(d, CycleDecision::NoAction));
    assert!(!s.orch.engaged);
    let d2 = s.decision_cycle(2000, false);
    assert!(matches!(d2, CycleDecision::NoAction));
}

#[test]
fn non_addressed_text_is_ignored_while_engaged() {
    let mut s = VoiceSession::new();
    s.on_speaker_presence(10, 1);
    s.on_speaker_presence(20, 2);
    s.on_fragment(1, &cv("talk to me"));
    // Engage speaker 1 through the trigger; in a multi session the
    // trigger engages without picking an addressed speaker, so route the
    // conversation to speaker 1 by a redirect after the group exchange.
    s.decision_cycle(0, true);
    assert!(s.orch.engaged);
    let d = s.decision_cycle(1000, true);
    assert!(matches!(d, CycleDecision::InvokeGroup { .. }));
    s.on_playback_complete(
        false,
        &vec![Action::Redirect { speaker: 1 }],
        String::from("tok-3"),
    );
    assert_eq!(s.orch.addressed, Some(1));
    // Speaker 2's text is not listened to; speaker 1's settles.
    s.on_fragment(2, &cv("ignore me"));
    s.on_fragment(1, &cv("answer me"));
    let d2 = s.decision_cycle(2000, true);
    match d2 {
        CycleDecision::InvokeSingle { speaker, text } => {
            assert_eq!(speaker, 1);
            assert_eq!(text, cv("answer me"));
        }
        _ => panic!("expected the addressed speaker's utterance"),
    }
}

#[test]
fn redirect_to_untracked_speaker_ends_topic() {
    let mut s = VoiceSession::new();
    s.on_speaker_presence(10, 1);
    s.on_fragment(1, &cv("hi"));
    s.decision_cycle(0, false);
    assert!(matches!(
        s.decision_cycle(1000, false),
        CycleDecision::InvokeSingle { .. }
    ));
    s.on_playback_complete(
        false,
        &vec![Action::Redirect { speaker: 99 }],
        String::from("tok-4"),
    );
    // The addressed speaker must always be tracked: the stale redirect
    // closed the topic instead.
    assert_eq!(s.orch.addressed, None);
    assert!(!s.orch.engaged);
}

#[test]
fn later_actions_override_earlier_ones() {
    let mut s = VoiceSession::new();
    s.on_speaker_presence(10, 1);
    s.on_speaker_presence(20, 2);
    s.on_fragment(1, &cv("hi"));
    s.decision_cycle(0, true);
    assert!(matches!(
        s.decision_cycle(500, true),
        CycleDecision::InvokeGroup { .. }
    ));
    // A redirect after an end-topic wins, and the other way round.
    s.on_playback_complete(
        false,
        &vec![Action::EndTopic, Action::Redirect { speaker: 2 }],
        String::from("tok-a"),
    );
    assert_eq!(s.orch.addressed, Some(2));
    assert!(s.orch.engaged);
    s.on_fragment(2, &cv("still here"));
    assert!(matches!(
        s.decision_cycle(5000, true),
        CycleDecision::InvokeSingle { .. }
    ));
    s.on_playback_complete(
        false,
        &vec![Action::Redirect { speaker: 1 }, Action::EndTopic],
        String::from("tok-b"),
    );
    assert_eq!(s.orch.addressed, None);
    assert!(!s.orch.engaged);
}

#[test]
fn end_topic_action_returns_to_idle() {
    let mut s = VoiceSession::new();
    s.on_speaker_presence(10, 1);
    s.on_fragment(1, &cv("done"));
    s.decision_cycle(0, false);
    s.decision_cycle(1000, false);
    s.on_playback_complete(false, &vec![Action::EndTopic], String::from("tok-5"));
    assert!(!s.orch.engaged);
    assert_eq!(s.orch.addressed, None);
}

#[test]
fn pipeline_failure_returns_to_idle() {
    let mut s = VoiceSession::new();
    s.on_speaker_presence(10, 1);
    s.on_fragment(1, &cv("oops"));
    s.decision_cycle(0, false);
    s.decision_cycle(1000, false);
    assert!(s.orch.awaiting_playback);
    s.on_pipeline_failure();
    assert!(!s.orch.engaged);
    assert_eq!(s.orch.addressed, None);
    assert!(!s.orch.awaiting_playback);
}

#[test]
fn speaker_departure_removes_state_and_last_leaver_disconnects() {
    let mut s = VoiceSession::new();
    s.on_speaker_presence(10, 1);
    s.on_speaker_presence(20, 2);
    s.on_fragment(1, &cv("left behind"));

    let disconnect = s.on_speaker_departure(1);
    assert!(!disconnect);
    assert_eq!(s.participant_count(), 1);
    // The departed speaker's pending text is gone and new fragments for
    // them are dropped.
    s.on_fragment(1, &cv("ghost"));
    let d = s.decision_cycle(1000, false);
    assert!(matches!(d, CycleDecision::NoAction));
    assert!(!s.orch.engaged);

    let disconnect2 = s.on_speaker_departure(2);
    assert!(disconnect2);
    assert_eq!(s.participant_count(), 0);
}

#[test]
fn departure_of_addressed_speaker_clears_address() {
    let mut s = VoiceSession::new();
    s.on_speaker_presence(10, 1);
    s.on_speaker_presence(20, 2);
    s.on_fragment(1, &cv("hey"));
    s.decision_cycle(0, true);
    // Group engagement; redirect to speaker 1 to address them.
    if matches!(s.decision_cycle(500, true), CycleDecision::InvokeGroup { .. }) {
        s.on_playback_complete(
            false,
            &vec![Action::Redirect { speaker: 1 }],
            String::from("tok-6"),
        );
    }
    assert_eq!(s.orch.addressed, Some(1));
    s.on_speaker_departure(1);
    assert_eq!(s.orch.addressed, None);
}

#[test]
fn presence_actions_follow_the_source_table() {
    let mut s = VoiceSession::new();
    assert!(matches!(s.on_speaker_presence(10, 1), PresenceAction::SpeakerJoined));
    assert!(matches!(s.on_speaker_presence(10, 1), PresenceAction::KnownSource));
    assert!(matches!(s.on_speaker_presence(11, 1), PresenceAction::SourceRemapped));
    assert!(matches!(s.on_speaker_presence(20, 2), PresenceAction::SpeakerJoined));
    assert_eq!(s.participant_count(), 2);
}

#[test]
fn dead_recognition_stream_is_retried_on_next_presence() {
    let mut s = VoiceSession::new();
    assert!(matches!(s.on_speaker_presence(10, 1), PresenceAction::SpeakerJoined));
    // The stream dies mid-flight; the speaker stays tracked.
    s.on_recognition_ended(1);
    assert_eq!(s.participant_count(), 1);
    // The next speaking announcement asks the driver to reopen it.
    assert!(matches!(s.on_speaker_presence(10, 1), PresenceAction::StreamRetry));
    s.on_recognition_opened(1);
    assert!(matches!(s.on_speaker_presence(10, 1), PresenceAction::KnownSource));
}

#[test]
fn audio_tick_routes_and_encodes_frames() {
    let mut s = VoiceSession::new();
    s.on_speaker_presence(10, 1);
    let out = s.on_audio_tick(
        &vec![(10, vec![1i16, -2i16]), (99, vec![7i16])],
        &vec![],
        0,
    );
    // The unknown source is skipped; the known one yields little-endian
    // bytes for its speaker.
    assert_eq!(out.len(), 1);
    assert_eq!(out[0].0, 1);
    assert_eq!(out[0].1, vec![0x01, 0x00, 0xFE, 0xFF]);
    assert!(s.is_speaking(1, 100));
}

#[test]
fn silent_sources_mark_speakers_quiet() {
    let mut s = VoiceSession::new();
    s.on_speaker_presence(10, 1);
    s.on_audio_tick(&vec![(10, vec![5i16])], &vec![], 0);
    assert!(s.is_speaking(1, 10));
    s.on_audio_tick(&vec![], &vec![10], 20);
    assert!(!s.is_speaking(1, 30));
}

#[test]
fn debounce_expires_exactly_at_the_timeout() {
    let mut t = SpeakingTracker::new();
    t.set(true, 1000);
    assert!(t.get(1000));
    assert!(t.get(3999));
    assert!(!t.get(4000));
    // A reset before expiry keeps the flag up for a fresh window.
    t.set(true, 3500);
    assert!(t.get(4000));
    assert!(t.get(6499));
    assert!(!t.get(6500));
    // An explicit silence mark drops it at once.
    t.set(false, 6600);
    assert!(!t.get(6600));
}

#[test]
fn fragments_concatenate_per_speaker() {
    let mut s = VoiceSession::new();
    s.on_speaker_presence(10, 1);
    s.on_fragment(1, &cv("foo"));
    s.on_fragment(1, &cv("bar"));
    s.decision_cycle(0, false);
    match s.decision_cycle(1000, false) {
        CycleDecision::InvokeSingle { speaker, text } => {
            assert_eq!(speaker, 1);
            assert_eq!(text, cv("foobar"));
        }
        _ => panic!("expected the concatenated utterance"),
    }
}
