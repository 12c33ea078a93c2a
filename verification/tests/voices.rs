use aaw::synths::voices::apply_voice_action;
use aaw::synths::voices::is_all_notes_off;
use aaw::midi::event::{MidiEvent, MidiEventKind};
use aaw::synths::voices::{release_key, start_voice, voice_action, Voice, VoiceAction, MAX_VOICES};

fn ev(kind: MidiEventKind) -> MidiEvent {
    MidiEvent { timestamp: None, channel: 0, kind }
}

#[test]
fn actions_of_events() {
    assert_eq!(voice_action(ev(MidiEventKind::NoteOn { key: 60, velocity: 5 })), VoiceAction::Start { key: 60, velocity: 5 });
    assert_eq!(voice_action(ev(MidiEventKind::NoteOn { key: 60, velocity: 0 })), VoiceAction::Ignore);
    assert_eq!(voice_action(ev(MidiEventKind::NoteOff { key: 61, velocity: 9 })), VoiceAction::Release { key: 61 });
    assert_eq!(voice_action(ev(MidiEventKind::ControlChange { controller: 123, value: 0 })), VoiceAction::ClearAll);
    assert_eq!(voice_action(ev(MidiEventKind::ControlChange { controller: 64, value: 127 })), VoiceAction::Ignore);
    assert_eq!(voice_action(ev(MidiEventKind::PitchBend { value: 3 })), VoiceAction::Ignore);
}

#[test]
fn restarting_a_key_replaces_its_voice() {
    let mut voices: Vec<Voice<u32>> = Vec::new();
    start_voice(&mut voices, 60, 1);
    start_voice(&mut voices, 64, 2);
    start_voice(&mut voices, 60, 3);
    let keys: Vec<(u8, u32)> = voices.iter().map(|v| (v.key, v.sound)).collect();
    assert_eq!(keys, vec![(64, 2), (60, 3)]);
}

#[test]
fn the_oldest_voice_gives_way() {
    let mut voices: Vec<Voice<usize>> = Vec::new();
    for i in 0..MAX_VOICES {
        start_voice(&mut voices, i as u8, i);
    }
    assert_eq!(voices.len(), MAX_VOICES);
    start_voice(&mut voices, 100, 100);
    assert_eq!(voices.len(), MAX_VOICES);
    assert_eq!(voices[0].key, 1);
    assert_eq!(voices[MAX_VOICES - 1].key, 100);
    assert!(!voices[MAX_VOICES - 1].releasing);
}

#[test]
fn release_marks_the_key() {
    let mut voices: Vec<Voice<()>> = Vec::new();
    start_voice(&mut voices, 1, ());
    start_voice(&mut voices, 2, ());
    release_key(&mut voices, 2);
    release_key(&mut voices, 9);
    assert!(!voices[0].releasing);
    assert!(voices[1].releasing);
}

#[test]
fn voices_stay_in_their_reserved_room() {
    let mut voices: Vec<Voice<u8>> = Vec::with_capacity(MAX_VOICES);
    let cap = voices.capacity();
    for round in 0..3u8 {
        for k in 0..40u8 {
            start_voice(&mut voices, k.wrapping_add(round), k);
        }
    }
    assert_eq!(voices.len(), MAX_VOICES);
    assert_eq!(voices.capacity(), cap);
}

#[test]
fn all_notes_off_is_recognised() {
    assert!(is_all_notes_off(&ev(MidiEventKind::ControlChange { controller: 123, value: 0 })));
    assert!(!is_all_notes_off(&ev(MidiEventKind::ControlChange { controller: 122, value: 0 })));
    assert!(!is_all_notes_off(&ev(MidiEventKind::ProgramChange { program: 123 })));
}

#[test]
fn voice_actions_are_carried_out() {
    let mut voices: Vec<Voice<u32>> = Vec::new();
    apply_voice_action(&mut voices, VoiceAction::Start { key: 60, velocity: 9 }, Some(1));
    apply_voice_action(&mut voices, VoiceAction::Start { key: 62, velocity: 9 }, Some(2));
    apply_voice_action(&mut voices, VoiceAction::Release { key: 60 }, None);
    assert!(voices[0].releasing && !voices[1].releasing);
    apply_voice_action(&mut voices, VoiceAction::Ignore, None);
    assert_eq!(voices.len(), 2);
    apply_voice_action(&mut voices, VoiceAction::ClearAll, None);
    assert!(voices.is_empty());
}
