use aaw::midi::event::{parse_midi_message, MidiEvent, MidiEventKind};

fn event(channel: u8, kind: MidiEventKind) -> MidiEvent {
    MidiEvent { timestamp: None, channel, kind }
}

#[test]
fn parses_note_on_with_channel() {
    assert_eq!(
        parse_midi_message(&[0x91, 60, 100]),
        Some(event(1, MidiEventKind::NoteOn { key: 60, velocity: 100 }))
    );
}

#[test]
fn note_on_with_zero_velocity_is_note_off() {
    assert_eq!(
        parse_midi_message(&[0x9f, 64, 0]),
        Some(event(15, MidiEventKind::NoteOff { key: 64, velocity: 0 }))
    );
}

#[test]
fn parses_note_off() {
    assert_eq!(
        parse_midi_message(&[0x80, 61, 40]),
        Some(event(0, MidiEventKind::NoteOff { key: 61, velocity: 40 }))
    );
}

#[test]
fn parses_control_change() {
    assert_eq!(
        parse_midi_message(&[0xb3, 123, 0]),
        Some(event(3, MidiEventKind::ControlChange { controller: 123, value: 0 }))
    );
}

#[test]
fn parses_two_byte_messages() {
    assert_eq!(
        parse_midi_message(&[0xc5, 7]),
        Some(event(5, MidiEventKind::ProgramChange { program: 7 }))
    );
    assert_eq!(
        parse_midi_message(&[0xd2, 99]),
        Some(event(2, MidiEventKind::Aftertouch { value: 99 }))
    );
}

#[test]
fn parses_pitch_bend_range() {
    assert_eq!(
        parse_midi_message(&[0xe0, 0, 64]),
        Some(event(0, MidiEventKind::PitchBend { value: 0 }))
    );
    assert_eq!(
        parse_midi_message(&[0xe0, 0, 0]),
        Some(event(0, MidiEventKind::PitchBend { value: -8192 }))
    );
    assert_eq!(
        parse_midi_message(&[0xe1, 127, 127]),
        Some(event(1, MidiEventKind::PitchBend { value: 8191 }))
    );
    assert_eq!(
        parse_midi_message(&[0xe0, 1, 2]),
        Some(event(0, MidiEventKind::PitchBend { value: 2 * 128 + 1 - 8192 }))
    );
}

#[test]
fn refuses_short_empty_and_unknown_messages() {
    assert_eq!(parse_midi_message(&[]), None);
    assert_eq!(parse_midi_message(&[0x90, 60]), None);
    assert_eq!(parse_midi_message(&[0xc0]), None);
    assert_eq!(parse_midi_message(&[0xe0, 0]), None);
    assert_eq!(parse_midi_message(&[0xa0, 60, 10]), None);
    assert_eq!(parse_midi_message(&[0xf8]), None);
    assert_eq!(parse_midi_message(&[0x40, 1, 2]), None);
}

#[test]
fn longer_messages_read_their_first_bytes() {
    assert_eq!(
        parse_midi_message(&[0x92, 10, 20, 30]),
        Some(event(2, MidiEventKind::NoteOn { key: 10, velocity: 20 }))
    );
}

#[test]
fn transposes_notes() {
    let on = event(0, MidiEventKind::NoteOn { key: 60, velocity: 90 });
    assert_eq!(on.transpose(12), Some(event(0, MidiEventKind::NoteOn { key: 72, velocity: 90 })));
    let off = event(4, MidiEventKind::NoteOff { key: 60, velocity: 3 });
    assert_eq!(off.transpose(-60), Some(event(4, MidiEventKind::NoteOff { key: 0, velocity: 3 })));
}

#[test]
fn transposition_out_of_range_gives_none() {
    let high = event(0, MidiEventKind::NoteOn { key: 120, velocity: 90 });
    assert_eq!(high.transpose(8), None);
    assert_eq!(high.transpose(7), Some(event(0, MidiEventKind::NoteOn { key: 127, velocity: 90 })));
    let low = event(0, MidiEventKind::NoteOff { key: 5, velocity: 0 });
    assert_eq!(low.transpose(-6), None);
    let top = event(0, MidiEventKind::NoteOn { key: 250, velocity: 1 });
    assert_eq!(top.transpose(10), None);
    assert_eq!(top.transpose(-127), Some(event(0, MidiEventKind::NoteOn { key: 123, velocity: 1 })));
}

#[test]
fn transposition_leaves_other_events() {
    let cc = MidiEvent {
        timestamp: Some(17),
        channel: 9,
        kind: MidiEventKind::ControlChange { controller: 1, value: 2 },
    };
    assert_eq!(cc.transpose(100), Some(cc));
}

#[test]
fn transposing_back_restores_the_event() {
    let on = MidiEvent { timestamp: Some(5), channel: 2, kind: MidiEventKind::NoteOn { key: 40, velocity: 9 } };
    let moved = on.transpose(-17).unwrap();
    assert_eq!(moved.transpose(17), Some(on));
    assert_eq!(on.transpose(0), Some(on));
}
