use vstd::prelude::*;

verus! {

/// A decoded channel-voice MIDI message.
#[derive(Debug, Clone, Copy, PartialEq, Eq, Structural)]
pub struct MidiEvent {
    pub timestamp: Option<u64>,
    pub channel: u8,
    pub kind: MidiEventKind,
}

/// The kinds of channel-voice messages understood by the engine.
#[derive(Debug, Clone, Copy, PartialEq, Eq, Structural)]
pub enum MidiEventKind {
    NoteOn { key: u8, velocity: u8 },
    NoteOff { key: u8, velocity: u8 },
    ControlChange { controller: u8, value: u8 },
    PitchBend { value: i16 },
    ProgramChange { program: u8 },
    Aftertouch { value: u8 },
}

/// The key `key` moved by `transposition` semitones, if it stays a MIDI key (0..=127).
pub open spec fn spec_transpose_key(key: u8, transposition: i8) -> Option<u8> {
    let k = key as int + transposition as int;
    if 0 <= k && k <= 127 {
        Some(k as u8)
    } else {
        None
    }
}

impl MidiEvent {
    /// The event with its note key transposed; non-note events are unchanged.
    pub open spec fn spec_transpose(self, transposition: i8) -> Option<MidiEvent> {
        match self.kind {
            MidiEventKind::NoteOn { key, velocity } => match spec_transpose_key(key, transposition) {
                Some(k) => Some(
                    MidiEvent {
                        timestamp: self.timestamp,
                        channel: self.channel,
                        kind: MidiEventKind::NoteOn { key: k, velocity },
                    },
                ),
                None => None,
            },
            MidiEventKind::NoteOff { key, velocity } => match spec_transpose_key(key, transposition) {
                Some(k) => Some(
                    MidiEvent {
                        timestamp: self.timestamp,
                        channel: self.channel,
                        kind: MidiEventKind::NoteOff { key: k, velocity },
                    },
                ),
                None => None,
            },
            _ => Some(self),
        }
    }

    /// Transposes a note-on or note-off event by `transposition` semitones.
    ///
    /// Returns `None` when the transposed key leaves the MIDI key range 0..=127.
    /// Other kinds of events are returned unchanged.
    pub fn transpose(&self, transposition: i8) -> (r: Option<MidiEvent>)
        ensures
            r == self.spec_transpose(transposition),
    {
        match self.kind {
            MidiEventKind::NoteOn { key, velocity } => match transpose(key, transposition) {
                Some(k) => Some(
                    MidiEvent {
                        timestamp: self.timestamp,
                        channel: self.channel,
                        kind: MidiEventKind::NoteOn { key: k, velocity },
                    },
                ),
                None => None,
            },
            MidiEventKind::NoteOff { key, velocity } => match transpose(key, transposition) {
                Some(k) => Some(
                    MidiEvent {
                        timestamp: self.timestamp,
                        channel: self.channel,
                        kind: MidiEventKind::NoteOff { key: k, velocity },
                    },
                ),
                None => None,
            },
            _ => Some(*self),
        }
    }
}

/// The 14-bit pitch-bend value carried by the data bytes `lsb` and `msb`, centred on zero.
pub open spec fn spec_pitch_bend(lsb: u8, msb: u8) -> i16 {
    ((((msb as i16) << 7u16) | (lsb as i16)) - 8192) as i16
}

/// The message kind encoded by `message`, by its status nibble and length.
pub open spec fn spec_message_kind(message: Seq<u8>) -> Option<MidiEventKind> {
    let status = message[0];
    let command = status / 16;
    if command == 8 && message.len() >= 3 {
        Some(MidiEventKind::NoteOff { key: message[1], velocity: message[2] })
    } else if command == 9 && message.len() >= 3 && message[2] == 0 {
        Some(MidiEventKind::NoteOff { key: message[1], velocity: 0 })
    } else if command == 9 && message.len() >= 3 {
        Some(MidiEventKind::NoteOn { key: message[1], velocity: message[2] })
    } else if command == 11 && message.len() >= 3 {
        Some(MidiEventKind::ControlChange { controller: message[1], value: message[2] })
    } else if command == 12 && message.len() >= 2 {
        Some(MidiEventKind::ProgramChange { program: message[1] })
    } else if command == 13 && message.len() >= 2 {
        Some(MidiEventKind::Aftertouch { value: message[1] })
    } else if command == 14 && message.len() >= 3 {
        Some(MidiEventKind::PitchBend { value: spec_pitch_bend(message[1], message[2]) })
    } else {
        None
    }
}

/// The event that the raw bytes `message` encode, if any.
pub open spec fn spec_parse_midi_message(message: Seq<u8>) -> Option<MidiEvent> {
    if message.len() == 0 {
        None
    } else {
        match spec_message_kind(message) {
            Some(kind) => Some(MidiEvent { timestamp: None, channel: message[0] % 16, kind }),
            None => None,
        }
    }
}

/// Decodes one raw MIDI message.
///
/// The status byte's low nibble is the channel and its high nibble the message kind;
/// a note-on with velocity zero is a note-off. Messages that are too short or of
/// another kind give `None`.
pub fn parse_midi_message(message: &[u8]) -> (r: Option<MidiEvent>)
    ensures
        r == spec_parse_midi_message(message@),
        r matches Some(e) ==> e.channel < 16,
{
    if message.len() == 0 {
        return None;
    }
    let status = message[0];
    let channel = status & 0x0f;
    let command = status & 0xf0;
    proof {
        assert(status & 0x0f == status % 16 && status % 16 < 16) by (bit_vector);
        assert(status & 0xf0 == (status / 16) * 16) by (bit_vector);
    }
    let len = message.len();
    let kind = if command == 0x80 && len >= 3 {
        MidiEventKind::NoteOff { key: message[1], velocity: message[2] }
    } else if command == 0x90 && len >= 3 && message[2] == 0 {
        MidiEventKind::NoteOff { key: message[1], velocity: 0 }
    } else if command == 0x90 && len >= 3 {
        MidiEventKind::NoteOn { key: message[1], velocity: message[2] }
    } else if command == 0xb0 && len >= 3 {
        MidiEventKind::ControlChange { controller: message[1], value: message[2] }
    } else if command == 0xc0 && len >= 2 {
        MidiEventKind::ProgramChange { program: message[1] }
    } else if command == 0xd0 && len >= 2 {
        MidiEventKind::Aftertouch { value: message[1] }
    } else if command == 0xe0 && len >= 3 {
        let lsb = message[1];
        let msb = message[2];
        proof {
            assert((((msb as i16) << 7u16) | (lsb as i16)) >= 0) by (bit_vector);
        }
        let raw: i16 = ((msb as i16) << 7u16) | (lsb as i16);
        MidiEventKind::PitchBend { value: raw - 8192 }
    } else {
        return None;
    };
    Some(MidiEvent { timestamp: None, channel, kind })
}

/// Moves `key` by `transposition` semitones; `None` when it leaves 0..=127.
fn transpose(key: u8, transposition: i8) -> (r: Option<u8>)
    ensures
        r == spec_transpose_key(key, transposition),
{
    let k: i16 = key as i16 + transposition as i16;
    if k < 0 || k > 127 {
        None
    } else {
        Some(k as u8)
    }
}

/// Transposing back undoes a transposition: when `event` (whose key, if it has one, is a
/// MIDI key) transposed by `transposition` gives an event, that event transposed by
/// `-transposition` gives `event` again.
pub proof fn lemma_transpose_round_trip(event: MidiEvent, transposition: i8)
    requires
        transposition != i8::MIN,
        event.kind matches MidiEventKind::NoteOn { key, .. } ==> key <= 127,
        event.kind matches MidiEventKind::NoteOff { key, .. } ==> key <= 127,
    ensures
        event.spec_transpose(transposition) matches Some(moved) ==> moved.spec_transpose(
            (-transposition) as i8,
        ) == Some(event),
{
    let back = (-transposition) as i8;
    assert(back as int == -(transposition as int));
    match event.kind {
        MidiEventKind::NoteOn { key, velocity } => {
            if let Some(k) = spec_transpose_key(key, transposition) {
                assert(k as int == key as int + transposition as int);
                assert(spec_transpose_key(k, back) == Some(key));
            }
        },
        MidiEventKind::NoteOff { key, velocity } => {
            if let Some(k) = spec_transpose_key(key, transposition) {
                assert(k as int == key as int + transposition as int);
                assert(spec_transpose_key(k, back) == Some(key));
            }
        },
        _ => {},
    }
}

/// Transposing by zero keeps every event whose key, if it has one, is a MIDI key.
pub proof fn lemma_transpose_by_zero(event: MidiEvent)
    requires
        event.kind matches MidiEventKind::NoteOn { key, .. } ==> key <= 127,
        event.kind matches MidiEventKind::NoteOff { key, .. } ==> key <= 127,
    ensures
        event.spec_transpose(0) == Some(event),
{
}

/// A note-on with velocity zero is read as a note-off of the same key.
pub proof fn lemma_zero_velocity_note_on_is_note_off(status: u8, key: u8)
    requires
        status / 16 == 9,
    ensures
        spec_parse_midi_message(seq![status, key, 0u8]) == Some(
            MidiEvent {
                timestamp: None,
                channel: status % 16,
                kind: MidiEventKind::NoteOff { key, velocity: 0 },
            },
        ),
{
}

/// For data bytes (below 128) the pitch-bend value is `msb * 128 + lsb - 8192`,
/// which lies in -8192..=8191.
pub proof fn lemma_pitch_bend_of_data_bytes(lsb: u8, msb: u8)
    requires
        lsb < 128,
        msb < 128,
    ensures
        spec_pitch_bend(lsb, msb) == msb as int * 128 + lsb as int - 8192,
        -8192 <= spec_pitch_bend(lsb, msb) <= 8191,
{
    assert((((msb as i16) << 7u16) | (lsb as i16)) == (msb as i16) * 128 + (lsb as i16)) by (bit_vector)
        requires
            lsb < 128,
            msb < 128,
    ;
}

/// How the status byte decides a message: its low four bits are the channel; status
/// bytes 0x80..=0x8F are note-offs, 0x90..=0x9F note-ons (note-offs when the velocity is
/// zero), 0xB0..=0xBF control changes and 0xE0..=0xEF pitch bends, each needing two data
/// bytes; 0xC0..=0xCF program changes and 0xD0..=0xDF aftertouch need one. Anything else
/// (polyphonic aftertouch, system messages, a data byte in front) and messages too short
/// for their kind give nothing.
pub proof fn lemma_parse_by_status(status: u8, d1: u8, d2: u8)
    ensures
        spec_parse_midi_message(Seq::<u8>::empty()) is None,
        spec_parse_midi_message(seq![status]) is None,
        0x80 <= status <= 0x8f ==> spec_parse_midi_message(seq![status, d1, d2]) == Some(MidiEvent { timestamp: None, channel: status % 16, kind: MidiEventKind::NoteOff { key: d1, velocity: d2 } })
            && spec_parse_midi_message(seq![status, d1]) is None,
        0x90 <= status <= 0x9f && d2 >= 1 ==> spec_parse_midi_message(seq![status, d1, d2]) == Some(MidiEvent { timestamp: None, channel: status % 16, kind: MidiEventKind::NoteOn { key: d1, velocity: d2 } })
            && spec_parse_midi_message(seq![status, d1]) is None,
        0x90 <= status <= 0x9f && d2 == 0 ==> spec_parse_midi_message(seq![status, d1, d2]) == Some(MidiEvent { timestamp: None, channel: status % 16, kind: MidiEventKind::NoteOff { key: d1, velocity: 0 } }),
        0xb0 <= status <= 0xbf ==> spec_parse_midi_message(seq![status, d1, d2]) == Some(MidiEvent { timestamp: None, channel: status % 16, kind: MidiEventKind::ControlChange { controller: d1, value: d2 } })
            && spec_parse_midi_message(seq![status, d1]) is None,
        0xc0 <= status <= 0xcf ==> spec_parse_midi_message(seq![status, d1, d2]) == Some(MidiEvent { timestamp: None, channel: status % 16, kind: MidiEventKind::ProgramChange { program: d1 } })
            && spec_parse_midi_message(seq![status, d1]) == Some(MidiEvent { timestamp: None, channel: status % 16, kind: MidiEventKind::ProgramChange { program: d1 } }),
        0xd0 <= status <= 0xdf ==> spec_parse_midi_message(seq![status, d1, d2]) == Some(MidiEvent { timestamp: None, channel: status % 16, kind: MidiEventKind::Aftertouch { value: d1 } })
            && spec_parse_midi_message(seq![status, d1]) == Some(MidiEvent { timestamp: None, channel: status % 16, kind: MidiEventKind::Aftertouch { value: d1 } }),
        0xe0 <= status <= 0xef ==> spec_parse_midi_message(seq![status, d1]) is None && match spec_parse_midi_message(
            seq![status, d1, d2],
        ) {
            Some(e) => e.timestamp is None && e.channel == status % 16 && match e.kind {
                MidiEventKind::PitchBend { value } => d1 < 128 && d2 < 128 ==> value == d2 as int * 128
                    + d1 as int - 8192,
                _ => false,
            },
            None => false,
        },
        status < 0x80 || (0xa0 <= status <= 0xaf) || status >= 0xf0 ==> spec_parse_midi_message(
            seq![status, d1, d2],
        ) is None && spec_parse_midi_message(seq![status, d1]) is None,
{
    if d1 < 128 && d2 < 128 {
        lemma_pitch_bend_of_data_bytes(d1, d2);
    }
}

} // verus!
