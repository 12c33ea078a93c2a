use aaw::engine::dummy_graph::rt::{Command, Graph, Synth};
use aaw::synths::voice_synth::{VoiceRenderer, VoiceSynth};
use aaw::midi::event::{MidiEvent, MidiEventKind};

struct ProbeRenderer {
    name: u32,
    rate: u32,
}

impl VoiceRenderer for ProbeRenderer {
    type Sound = u8;
    type Sample = u32;
    type Output = Vec<u32>;

    fn sound_for_note(&self, _key: u8, velocity: u8) -> u8 {
        velocity
    }

    fn set_sample_rate(&mut self, sample_rate: u32) {
        self.rate = sample_rate;
    }

    fn frame_count(&self, _output: &Vec<u32>) -> usize {
        1
    }

    fn silence(&self) -> u32 {
        0
    }

    fn mix_voice(&self, sample: u32, sound: &mut u8, releasing: bool) -> u32 {
        if releasing {
            *sound = 0;
        }
        sample + 1
    }

    fn write_frame(&self, output: &mut Vec<u32>, _frame: usize, sample: u32) {
        output.push(self.name);
        output.push(sample);
    }

    fn faded(&self, sound: &u8) -> bool {
        *sound == 0
    }
}

type Probe = VoiceSynth<ProbeRenderer>;

fn probe(name: u32) -> Probe {
    VoiceSynth::new(ProbeRenderer { name, rate: 0 })
}

fn graph(
    capacity: usize,
    retire: usize,
) -> (Graph<Probe>, rtrb::Producer<(u32, Command<Probe>)>, rtrb::Consumer<(u32, bool)>, rtrb::Consumer<Probe>) {
    let (cmd_tx, cmd_rx) = rtrb::RingBuffer::new(8);
    let (ack_tx, ack_rx) = rtrb::RingBuffer::new(8);
    let (retire_tx, retire_rx) = rtrb::RingBuffer::new(retire);
    (Graph { cmd_rx, ack_tx, retire_tx, synths: Vec::with_capacity(capacity) }, cmd_tx, ack_rx, retire_rx)
}

#[test]
fn push_and_remove_retire_synths() {
    let (mut g, _tx, _ack, mut retired) = graph(2, 4);
    let cap = g.synths.capacity();
    for i in 0..cap {
        assert!(g.process_command(Command::Push(probe(i as u32))));
    }
    assert!(!g.process_command(Command::Push(probe(99))));
    assert_eq!(retired.pop().map(|p| p.renderer.name), Ok(99));
    assert!(!g.process_command(Command::Remove(cap as u8)));
    assert!(g.process_command(Command::Remove(0)));
    assert_eq!(retired.pop().map(|p| p.renderer.name), Ok(0));
    assert_eq!(g.synths.len(), cap - 1);
}

#[test]
fn full_retirement_queue_drops_the_synth() {
    let (mut g, _tx, _ack, mut retired) = graph(1, 1);
    assert!(g.apply_command(Command::Push(probe(1)), true));
    assert!(g.process_command(Command::Remove(0)));
    assert!(!g.apply_command(Command::Push(probe(2)), false));
    assert_eq!(retired.pop().map(|p| p.renderer.name), Ok(1));
    assert!(retired.pop().is_err());
}

#[test]
fn incoming_commands_are_applied_and_acknowledged() {
    let (mut g, mut tx, mut ack, _retired) = graph(4, 4);
    tx.push((1, Command::Push(probe(10)))).ok().unwrap();
    tx.push((2, Command::Remove(3))).ok().unwrap();
    tx.push((3, Command::Push(probe(11)))).ok().unwrap();
    g.process_incoming_commands();
    assert_eq!(ack.pop(), Ok((1, true)));
    assert_eq!(ack.pop(), Ok((2, false)));
    assert_eq!(ack.pop(), Ok((3, true)));
    let names: Vec<u32> = g.synths.iter().map(|p| p.renderer.name).collect();
    assert_eq!(names, vec![10, 11]);
}

#[test]
fn events_and_audio_reach_the_addressed_synth() {
    let (mut g, _tx, _ack, _retired) = graph(4, 4);
    assert!(g.apply_command(Command::Push(probe(1)), true));
    assert!(g.apply_command(Command::Push(probe(2)), true));
    let e = MidiEvent { timestamp: None, channel: 0, kind: MidiEventKind::NoteOn { key: 60, velocity: 90 } };
    g.handle_midi_event(1, e);
    g.handle_midi_event(7, e);
    assert!(g.synths[0].voices.is_empty());
    assert_eq!(g.synths[1].voices.len(), 1);
    assert_eq!((g.synths[1].voices[0].key, g.synths[1].voices[0].sound), (60, 90));
    let off = MidiEvent { timestamp: None, channel: 0, kind: MidiEventKind::NoteOff { key: 60, velocity: 0 } };
    g.handle_midi_event(1, off);
    assert!(g.synths[1].voices[0].releasing);
    let mut out = Vec::new();
    g.process(1, &mut out);
    g.process(9, &mut out);
    assert_eq!(out, vec![2, 1]);
    assert!(g.synths[1].voices.is_empty());
}

#[test]
fn processing_drops_only_faded_released_voices() {
    let mut s = probe(4);
    for key in [10u8, 11, 12] {
        s.handle_midi_event(MidiEvent { timestamp: None, channel: 0, kind: MidiEventKind::NoteOn { key, velocity: 5 } });
    }
    s.handle_midi_event(MidiEvent { timestamp: None, channel: 0, kind: MidiEventKind::NoteOff { key: 11, velocity: 0 } });
    let mut out = Vec::new();
    s.process(&mut out);
    assert_eq!(out, vec![4, 3]);
    let keys: Vec<u8> = s.voices.iter().map(|v| v.key).collect();
    assert_eq!(keys, vec![10, 12]);
    assert!(s.voices.iter().all(|v| !v.releasing && v.sound == 5));
}

#[test]
fn prepare_silences_the_synth() {
    let mut s = probe(3);
    s.handle_midi_event(MidiEvent { timestamp: None, channel: 0, kind: MidiEventKind::NoteOn { key: 1, velocity: 2 } });
    assert_eq!(s.voices.len(), 1);
    s.prepare(44_100);
    assert!(s.voices.is_empty());
    assert_eq!(s.renderer.rate, 44_100);
}

#[test]
fn accepted_commands_leave_the_queues() {
    let (mut g, _tx, mut ack, mut retired) = graph(2, 4);
    assert!(g.apply_command(Command::Push(probe(5)), true));
    assert!(!g.apply_command(Command::Remove(4), true));
    assert!(ack.pop().is_err());
    assert!(retired.pop().is_err());
}
