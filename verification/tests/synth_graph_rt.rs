use aaw::engine::synth_graph::rt::{Command, Graph, Slot};
use aaw::midi::event::{MidiEvent, MidiEventKind};
use aaw::midi::filter::ChannelMask;

fn graph_with(slots: Vec<Slot>) -> (Graph, rtrb::Producer<(u32, Command)>, rtrb::Consumer<(u32, bool)>) {
    let (cmd_tx, cmd_rx) = rtrb::RingBuffer::new(16);
    let (ack_tx, ack_rx) = rtrb::RingBuffer::new(16);
    (Graph { cmd_rx, ack_tx, slots, global_transposition: 0 }, cmd_tx, ack_rx)
}

fn slot(source: u8) -> Slot {
    Slot { source_id: Some(source), ..Slot::default() }
}

fn note_on(channel: u8, key: u8) -> MidiEvent {
    MidiEvent { timestamp: None, channel, kind: MidiEventKind::NoteOn { key, velocity: 64 } }
}

#[test]
fn default_slot_routes_everything() {
    let s = Slot::default();
    assert_eq!(s.source_id, None);
    assert!(s.enabled);
    assert_eq!(s.channel_mask, ChannelMask::all());
    assert_eq!(s.transposition, 0);
    assert!(s.use_global_transposition);
}

#[test]
fn slot_commands_need_an_existing_slot() {
    let (mut g, _tx, _rx) = graph_with(vec![slot(0)]);
    assert!(g.process_command(Command::SetEnabled { slot_id: 0, flag: false }));
    assert!(!g.slots[0].enabled);
    assert!(!g.process_command(Command::SetEnabled { slot_id: 1, flag: false }));
    assert!(g.process_command(Command::SetSource { slot_id: 0, source_id: Some(4) }));
    assert_eq!(g.slots[0].source_id, Some(4));
    assert!(g.process_command(Command::SetChannelMask { slot_id: 0, mask: ChannelMask { mask: 2 } }));
    assert_eq!(g.slots[0].channel_mask, ChannelMask { mask: 2 });
    assert!(g.process_command(Command::SetTransposition { slot_id: 0, transposition: -3 }));
    assert_eq!(g.slots[0].transposition, -3);
    assert!(g.process_command(Command::SetUseGlobalTransposition { slot_id: 0, flag: false }));
    assert!(!g.slots[0].use_global_transposition);
    assert!(!g.process_command(Command::RemoveSlot { slot_id: 1 }));
    assert!(g.process_command(Command::RemoveSlot { slot_id: 0 }));
    assert!(g.slots.is_empty());
    assert!(g.process_command(Command::SetGlobalTransposition { transposition: 5 }));
    assert_eq!(g.global_transposition, 5);
}

#[test]
fn push_slot_needs_room() {
    let (mut g, _tx, _rx) = graph_with(Vec::with_capacity(1));
    let cap = g.slots.capacity();
    for _ in 0..cap {
        assert!(g.process_command(Command::PushSlot));
    }
    assert_eq!(g.slots.len(), cap);
    assert!(!g.process_command(Command::PushSlot));
    assert_eq!(g.slots.len(), cap);
}

#[test]
fn apply_command_follows_the_room_flag() {
    let (mut g, _tx, _rx) = graph_with(Vec::new());
    assert!(!g.apply_command(Command::PushSlot, false));
    assert!(g.slots.is_empty());
    assert!(g.apply_command(Command::PushSlot, true));
    assert_eq!(g.slots.len(), 1);
    assert_eq!(g.slots[0], Slot::default());
}

#[test]
fn remove_source_renumbers_later_sources() {
    let (mut g, _tx, _rx) = graph_with(vec![slot(0), slot(1), slot(2), Slot::default()]);
    assert!(g.process_command(Command::RemoveSource { source_id: 1 }));
    let sources: Vec<Option<u8>> = g.slots.iter().map(|s| s.source_id).collect();
    assert_eq!(sources, vec![Some(0), None, Some(1), None]);
}

#[test]
fn drain_applies_and_acknowledges_queued_commands() {
    let (mut g, mut tx, mut rx) = graph_with(Vec::with_capacity(4));
    tx.push((7, Command::PushSlot)).ok().unwrap();
    tx.push((8, Command::SetSource { slot_id: 0, source_id: Some(2) })).ok().unwrap();
    tx.push((9, Command::SetEnabled { slot_id: 3, flag: false })).ok().unwrap();
    g.drain_commands();
    assert_eq!(g.slots.len(), 1);
    assert_eq!(g.slots[0].source_id, Some(2));
    assert_eq!(rx.pop(), Ok((7, true)));
    assert_eq!(rx.pop(), Ok((8, true)));
    assert_eq!(rx.pop(), Ok((9, false)));
    assert!(rx.pop().is_err());
    g.drain_commands();
    assert_eq!(g.slots.len(), 1);
}

#[test]
fn midi_events_are_routed_and_transposed() {
    let mut second = slot(5);
    second.transposition = 2;
    let mut third = slot(6);
    third.use_global_transposition = false;
    let (mut g, _tx, _rx) = graph_with(vec![slot(4), second, third]);
    g.global_transposition = 10;
    let routed: Vec<(u8, MidiEvent)> = {
        let mut it = g.iter_midi_event(note_on(0, 60));
        let mut out = Vec::new();
        while let Some(x) = it.next() {
            out.push(x);
        }
        out
    };
    assert_eq!(routed, vec![(4, note_on(0, 70)), (5, note_on(0, 72)), (6, note_on(0, 60))]);
}

#[test]
fn routing_skips_masked_disabled_and_out_of_range_slots() {
    let mut masked = slot(1);
    masked.channel_mask = ChannelMask { mask: 1 << 2 };
    let mut disabled = slot(2);
    disabled.enabled = false;
    let mut high = slot(3);
    high.transposition = 100;
    let (g, _tx, _rx) = graph_with(vec![masked, disabled, high, slot(4)]);
    let mut it = g.iter_midi_event(note_on(1, 60));
    assert_eq!(it.next(), Some((4, note_on(1, 60))));
    assert_eq!(it.next(), None);

    let off = MidiEvent { timestamp: None, channel: 2, kind: MidiEventKind::NoteOff { key: 10, velocity: 0 } };
    let mut it = g.iter_midi_event(off);
    assert_eq!(it.next(), Some((1, off)));
    assert_eq!(it.next(), Some((2, off)));
    assert_eq!(it.next(), Some((3, MidiEvent { kind: MidiEventKind::NoteOff { key: 110, velocity: 0 }, ..off })));
    assert_eq!(it.next(), Some((4, off)));
    assert_eq!(it.next(), None);
}

#[test]
fn routing_stops_at_a_slot_without_source() {
    let (g, _tx, _rx) = graph_with(vec![slot(1), Slot::default(), slot(2)]);
    let mut it = g.iter_midi_event(note_on(0, 60));
    assert_eq!(it.next(), Some((1, note_on(0, 60))));
    assert_eq!(it.next(), None);

    let mut audio = g.iter_audio();
    assert_eq!(audio.next(), Some(1));
    assert_eq!(audio.next(), None);
}

#[test]
fn audio_walks_enabled_slots() {
    let mut disabled = slot(2);
    disabled.enabled = false;
    let (g, _tx, _rx) = graph_with(vec![slot(1), disabled, slot(3)]);
    let mut audio = g.iter_audio();
    assert_eq!(audio.next(), Some(1));
    assert_eq!(audio.next(), Some(3));
    assert_eq!(audio.next(), None);
}

#[test]
fn push_then_remove_last_restores_the_slots() {
    let mut first = slot(3);
    first.transposition = 4;
    let (mut g, _tx, _rx) = graph_with(vec![first]);
    let before = g.slots.clone();
    assert!(g.apply_command(Command::PushSlot, true));
    assert!(g.process_command(Command::RemoveSlot { slot_id: 1 }));
    assert_eq!(g.slots, before);
}

#[test]
fn the_walk_ends_at_the_first_sourceless_slot() {
    let collect = |g: &Graph| {
        let mut it = g.iter_midi_event(note_on(0, 60));
        let mut out = Vec::new();
        while let Some(x) = it.next() {
            out.push(x);
        }
        out
    };
    let (full, _tx1, _rx1) = graph_with(vec![slot(1), slot(2), Slot::default(), slot(3)]);
    let (cut, _tx2, _rx2) = graph_with(vec![slot(1), slot(2)]);
    assert_eq!(collect(&full), collect(&cut));
    assert_eq!(collect(&full).len(), 2);
}
