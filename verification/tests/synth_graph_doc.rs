use aaw::engine::synth_graph::doc::{Command, Graph, Slot};
use aaw::midi::filter::ChannelMask;

#[test]
fn doc_edits_existing_slots() {
    let mut g = Graph { slots: Vec::with_capacity(2) };
    g.process_command(Command::Append);
    assert_eq!(g.slots.len(), 1);
    assert_eq!(g.slots[0].name, "");
    assert!(g.slots[0].enabled);
    g.process_command(Command::SetName { slot_id: 0, name: "lead".to_string() });
    assert_eq!(g.slots[0].name, "lead");
    g.process_command(Command::SetSource { slot_id: 0, source_id: Some(3) });
    g.process_command(Command::SetEnabled { slot_id: 0, flag: false });
    g.process_command(Command::SetChannelMask { slot_id: 0, mask: ChannelMask { mask: 9 } });
    g.process_command(Command::SetTransposition { slot_id: 0, transposition: 12 });
    g.process_command(Command::SetUseGlobalTransposition { slot_id: 0, flag: false });
    let s: &Slot = &g.slots[0];
    assert_eq!(s.source_id, Some(3));
    assert!(!s.enabled);
    assert_eq!(s.channel_mask, ChannelMask { mask: 9 });
    assert_eq!(s.transposition, 12);
    assert!(!s.use_global_transposition);
    g.process_command(Command::SetName { slot_id: 5, name: "x".to_string() });
    g.process_command(Command::Remove { slot_id: 5 });
    assert_eq!(g.slots.len(), 1);
    g.process_command(Command::Remove { slot_id: 0 });
    assert!(g.slots.is_empty());
}

#[test]
fn doc_append_needs_room() {
    let mut g = Graph { slots: Vec::new() };
    g.apply_command(Command::Append, false);
    assert!(g.slots.is_empty());
    g.apply_command(Command::Append, true);
    assert_eq!(g.slots.len(), 1);
    let mut full = Graph { slots: Vec::with_capacity(1) };
    let cap = full.slots.capacity();
    for _ in 0..cap + 3 {
        full.process_command(Command::Append);
    }
    assert_eq!(full.slots.len(), cap);
}

#[test]
fn doc_append_then_remove_last_restores() {
    let mut g = Graph { slots: Vec::new() };
    g.apply_command(Command::Append, true);
    g.apply_command(Command::SetName { slot_id: 0, name: "pad".to_string() }, true);
    g.apply_command(Command::Append, true);
    g.apply_command(Command::Remove { slot_id: 1 }, true);
    assert_eq!(g.slots.len(), 1);
    assert_eq!(g.slots[0].name, "pad");
}
