//! The audio thread's copy of the synth graph: an ordered list of slots, each routing
//! MIDI events to one synth (its source) and mixing that synth's audio.

use vstd::prelude::*;

use crate::midi::event::{MidiEvent, MidiEventKind};
use crate::midi::filter::ChannelMask;
use crate::rt_channels::{pop_item, push_item, vec_capacity, RtConsumer, RtProducer};

verus! {

/// A change to the graph, sent from the control thread.
pub enum Command {
    SetGlobalTransposition { transposition: i8 },
    RemoveSource { source_id: u8 },
    PushSlot,
    RemoveSlot { slot_id: u8 },
    SetSource { slot_id: u8, source_id: Option<u8> },
    SetEnabled { slot_id: u8, flag: bool },
    SetChannelMask { slot_id: u8, mask: ChannelMask },
    SetTransposition { slot_id: u8, transposition: i8 },
    SetUseGlobalTransposition { slot_id: u8, flag: bool },
}

/// One slot of the graph.
#[derive(Debug, Clone, Copy, PartialEq, Eq, Structural)]
pub struct Slot {
    pub source_id: Option<u8>,
    pub enabled: bool,
    pub channel_mask: ChannelMask,
    pub transposition: i8,
    pub use_global_transposition: bool,
}

impl Slot {
    /// A fresh slot: no source, enabled, every channel, no transposition of its own,
    /// following the global transposition.
    pub open spec fn spec_default() -> Slot {
        Slot {
            source_id: None,
            enabled: true,
            channel_mask: ChannelMask::spec_all(),
            transposition: 0,
            use_global_transposition: true,
        }
    }
}

impl Default for Slot {
    fn default() -> (r: Slot)
        ensures
            r == Slot::spec_default(),
    {
        Slot {
            source_id: None,
            enabled: true,
            channel_mask: ChannelMask::all(),
            transposition: 0,
            use_global_transposition: true,
        }
    }
}

/// The source id that a slot holds after source `removed` was taken out of the list of
/// sources: the removed source is dropped and the sources after it move down by one.
pub open spec fn renumber_source(source_id: Option<u8>, removed: u8) -> Option<u8> {
    match source_id {
        Some(id) => if id == removed {
            None
        } else if id > removed {
            Some((id - 1) as u8)
        } else {
            Some(id)
        },
        None => None,
    }
}

/// `slot` with its source renumbered after the removal of source `removed`.
pub open spec fn slot_after_source_removal(slot: Slot, removed: u8) -> Slot {
    Slot { source_id: renumber_source(slot.source_id, removed), ..slot }
}

/// `slots[i]` replaced by `slot`, when `i` is a slot of `slots`.
pub open spec fn set_slot_if_present(slots: Seq<Slot>, i: u8, slot: Slot) -> (Seq<Slot>, bool) {
    if (i as int) < slots.len() {
        (slots.update(i as int, slot), true)
    } else {
        (slots, false)
    }
}

/// One command applied to the slots `slots` and the global transposition `gt`: the new
/// slots, the new global transposition and the acknowledgement. `has_room` says whether
/// the slot list can grow without reallocating; only `PushSlot` reads it.
pub open spec fn spec_step(slots: Seq<Slot>, gt: i8, cmd: Command, has_room: bool) -> (Seq<Slot>, i8, bool) {
    match cmd {
        Command::SetGlobalTransposition { transposition } => (slots, transposition, true),
        Command::RemoveSource { source_id } => (
            slots.map_values(|s: Slot| slot_after_source_removal(s, source_id)),
            gt,
            true,
        ),
        Command::PushSlot => if has_room {
            (slots.push(Slot::spec_default()), gt, true)
        } else {
            (slots, gt, false)
        },
        Command::RemoveSlot { slot_id } => if (slot_id as int) < slots.len() {
            (slots.remove(slot_id as int), gt, true)
        } else {
            (slots, gt, false)
        },
        Command::SetSource { slot_id, source_id } => {
            let r = set_slot_if_present(slots, slot_id, Slot { source_id, ..slots[slot_id as int] });
            (r.0, gt, r.1)
        },
        Command::SetEnabled { slot_id, flag } => {
            let r = set_slot_if_present(slots, slot_id, Slot { enabled: flag, ..slots[slot_id as int] });
            (r.0, gt, r.1)
        },
        Command::SetChannelMask { slot_id, mask } => {
            let r = set_slot_if_present(
                slots,
                slot_id,
                Slot { channel_mask: mask, ..slots[slot_id as int] },
            );
            (r.0, gt, r.1)
        },
        Command::SetTransposition { slot_id, transposition } => {
            let r = set_slot_if_present(
                slots,
                slot_id,
                Slot { transposition, ..slots[slot_id as int] },
            );
            (r.0, gt, r.1)
        },
        Command::SetUseGlobalTransposition { slot_id, flag } => {
            let r = set_slot_if_present(
                slots,
                slot_id,
                Slot { use_global_transposition: flag, ..slots[slot_id as int] },
            );
            (r.0, gt, r.1)
        },
    }
}

/// A sequence of commands, each with the room flag it met, applied in order.
pub open spec fn spec_apply_all(slots: Seq<Slot>, gt: i8, steps: Seq<(Command, bool)>) -> (Seq<Slot>, i8)
    decreases steps.len(),
{
    if steps.len() == 0 {
        (slots, gt)
    } else {
        let before = spec_apply_all(slots, gt, steps.drop_last());
        let last = steps.last();
        let after = spec_step(before.0, before.1, last.0, last.1);
        (after.0, after.1)
    }
}

/// The event that a slot passes on to its source, if any: the event must be on one of
/// the slot's channels, a disabled slot passes no note-on, and the key must stay in range
/// after the slot's transposition and, when the slot follows it, the global one.
pub open spec fn slot_route(slot: Slot, event: MidiEvent, gt: i8) -> Option<MidiEvent> {
    if !slot.channel_mask.spec_contains(event.channel) {
        None
    } else if !slot.enabled && event.kind is NoteOn {
        None
    } else {
        match event.spec_transpose(slot.transposition) {
            Some(e) => if slot.use_global_transposition {
                e.spec_transpose(gt)
            } else {
                Some(e)
            },
            None => None,
        }
    }
}

/// Routing from slot `i` on: the first slot at or after `i` that passes the event on,
/// with its source and the event it gets, and the index at which the scan stops. The scan
/// stops without a result at the end of the slots or at the first slot without a source.
pub open spec fn midi_scan(slots: Seq<Slot>, event: MidiEvent, gt: i8, i: int) -> (Option<(u8, MidiEvent)>, int)
    decreases slots.len() - i,
{
    if i >= slots.len() || i < 0 {
        (None, i)
    } else {
        match slots[i].source_id {
            None => (None, i),
            Some(source) => match slot_route(slots[i], event, gt) {
                Some(e) => (Some((source, e)), i),
                None => midi_scan(slots, event, gt, i + 1),
            },
        }
    }
}

/// The scan from slot `i` stays below index 255 (slot ids are `u8`) and only reads
/// channel masks with an event channel below 16.
pub open spec fn midi_scan_ok(slots: Seq<Slot>, event: MidiEvent, gt: i8, i: int) -> bool
    decreases slots.len() - i,
{
    &&& 0 <= i < 255
    &&& (i >= slots.len() || slots[i].source_id is None || (event.channel < 16 && (slot_route(
        slots[i],
        event,
        gt,
    ) is Some || midi_scan_ok(slots, event, gt, i + 1))))
}

/// Audio from slot `i` on: the source of the first enabled slot at or after `i`, and the
/// index at which the scan stops; it stops without a result at the end of the slots or
/// at the first slot without a source.
pub open spec fn audio_scan(slots: Seq<Slot>, i: int) -> (Option<u8>, int)
    decreases slots.len() - i,
{
    if i >= slots.len() || i < 0 {
        (None, i)
    } else {
        match slots[i].source_id {
            None => (None, i),
            Some(source) => if slots[i].enabled {
                (Some(source), i)
            } else {
                audio_scan(slots, i + 1)
            },
        }
    }
}

/// The audio scan from slot `i` stays below index 255.
pub open spec fn audio_scan_ok(slots: Seq<Slot>, i: int) -> bool
    decreases slots.len() - i,
{
    &&& 0 <= i < 255
    &&& (i >= slots.len() || slots[i].source_id is None || slots[i].enabled || audio_scan_ok(
        slots,
        i + 1,
    ))
}

/// Walks the slots that a MIDI event is routed to.
pub struct MidiIter<'a> {
    graph: &'a Graph,
    next_id: u8,
    event: MidiEvent,
}

impl<'a> MidiIter<'a> {
    /// The graph walked.
    pub closed spec fn graph(&self) -> &'a Graph {
        self.graph
    }

    /// The index of the next slot to look at.
    pub closed spec fn next_id(&self) -> u8 {
        self.next_id
    }

    /// The event routed.
    pub closed spec fn event(&self) -> MidiEvent {
        self.event
    }

    fn new(graph: &'a Graph, event: MidiEvent) -> (r: Self)
        ensures
            r.graph() == graph,
            r.next_id() == 0,
            r.event() == event,
    {
        MidiIter { graph, next_id: 0, event }
    }

    /// The next slot's source and the event that it gets, following `midi_scan`.
    /// The walk ends at the first slot without a source.
    pub fn next(&mut self) -> (r: Option<(u8, MidiEvent)>)
        requires
            midi_scan_ok(
                old(self).graph().slots@,
                old(self).event(),
                old(self).graph().global_transposition,
                old(self).next_id() as int,
            ),
        ensures
            final(self).graph() == old(self).graph(),
            final(self).event() == old(self).event(),
            r == midi_scan(
                old(self).graph().slots@,
                old(self).event(),
                old(self).graph().global_transposition,
                old(self).next_id() as int,
            ).0,
            final(self).next_id() == midi_scan(
                old(self).graph().slots@,
                old(self).event(),
                old(self).graph().global_transposition,
                old(self).next_id() as int,
            ).1 + 1,
    {
        let ghost slots = self.graph.slots@;
        let ghost gt = self.graph.global_transposition;
        let ghost start = self.next_id as int;
        loop
            invariant
                self.graph == old(self).graph,
                self.event == old(self).event,
                slots == self.graph.slots@,
                gt == self.graph.global_transposition,
                start == old(self).next_id as int,
                midi_scan_ok(slots, self.event, gt, self.next_id as int),
                midi_scan(slots, self.event, gt, self.next_id as int) == midi_scan(
                    slots,
                    self.event,
                    gt,
                    start,
                ),
            decreases 255 - self.next_id,
        {
            let next_id = self.next_id as usize;
            self.next_id = self.next_id + 1;

            if next_id >= self.graph.slots.len() {
                return None;
            }
            let slot = self.graph.slots[next_id];
            let source_id = match slot.source_id {
                Some(id) => id,
                None => {
                    return None;
                },
            };
            if !slot.channel_mask.contains(self.event.channel) {
                continue;
            }
            if !slot.enabled {
                if let MidiEventKind::NoteOn { key: _, velocity: _ } = self.event.kind {
                    continue;
                }
            }
            let event = match self.event.transpose(slot.transposition) {
                Some(e) => e,
                None => {
                    continue;
                },
            };
            let event = if slot.use_global_transposition {
                event.transpose(self.graph.global_transposition)
            } else {
                Some(event)
            };
            match event {
                Some(e) => {
                    return Some((source_id, e));
                },
                None => {
                    continue;
                },
            }
        }
    }
}

/// Walks the sources whose audio is mixed, in slot order.
pub struct AudioIter<'a> {
    graph: &'a Graph,
    next_id: u8,
}

impl<'a> AudioIter<'a> {
    /// The graph walked.
    pub closed spec fn graph(&self) -> &'a Graph {
        self.graph
    }

    /// The index of the next slot to look at.
    pub closed spec fn next_id(&self) -> u8 {
        self.next_id
    }

    fn new(graph: &'a Graph) -> (r: Self)
        ensures
            r.graph() == graph,
            r.next_id() == 0,
    {
        AudioIter { graph, next_id: 0 }
    }

    /// The next enabled slot's source, following `audio_scan`. The walk ends at the first
    /// slot without a source.
    pub fn next(&mut self) -> (r: Option<u8>)
        requires
            audio_scan_ok(old(self).graph().slots@, old(self).next_id() as int),
        ensures
            final(self).graph() == old(self).graph(),
            r == audio_scan(old(self).graph().slots@, old(self).next_id() as int).0,
            final(self).next_id() == audio_scan(
                old(self).graph().slots@,
                old(self).next_id() as int,
            ).1 + 1,
    {
        let ghost slots = self.graph.slots@;
        let ghost start = self.next_id as int;
        loop
            invariant
                self.graph == old(self).graph,
                slots == self.graph.slots@,
                start == old(self).next_id as int,
                audio_scan_ok(slots, self.next_id as int),
                audio_scan(slots, self.next_id as int) == audio_scan(slots, start),
            decreases 255 - self.next_id,
        {
            let next_id = self.next_id as usize;
            self.next_id = self.next_id + 1;

            if next_id >= self.graph.slots.len() {
                return None;
            }
            let slot = self.graph.slots[next_id];
            let source_id = match slot.source_id {
                Some(id) => id,
                None => {
                    return None;
                },
            };
            if !slot.enabled {
                continue;
            }
            return Some(source_id);
        }
    }
}

/// The synth graph as the audio thread holds it.
pub struct Graph {
    pub cmd_rx: RtConsumer<(u32, Command)>,
    pub ack_tx: RtProducer<(u32, bool)>,
    pub slots: Vec<Slot>,
    pub global_transposition: i8,
}

impl Graph {
    /// Processes queued commands until the queue is empty, each with `process_command`,
    /// and acknowledges each with its id and result. One call handles at most `usize::MAX`
    /// commands.
    ///
    /// The slots and the global transposition change only by commands applied in order:
    /// the result is `spec_apply_all` of some sequence of commands with their room flags.
    pub fn drain_commands(&mut self)
        ensures
            exists|steps: Seq<(Command, bool)>|
                spec_apply_all(old(self).slots@, old(self).global_transposition, steps) == (
                    final(self).slots@,
                    final(self).global_transposition,
                ),
    {
        let ghost start_slots = self.slots@;
        let ghost start_gt = self.global_transposition;
        let ghost mut steps: Seq<(Command, bool)> = Seq::empty();
        let mut budget: usize = usize::MAX;
        while budget > 0
            invariant
                start_slots == old(self).slots@,
                start_gt == old(self).global_transposition,
                spec_apply_all(start_slots, start_gt, steps) == (
                    self.slots@,
                    self.global_transposition,
                ),
            decreases budget,
        {
            match pop_item(&mut self.cmd_rx) {
                Some((id, cmd)) => {
                    let ghost c = cmd;
                    let ghost before = steps;
                    let res = self.process_command(cmd);
                    proof {
                        steps = steps.push((c, res));
                        assert(steps.drop_last() =~= before);
                    }
                    let _ = push_item(&mut self.ack_tx, (id, res));
                    budget = budget - 1;
                },
                None => {
                    budget = 0;
                },
            }
        }
        assert(spec_apply_all(start_slots, start_gt, steps) == (
            self.slots@,
            self.global_transposition,
        ));
    }

    /// Walks the slots that `event` is routed to.
    pub fn iter_midi_event(&self, event: MidiEvent) -> (r: MidiIter<'_>)
        ensures
            r.graph() == self,
            r.next_id() == 0,
            r.event() == event,
    {
        MidiIter::new(self, event)
    }

    /// Walks the sources whose audio is mixed.
    pub fn iter_audio(&self) -> (r: AudioIter<'_>)
        ensures
            r.graph() == self,
            r.next_id() == 0,
    {
        AudioIter::new(self)
    }

    /// Applies one command; `has_room` tells whether the slot list can grow without
    /// reallocating. Returns the acknowledgement: `false` when a slot id is out of range
    /// or, for `PushSlot`, when there is no room.
    pub fn apply_command(&mut self, cmd: Command, has_room: bool) -> (r: bool)
        ensures
            (final(self).slots@, final(self).global_transposition, r) == spec_step(
                old(self).slots@,
                old(self).global_transposition,
                cmd,
                has_room,
            ),
            final(self).cmd_rx == old(self).cmd_rx,
            final(self).ack_tx == old(self).ack_tx,
    {
        match cmd {
            Command::SetGlobalTransposition { transposition } => {
                self.global_transposition = transposition;
                true
            },
            Command::RemoveSource { source_id } => {
                let n = self.slots.len();
                let mut i: usize = 0;
                while i < n
                    invariant
                        i <= n,
                        n == self.slots.len(),
                        n == old(self).slots.len(),
                        self.global_transposition == old(self).global_transposition,
                        self.cmd_rx == old(self).cmd_rx,
                        self.ack_tx == old(self).ack_tx,
                        forall|j: int|
                            0 <= j < i ==> self.slots@[j] == slot_after_source_removal(
                                old(self).slots@[j],
                                source_id,
                            ),
                        forall|j: int| i <= j < n ==> self.slots@[j] == old(self).slots@[j],
                    decreases n - i,
                {
                    if let Some(slot_source_id) = self.slots[i].source_id {
                        if slot_source_id == source_id {
                            self.slots[i].source_id = None;
                        } else if slot_source_id > source_id {
                            self.slots[i].source_id = Some(slot_source_id - 1);
                        }
                    }
                    i = i + 1;
                }
                assert(self.slots@ =~= old(self).slots@.map_values(
                    |s: Slot| slot_after_source_removal(s, source_id),
                ));
                true
            },
            Command::PushSlot => {
                if !has_room {
                    return false;
                }
                self.slots.push(Slot::default());
                true
            },
            Command::RemoveSlot { slot_id } => {
                if slot_id as usize >= self.slots.len() {
                    return false;
                }
                self.slots.remove(slot_id as usize);
                true
            },
            Command::SetSource { slot_id, source_id } => {
                if slot_id as usize >= self.slots.len() {
                    return false;
                }
                self.slots[slot_id as usize].source_id = source_id;
                true
            },
            Command::SetEnabled { slot_id, flag } => {
                if slot_id as usize >= self.slots.len() {
                    return false;
                }
                self.slots[slot_id as usize].enabled = flag;
                true
            },
            Command::SetChannelMask { slot_id, mask } => {
                if slot_id as usize >= self.slots.len() {
                    return false;
                }
                self.slots[slot_id as usize].channel_mask = mask;
                true
            },
            Command::SetTransposition { slot_id, transposition } => {
                if slot_id as usize >= self.slots.len() {
                    return false;
                }
                self.slots[slot_id as usize].transposition = transposition;
                true
            },
            Command::SetUseGlobalTransposition { slot_id, flag } => {
                if slot_id as usize >= self.slots.len() {
                    return false;
                }
                self.slots[slot_id as usize].use_global_transposition = flag;
                true
            },
        }
    }

    /// Applies one command, asking the slot list for room only for `PushSlot`.
    /// The result follows `spec_step` with the acknowledgement as the room flag, which
    /// `spec_step` reads for `PushSlot` only: a `PushSlot` is refused exactly when the slot
    /// list is at its capacity, which this contract does not name.
    pub fn process_command(&mut self, cmd: Command) -> (r: bool)
        ensures
            (final(self).slots@, final(self).global_transposition, r) == spec_step(
                old(self).slots@,
                old(self).global_transposition,
                cmd,
                r,
            ),
            final(self).cmd_rx == old(self).cmd_rx,
            final(self).ack_tx == old(self).ack_tx,
    {
        let has_room = match cmd {
            Command::PushSlot => self.slots.len() < vec_capacity(&self.slots),
            _ => true,
        };
        self.apply_command(cmd, has_room)
    }
}

/// A refused command changes nothing: when the acknowledgement is `false`, the slots and
/// the global transposition stay as they were.
pub proof fn lemma_refused_command_changes_nothing(slots: Seq<Slot>, gt: i8, cmd: Command, has_room: bool)
    ensures
        !spec_step(slots, gt, cmd, has_room).2 ==> spec_step(slots, gt, cmd, has_room).0 == slots
            && spec_step(slots, gt, cmd, has_room).1 == gt,
{
}

/// Removing a source leaves as many slots: the slots on the removed source lose their
/// source, the slots on later sources move down by one, the others keep theirs.
pub proof fn lemma_remove_source_renumbers(slots: Seq<Slot>, gt: i8, source_id: u8, has_room: bool)
    ensures
        ({
            let (after, gt2, ack) = spec_step(slots, gt, Command::RemoveSource { source_id }, has_room);
            &&& ack
            &&& gt2 == gt
            &&& after.len() == slots.len()
            &&& forall|i: int|
                0 <= i < slots.len() ==> match #[trigger] slots[i].source_id {
                    Some(s) => (s == source_id ==> after[i].source_id is None) && (s > source_id
                        ==> after[i].source_id == Some((s - 1) as u8)) && (s < source_id
                        ==> after[i].source_id == Some(s)),
                    None => after[i].source_id is None,
                }
        }),
{
    let after = slots.map_values(|s: Slot| slot_after_source_removal(s, source_id));
    assert forall|i: int| 0 <= i < slots.len() implies match #[trigger] slots[i].source_id {
        Some(s) => (s == source_id ==> after[i].source_id is None) && (s > source_id
            ==> after[i].source_id == Some((s - 1) as u8)) && (s < source_id ==> after[i].source_id
            == Some(s)),
        None => after[i].source_id is None,
    } by {
        assert(after[i] == slot_after_source_removal(slots[i], source_id));
    }
}

/// Pushing a slot (with room) and then removing the last slot restores the slots.
pub proof fn lemma_push_then_remove_restores(slots: Seq<Slot>, gt: i8, has_room: bool)
    requires
        slots.len() < 256,
    ensures
        ({
            let (pushed, gt1, ack1) = spec_step(slots, gt, Command::PushSlot, true);
            let (removed, gt2, ack2) = spec_step(
                pushed,
                gt1,
                Command::RemoveSlot { slot_id: slots.len() as u8 },
                has_room,
            );
            ack1 && ack2 && removed == slots && gt2 == gt
        }),
{
    let pushed = slots.push(Slot::spec_default());
    assert(pushed.remove(slots.len() as int) =~= slots);
}

/// Setting a field of an existing slot is acknowledged and reads back; the other slots
/// stay as they were.
pub proof fn lemma_set_enabled_reads_back(slots: Seq<Slot>, gt: i8, slot_id: u8, flag: bool, has_room: bool)
    requires
        (slot_id as int) < slots.len(),
    ensures
        ({
            let (after, gt2, ack) = spec_step(slots, gt, Command::SetEnabled { slot_id, flag }, has_room);
            &&& ack
            &&& gt2 == gt
            &&& after.len() == slots.len()
            &&& after[slot_id as int].enabled == flag
            &&& forall|i: int| 0 <= i < slots.len() && i != slot_id ==> after[i] == slots[i]
        }),
{
}

/// A routed event goes to the source of a slot at or after `i` that is on the event's
/// channel, and keeps the event's channel and time stamp; a disabled slot passes no note-on.
pub proof fn lemma_routed_event_comes_from_a_slot(slots: Seq<Slot>, event: MidiEvent, gt: i8, i: int)
    ensures
        midi_scan(slots, event, gt, i).0 matches Some((source, routed)) ==> exists|j: int|
            #![trigger slots[j]]
            i <= j < slots.len() && slots[j].source_id == Some(source)
                && slots[j].channel_mask.spec_contains(event.channel) && (!slots[j].enabled
                ==> !(event.kind is NoteOn)) && routed.channel == event.channel && routed.timestamp
                == event.timestamp,
    decreases slots.len() - i,
{
    if 0 <= i < slots.len() && slots[i].source_id is Some {
        if slot_route(slots[i], event, gt) is None {
            lemma_routed_event_comes_from_a_slot(slots, event, gt, i + 1);
        }
    }
}

/// A mixed source belongs to an enabled slot at or after `i`.
pub proof fn lemma_mixed_source_is_enabled(slots: Seq<Slot>, i: int)
    ensures
        audio_scan(slots, i).0 matches Some(source) ==> exists|j: int|
            #![trigger slots[j]]
            i <= j < slots.len() && slots[j].source_id == Some(source) && slots[j].enabled,
    decreases slots.len() - i,
{
    if 0 <= i < slots.len() && slots[i].source_id is Some && !slots[i].enabled {
        lemma_mixed_source_is_enabled(slots, i + 1);
    }
}

/// Routing from any slot id below 255 neither runs past slot id 254 nor reads a mask with
/// a bad channel when the graph has fewer than 255 slots and the event's channel is below 16.
pub proof fn lemma_midi_scan_ok_for_small_graphs(slots: Seq<Slot>, event: MidiEvent, gt: i8, i: int)
    requires
        0 <= i < 255,
        slots.len() < 255,
        event.channel < 16,
    ensures
        midi_scan_ok(slots, event, gt, i),
    decreases slots.len() - i,
{
    if i < slots.len() {
        lemma_midi_scan_ok_for_small_graphs(slots, event, gt, i + 1);
    }
}

/// The audio walk from any slot id below 255 never runs past slot id 254 when the graph
/// has fewer than 255 slots.
pub proof fn lemma_audio_scan_ok_for_small_graphs(slots: Seq<Slot>, i: int)
    requires
        0 <= i < 255,
        slots.len() < 255,
    ensures
        audio_scan_ok(slots, i),
    decreases slots.len() - i,
{
    if i < slots.len() {
        lemma_audio_scan_ok_for_small_graphs(slots, i + 1);
    }
}

/// The routing walk from slot `i` stops at `i` or later, and no later than the end of the
/// slots; with a result it stops on a slot.
pub proof fn lemma_midi_scan_stops_in_range(slots: Seq<Slot>, event: MidiEvent, gt: i8, i: int)
    requires
        0 <= i,
    ensures
        i <= midi_scan(slots, event, gt, i).1,
        i <= slots.len() ==> midi_scan(slots, event, gt, i).1 <= slots.len(),
        midi_scan(slots, event, gt, i).0 is Some ==> midi_scan(slots, event, gt, i).1 < slots.len(),
    decreases slots.len() - i,
{
    if i < slots.len() {
        lemma_midi_scan_stops_in_range(slots, event, gt, i + 1);
    }
}

/// The audio walk from slot `i` stops at `i` or later, and no later than the end of the
/// slots; with a result it stops on a slot.
pub proof fn lemma_audio_scan_stops_in_range(slots: Seq<Slot>, i: int)
    requires
        0 <= i,
    ensures
        i <= audio_scan(slots, i).1,
        i <= slots.len() ==> audio_scan(slots, i).1 <= slots.len(),
        audio_scan(slots, i).0 is Some ==> audio_scan(slots, i).1 < slots.len(),
    decreases slots.len() - i,
{
    if i < slots.len() {
        lemma_audio_scan_stops_in_range(slots, i + 1);
    }
}

/// The whole routing walk from slot `i`: what repeated calls of `MidiIter::next` yield
/// from `next_id == i` until the first `None`.
pub open spec fn midi_walk(slots: Seq<Slot>, event: MidiEvent, gt: i8, i: int) -> Seq<(u8, MidiEvent)>
    decreases slots.len() - i,
    via midi_walk_decreases
{
    if i < 0 || i >= slots.len() {
        Seq::empty()
    } else {
        match midi_scan(slots, event, gt, i).0 {
            Some(x) => seq![x] + midi_walk(slots, event, gt, midi_scan(slots, event, gt, i).1 + 1),
            None => Seq::empty(),
        }
    }
}

#[via_fn]
proof fn midi_walk_decreases(slots: Seq<Slot>, event: MidiEvent, gt: i8, i: int) {
    if 0 <= i < slots.len() {
        lemma_midi_scan_stops_in_range(slots, event, gt, i);
    }
}

/// The whole audio walk from slot `i`: what repeated calls of `AudioIter::next` yield from
/// `next_id == i` until the first `None`.
pub open spec fn audio_walk(slots: Seq<Slot>, i: int) -> Seq<u8>
    decreases slots.len() - i,
    via audio_walk_decreases
{
    if i < 0 || i >= slots.len() {
        Seq::empty()
    } else {
        match audio_scan(slots, i).0 {
            Some(x) => seq![x] + audio_walk(slots, audio_scan(slots, i).1 + 1),
            None => Seq::empty(),
        }
    }
}

#[via_fn]
proof fn audio_walk_decreases(slots: Seq<Slot>, i: int) {
    if 0 <= i < slots.len() {
        lemma_audio_scan_stops_in_range(slots, i);
    }
}

/// Up to a slot without a source, routing reads nothing beyond it: the scan over the
/// slots equals the scan over the slots before it.
proof fn lemma_midi_scan_prefix(slots: Seq<Slot>, event: MidiEvent, gt: i8, k: int, i: int)
    requires
        0 <= i <= k < slots.len(),
        slots[k].source_id is None,
    ensures
        midi_scan(slots, event, gt, i) == midi_scan(slots.take(k), event, gt, i),
    decreases k - i,
{
    if i < k {
        lemma_midi_scan_prefix(slots, event, gt, k, i + 1);
        assert(slots.take(k)[i] == slots[i]);
    }
}

/// A slot without a source ends the routing walk: the walk over the slots equals the walk
/// over the slots before that slot.
pub proof fn lemma_midi_walk_ends_at_sourceless_slot(slots: Seq<Slot>, event: MidiEvent, gt: i8, k: int, i: int)
    requires
        0 <= i <= k < slots.len(),
        slots[k].source_id is None,
    ensures
        midi_walk(slots, event, gt, i) == midi_walk(slots.take(k), event, gt, i),
    decreases k - i,
{
    lemma_midi_scan_prefix(slots, event, gt, k, i);
    lemma_midi_scan_stops_in_range(slots, event, gt, i);
    lemma_midi_scan_stops_in_range(slots.take(k), event, gt, i);
    if i < k {
        let stop = midi_scan(slots, event, gt, i).1;
        if midi_scan(slots, event, gt, i).0 is Some {
            lemma_midi_walk_ends_at_sourceless_slot(slots, event, gt, k, stop + 1);
        }
    }
}

/// Up to a slot without a source, the audio walk reads nothing beyond it.
proof fn lemma_audio_scan_prefix(slots: Seq<Slot>, k: int, i: int)
    requires
        0 <= i <= k < slots.len(),
        slots[k].source_id is None,
    ensures
        audio_scan(slots, i) == audio_scan(slots.take(k), i),
    decreases k - i,
{
    if i < k {
        lemma_audio_scan_prefix(slots, k, i + 1);
        assert(slots.take(k)[i] == slots[i]);
    }
}

/// A slot without a source ends the audio walk: the walk over the slots equals the walk
/// over the slots before that slot.
pub proof fn lemma_audio_walk_ends_at_sourceless_slot(slots: Seq<Slot>, k: int, i: int)
    requires
        0 <= i <= k < slots.len(),
        slots[k].source_id is None,
    ensures
        audio_walk(slots, i) == audio_walk(slots.take(k), i),
    decreases k - i,
{
    lemma_audio_scan_prefix(slots, k, i);
    lemma_audio_scan_stops_in_range(slots, i);
    lemma_audio_scan_stops_in_range(slots.take(k), i);
    if i < k {
        let stop = audio_scan(slots, i).1;
        if audio_scan(slots, i).0 is Some {
            lemma_audio_walk_ends_at_sourceless_slot(slots, k, stop + 1);
        }
    }
}

/// `MidiIter::next` walks the routing walk: from `next_id == i` it yields the walk's first
/// item (or `None` when the walk is empty) and moves to where the rest of the walk starts.
pub proof fn lemma_midi_next_follows_walk(slots: Seq<Slot>, event: MidiEvent, gt: i8, i: int)
    requires
        0 <= i,
    ensures
        midi_walk(slots, event, gt, i) == match midi_scan(slots, event, gt, i).0 {
            Some(x) => seq![x] + midi_walk(slots, event, gt, midi_scan(slots, event, gt, i).1 + 1),
            None => Seq::empty(),
        },
{
}

/// `AudioIter::next` walks the audio walk: from `next_id == i` it yields the walk's first
/// source (or `None` when the walk is empty) and moves to where the rest of the walk starts.
pub proof fn lemma_audio_next_follows_walk(slots: Seq<Slot>, i: int)
    requires
        0 <= i,
    ensures
        audio_walk(slots, i) == match audio_scan(slots, i).0 {
            Some(x) => seq![x] + audio_walk(slots, audio_scan(slots, i).1 + 1),
            None => Seq::empty(),
        },
{
}

/// How a slot passes an event on: nothing off its channels, no note-on when it is
/// disabled; otherwise its own transposition is always applied and the global one only
/// when the slot follows it. A note with key `k` arrives with key `k + transposition`
/// (plus the global transposition when followed), and is dropped exactly when a key on the
/// way leaves 0..=127; other events arrive unchanged.
pub proof fn lemma_slot_route_transposes(slot: Slot, event: MidiEvent, gt: i8)
    ensures
        !slot.channel_mask.spec_contains(event.channel) ==> slot_route(slot, event, gt) is None,
        !slot.enabled && event.kind is NoteOn ==> slot_route(slot, event, gt) is None,
        slot.channel_mask.spec_contains(event.channel) && (slot.enabled || !(event.kind is NoteOn))
            ==> {
            let own = slot.transposition as int;
            let global = if slot.use_global_transposition {
                gt as int
            } else {
                0
            };
            match event.kind {
                MidiEventKind::NoteOn { key, velocity } => {
                    let k1 = key as int + own;
                    let k2 = k1 + global;
                    if 0 <= k1 <= 127 && 0 <= k2 <= 127 {
                        slot_route(slot, event, gt) == Some(
                            MidiEvent {
                                timestamp: event.timestamp,
                                channel: event.channel,
                                kind: MidiEventKind::NoteOn { key: k2 as u8, velocity },
                            },
                        )
                    } else {
                        slot_route(slot, event, gt) is None
                    }
                },
                MidiEventKind::NoteOff { key, velocity } => {
                    let k1 = key as int + own;
                    let k2 = k1 + global;
                    if 0 <= k1 <= 127 && 0 <= k2 <= 127 {
                        slot_route(slot, event, gt) == Some(
                            MidiEvent {
                                timestamp: event.timestamp,
                                channel: event.channel,
                                kind: MidiEventKind::NoteOff { key: k2 as u8, velocity },
                            },
                        )
                    } else {
                        slot_route(slot, event, gt) is None
                    }
                },
                _ => slot_route(slot, event, gt) == Some(event),
            }
        },
{
}

/// Removing slot `slot_id` that exists takes out exactly that slot: it is acknowledged,
/// the global transposition stays, the slots before it keep their places and the ones
/// after it move down by one. Removing a slot that does not exist is refused and changes
/// nothing.
pub proof fn lemma_remove_slot_takes_out_that_slot(slots: Seq<Slot>, gt: i8, slot_id: u8, has_room: bool)
    ensures
        ({
            let (after, gt2, ack) = spec_step(slots, gt, Command::RemoveSlot { slot_id }, has_room);
            &&& gt2 == gt
            &&& (slot_id as int) >= slots.len() ==> !ack && after == slots
            &&& (slot_id as int) < slots.len() ==> {
                &&& ack
                &&& after.len() == slots.len() - 1
                &&& forall|i: int| 0 <= i < slot_id ==> after[i] == slots[i]
                &&& forall|i: int| slot_id <= i < slots.len() - 1 ==> after[i] == slots[i + 1]
            }
        }),
{
}

/// An edit of one slot touches only that slot and only the field it names: on an
/// existing slot it is acknowledged, the slot gets the new value in that field and keeps
/// its other fields, and the other slots and the global transposition stay; on a missing
/// slot it is refused and changes nothing. Setting the global transposition sets it and
/// leaves the slots alone.
pub proof fn lemma_slot_edit_sets_one_field(slots: Seq<Slot>, gt: i8, cmd: Command, has_room: bool)
    ensures
        ({
            let (after, gt2, ack) = spec_step(slots, gt, cmd, has_room);
            match cmd {
                Command::SetSource { slot_id, source_id } => if (slot_id as int) < slots.len() {
                    ack && gt2 == gt && after.len() == slots.len() && after[slot_id as int] == Slot {
                        source_id: source_id,
                        ..slots[slot_id as int]
                    } && forall|i: int| 0 <= i < slots.len() && i != slot_id ==> after[i] == slots[i]
                } else {
                    !ack && gt2 == gt && after == slots
                },
                Command::SetEnabled { slot_id, flag } => if (slot_id as int) < slots.len() {
                    ack && gt2 == gt && after.len() == slots.len() && after[slot_id as int] == Slot {
                        enabled: flag,
                        ..slots[slot_id as int]
                    } && forall|i: int| 0 <= i < slots.len() && i != slot_id ==> after[i] == slots[i]
                } else {
                    !ack && gt2 == gt && after == slots
                },
                Command::SetChannelMask { slot_id, mask } => if (slot_id as int) < slots.len() {
                    ack && gt2 == gt && after.len() == slots.len() && after[slot_id as int] == Slot {
                        channel_mask: mask,
                        ..slots[slot_id as int]
                    } && forall|i: int| 0 <= i < slots.len() && i != slot_id ==> after[i] == slots[i]
                } else {
                    !ack && gt2 == gt && after == slots
                },
                Command::SetTransposition { slot_id, transposition } => if (slot_id as int) < slots.len() {
                    ack && gt2 == gt && after.len() == slots.len() && after[slot_id as int] == Slot {
                        transposition: transposition,
                        ..slots[slot_id as int]
                    } && forall|i: int| 0 <= i < slots.len() && i != slot_id ==> after[i] == slots[i]
                } else {
                    !ack && gt2 == gt && after == slots
                },
                Command::SetUseGlobalTransposition { slot_id, flag } => if (slot_id as int) < slots.len() {
                    ack && gt2 == gt && after.len() == slots.len() && after[slot_id as int] == Slot {
                        use_global_transposition: flag,
                        ..slots[slot_id as int]
                    } && forall|i: int| 0 <= i < slots.len() && i != slot_id ==> after[i] == slots[i]
                } else {
                    !ack && gt2 == gt && after == slots
                },
                Command::SetGlobalTransposition { transposition } => ack && gt2 == transposition
                    && after == slots,
                _ => true,
            }
        }),
{
}

/// Pushing a slot with room appends a fresh slot (no source, enabled, on every channel,
/// no transposition of its own, following the global transposition) after the others;
/// without room it is refused and changes nothing.
pub proof fn lemma_push_slot_appends_fresh_slot(slots: Seq<Slot>, gt: i8, has_room: bool)
    ensures
        ({
            let (after, gt2, ack) = spec_step(slots, gt, Command::PushSlot, has_room);
            &&& ack == has_room
            &&& gt2 == gt
            &&& !has_room ==> after == slots
            &&& has_room ==> {
                &&& after.len() == slots.len() + 1
                &&& forall|i: int| 0 <= i < slots.len() ==> after[i] == slots[i]
                &&& after[slots.len() as int].source_id is None
                &&& after[slots.len() as int].enabled
                &&& after[slots.len() as int].transposition == 0
                &&& after[slots.len() as int].use_global_transposition
                &&& forall|ch: u8| ch < 16 ==> #[trigger] after[slots.len() as int].channel_mask.spec_contains(ch)
            }
        }),
{
    assert forall|ch: u8| ch < 16 implies #[trigger] ChannelMask::spec_all().spec_contains(ch) by {
        crate::midi::filter::lemma_all_masks_contain_everything(0, ch);
    }
}

/// Routing from slot `i` stops at the first slot that has no source or passes the event
/// on: every slot it passes over has a source and passes nothing; with a result, the
/// stop slot's source gets the event that slot passes on; without one, the walk ended at
/// the end of the slots or at a slot without a source.
pub proof fn lemma_midi_scan_stops_at_first_match(slots: Seq<Slot>, event: MidiEvent, gt: i8, i: int)
    requires
        0 <= i,
    ensures
        ({
            let (r, stop) = midi_scan(slots, event, gt, i);
            &&& forall|k: int|
                i <= k < stop ==> (#[trigger] slots[k]).source_id is Some && slot_route(slots[k], event, gt) is None
            &&& r matches Some((source, routed)) ==> stop < slots.len() && slots[stop].source_id == Some(
                source,
            ) && slot_route(slots[stop], event, gt) == Some(routed)
            &&& r is None ==> stop >= slots.len() || slots[stop].source_id is None
        }),
    decreases slots.len() - i,
{
    if i < slots.len() && slots[i].source_id is Some && slot_route(slots[i], event, gt) is None {
        lemma_midi_scan_stops_at_first_match(slots, event, gt, i + 1);
    }
}

/// The audio walk from slot `i` stops at the first slot that has no source or is enabled:
/// every slot it passes over has a source and is disabled; with a result, it is the stop
/// slot's source, and that slot is enabled; without one, the walk ended at the end of the
/// slots or at a slot without a source.
pub proof fn lemma_audio_scan_stops_at_first_enabled(slots: Seq<Slot>, i: int)
    requires
        0 <= i,
    ensures
        ({
            let (r, stop) = audio_scan(slots, i);
            &&& forall|k: int| i <= k < stop ==> (#[trigger] slots[k]).source_id is Some && !slots[k].enabled
            &&& r matches Some(source) ==> stop < slots.len() && slots[stop].source_id == Some(source)
                && slots[stop].enabled
            &&& r is None ==> stop >= slots.len() || slots[stop].source_id is None
        }),
    decreases slots.len() - i,
{
    if i < slots.len() && slots[i].source_id is Some && !slots[i].enabled {
        lemma_audio_scan_stops_at_first_enabled(slots, i + 1);
    }
}

} // verus!
