//! The control thread's description of the synth graph: the document that is edited,
//! saved and mirrored to the audio thread.

use vstd::prelude::*;

use crate::midi::filter::ChannelMask;
use crate::rt_channels::vec_capacity;

verus! {

/// An edit of the graph document.
pub enum Command {
    Append,
    Remove { slot_id: u8 },
    SetSource { slot_id: u8, source_id: Option<u8> },
    SetEnabled { slot_id: u8, flag: bool },
    SetChannelMask { slot_id: u8, mask: ChannelMask },
    SetTransposition { slot_id: u8, transposition: i8 },
    SetUseGlobalTransposition { slot_id: u8, flag: bool },
    SetName { slot_id: u8, name: String },
}

/// One slot of the document.
#[derive(Debug, Clone)]
pub struct Slot {
    pub source_id: Option<u8>,
    pub enabled: bool,
    pub channel_mask: ChannelMask,
    pub transposition: i8,
    pub use_global_transposition: bool,
    pub name: String,
}

/// What a document slot holds, with its name as characters.
pub ghost struct SlotView {
    pub source_id: Option<u8>,
    pub enabled: bool,
    pub channel_mask: ChannelMask,
    pub transposition: i8,
    pub use_global_transposition: bool,
    pub name: Seq<char>,
}

impl View for Slot {
    type V = SlotView;

    open spec fn view(&self) -> SlotView {
        SlotView {
            source_id: self.source_id,
            enabled: self.enabled,
            channel_mask: self.channel_mask,
            transposition: self.transposition,
            use_global_transposition: self.use_global_transposition,
            name: self.name@,
        }
    }
}

/// A fresh slot: no source, enabled, every channel, no transposition of its own,
/// following the global transposition, and an empty name.
pub open spec fn default_slot_view() -> SlotView {
    SlotView {
        source_id: None,
        enabled: true,
        channel_mask: ChannelMask::spec_all(),
        transposition: 0,
        use_global_transposition: true,
        name: Seq::empty(),
    }
}

impl Default for Slot {
    fn default() -> (r: Slot)
        ensures
            r@ == default_slot_view(),
    {
        Slot {
            source_id: None,
            enabled: true,
            channel_mask: ChannelMask::all(),
            transposition: 0,
            use_global_transposition: true,
            name: String::new(),
        }
    }
}

/// `slots[i]` replaced by `slot` when `i` is a slot of `slots`; otherwise `slots`.
pub open spec fn update_if_present(slots: Seq<SlotView>, i: u8, slot: SlotView) -> Seq<SlotView> {
    if (i as int) < slots.len() {
        slots.update(i as int, slot)
    } else {
        slots
    }
}

/// One edit applied to the slots `slots`. `has_room` says whether the slot list can grow
/// without reallocating; only `Append` reads it. Edits of a slot id out of range change
/// nothing.
pub open spec fn spec_edit(slots: Seq<SlotView>, cmd: Command, has_room: bool) -> Seq<SlotView> {
    match cmd {
        Command::Append => if has_room {
            slots.push(default_slot_view())
        } else {
            slots
        },
        Command::Remove { slot_id } => if (slot_id as int) < slots.len() {
            slots.remove(slot_id as int)
        } else {
            slots
        },
        Command::SetSource { slot_id, source_id } => update_if_present(
            slots,
            slot_id,
            SlotView { source_id, ..slots[slot_id as int] },
        ),
        Command::SetEnabled { slot_id, flag } => update_if_present(
            slots,
            slot_id,
            SlotView { enabled: flag, ..slots[slot_id as int] },
        ),
        Command::SetChannelMask { slot_id, mask } => update_if_present(
            slots,
            slot_id,
            SlotView { channel_mask: mask, ..slots[slot_id as int] },
        ),
        Command::SetTransposition { slot_id, transposition } => update_if_present(
            slots,
            slot_id,
            SlotView { transposition, ..slots[slot_id as int] },
        ),
        Command::SetUseGlobalTransposition { slot_id, flag } => update_if_present(
            slots,
            slot_id,
            SlotView { use_global_transposition: flag, ..slots[slot_id as int] },
        ),
        Command::SetName { slot_id, name } => update_if_present(
            slots,
            slot_id,
            SlotView { name: name@, ..slots[slot_id as int] },
        ),
    }
}

/// The graph document: its slots, in order.
#[derive(Debug, Clone)]
pub struct Graph {
    pub slots: Vec<Slot>,
}

impl Graph {
    /// What the document holds.
    pub open spec fn slot_views(&self) -> Seq<SlotView> {
        self.slots@.map_values(|s: Slot| s@)
    }

    /// Applies one edit; `has_room` tells whether the slot list can grow without
    /// reallocating.
    pub fn apply_command(&mut self, cmd: Command, has_room: bool)
        ensures
            final(self).slot_views() == spec_edit(old(self).slot_views(), cmd, has_room),
    {
        match cmd {
            Command::Append => {
                if has_room {
                    self.slots.push(Slot::default());
                }
            },
            Command::Remove { slot_id } => {
                if (slot_id as usize) < self.slots.len() {
                    self.slots.remove(slot_id as usize);
                }
            },
            Command::SetSource { slot_id, source_id } => {
                if (slot_id as usize) < self.slots.len() {
                    self.slots[slot_id as usize].source_id = source_id;
                }
            },
            Command::SetEnabled { slot_id, flag } => {
                if (slot_id as usize) < self.slots.len() {
                    self.slots[slot_id as usize].enabled = flag;
                }
            },
            Command::SetChannelMask { slot_id, mask } => {
                if (slot_id as usize) < self.slots.len() {
                    self.slots[slot_id as usize].channel_mask = mask;
                }
            },
            Command::SetTransposition { slot_id, transposition } => {
                if (slot_id as usize) < self.slots.len() {
                    self.slots[slot_id as usize].transposition = transposition;
                }
            },
            Command::SetUseGlobalTransposition { slot_id, flag } => {
                if (slot_id as usize) < self.slots.len() {
                    self.slots[slot_id as usize].use_global_transposition = flag;
                }
            },
            Command::SetName { slot_id, name } => {
                if (slot_id as usize) < self.slots.len() {
                    self.slots[slot_id as usize].name = name;
                }
            },
        }
        assert(self.slot_views() =~= spec_edit(old(self).slot_views(), cmd, has_room));
    }

    /// Applies one edit. `Append` adds a default slot only when the slot list has room
    /// without reallocating; the contract states the result for whichever way the slot
    /// list's capacity decided.
    pub fn process_command(&mut self, cmd: Command)
        ensures
            final(self).slot_views() == spec_edit(old(self).slot_views(), cmd, true)
                || final(self).slot_views() == spec_edit(old(self).slot_views(), cmd, false),
            !(cmd is Append) ==> final(self).slot_views() == spec_edit(
                old(self).slot_views(),
                cmd,
                true,
            ),
    {
        let has_room = match cmd {
            Command::Append => self.slots.len() < vec_capacity(&self.slots),
            _ => true,
        };
        self.apply_command(cmd, has_room);
    }
}

/// Appending a slot (with room) and then removing the last slot restores the document.
pub proof fn lemma_append_then_remove_restores(slots: Seq<SlotView>, has_room: bool)
    requires
        slots.len() < 256,
    ensures
        spec_edit(
            spec_edit(slots, Command::Append, true),
            Command::Remove { slot_id: slots.len() as u8 },
            has_room,
        ) == slots,
{
    assert(slots.push(default_slot_view()).remove(slots.len() as int) =~= slots);
}

/// An edit of a slot id out of range changes nothing.
pub proof fn lemma_edit_out_of_range_changes_nothing(slots: Seq<SlotView>, cmd: Command, has_room: bool)
    requires
        !(cmd is Append),
        match cmd {
            Command::Remove { slot_id } => slot_id as int >= slots.len(),
            Command::SetSource { slot_id, .. } => slot_id as int >= slots.len(),
            Command::SetEnabled { slot_id, .. } => slot_id as int >= slots.len(),
            Command::SetChannelMask { slot_id, .. } => slot_id as int >= slots.len(),
            Command::SetTransposition { slot_id, .. } => slot_id as int >= slots.len(),
            Command::SetUseGlobalTransposition { slot_id, .. } => slot_id as int >= slots.len(),
            Command::SetName { slot_id, .. } => slot_id as int >= slots.len(),
            Command::Append => true,
        },
    ensures
        spec_edit(slots, cmd, has_room) == slots,
{
}

/// Removing slot `slot_id` that exists takes out exactly that slot: the slots before it
/// keep their places and the ones after it move down by one. Removing a slot that does
/// not exist changes nothing.
pub proof fn lemma_remove_takes_out_that_slot(slots: Seq<SlotView>, slot_id: u8, has_room: bool)
    ensures
        ({
            let after = spec_edit(slots, Command::Remove { slot_id }, has_room);
            &&& (slot_id as int) >= slots.len() ==> after == slots
            &&& (slot_id as int) < slots.len() ==> {
                &&& after.len() == slots.len() - 1
                &&& forall|i: int| 0 <= i < slot_id ==> after[i] == slots[i]
                &&& forall|i: int| slot_id <= i < slots.len() - 1 ==> after[i] == slots[i + 1]
            }
        }),
{
}

/// An edit of one slot touches only that slot and only the field it names: on an
/// existing slot the slot gets the new value in that field and keeps its other fields,
/// and the other slots stay; on a missing slot nothing changes.
pub proof fn lemma_slot_edit_sets_one_field(slots: Seq<SlotView>, cmd: Command, has_room: bool)
    ensures
        ({
            let after = spec_edit(slots, cmd, has_room);
            match cmd {
                Command::SetSource { slot_id, source_id } => if (slot_id as int) < slots.len() {
                    after.len() == slots.len() && after[slot_id as int] == SlotView {
                        source_id: source_id,
                        ..slots[slot_id as int]
                    } && forall|i: int| 0 <= i < slots.len() && i != slot_id ==> after[i] == slots[i]
                } else {
                    after == slots
                },
                Command::SetEnabled { slot_id, flag } => if (slot_id as int) < slots.len() {
                    after.len() == slots.len() && after[slot_id as int] == SlotView {
                        enabled: flag,
                        ..slots[slot_id as int]
                    } && forall|i: int| 0 <= i < slots.len() && i != slot_id ==> after[i] == slots[i]
                } else {
                    after == slots
                },
                Command::SetChannelMask { slot_id, mask } => if (slot_id as int) < slots.len() {
                    after.len() == slots.len() && after[slot_id as int] == SlotView {
                        channel_mask: mask,
                        ..slots[slot_id as int]
                    } && forall|i: int| 0 <= i < slots.len() && i != slot_id ==> after[i] == slots[i]
                } else {
                    after == slots
                },
                Command::SetTransposition { slot_id, transposition } => if (slot_id as int) < slots.len() {
                    after.len() == slots.len() && after[slot_id as int] == SlotView {
                        transposition: transposition,
                        ..slots[slot_id as int]
                    } && forall|i: int| 0 <= i < slots.len() && i != slot_id ==> after[i] == slots[i]
                } else {
                    after == slots
                },
                Command::SetUseGlobalTransposition { slot_id, flag } => if (slot_id as int) < slots.len() {
                    after.len() == slots.len() && after[slot_id as int] == SlotView {
                        use_global_transposition: flag,
                        ..slots[slot_id as int]
                    } && forall|i: int| 0 <= i < slots.len() && i != slot_id ==> after[i] == slots[i]
                } else {
                    after == slots
                },
                Command::SetName { slot_id, name } => if (slot_id as int) < slots.len() {
                    after.len() == slots.len() && after[slot_id as int] == SlotView {
                        name: name@,
                        ..slots[slot_id as int]
                    } && forall|i: int| 0 <= i < slots.len() && i != slot_id ==> after[i] == slots[i]
                } else {
                    after == slots
                },
                _ => true,
            }
        }),
{
}

/// Appending with room adds a fresh slot (no source, enabled, on every channel, no
/// transposition of its own, following the global transposition, no name) after the
/// others; without room nothing changes.
pub proof fn lemma_append_adds_fresh_slot(slots: Seq<SlotView>, has_room: bool)
    ensures
        ({
            let after = spec_edit(slots, Command::Append, has_room);
            &&& !has_room ==> after == slots
            &&& has_room ==> {
                &&& after.len() == slots.len() + 1
                &&& forall|i: int| 0 <= i < slots.len() ==> after[i] == slots[i]
                &&& after[slots.len() as int].source_id is None
                &&& after[slots.len() as int].enabled
                &&& after[slots.len() as int].transposition == 0
                &&& after[slots.len() as int].use_global_transposition
                &&& after[slots.len() as int].name.len() == 0
                &&& forall|ch: u8| ch < 16 ==> #[trigger] after[slots.len() as int].channel_mask.spec_contains(ch)
            }
        }),
{
    assert forall|ch: u8| ch < 16 implies #[trigger] ChannelMask::spec_all().spec_contains(ch) by {
        crate::midi::filter::lemma_all_masks_contain_everything(0, ch);
    }
}

} // verus!
