use vstd::prelude::*;

use crate::midi::event::{MidiEvent, MidiEventKind};

verus! {

/// Whether bit `bit` of `mask` is set.
pub open spec fn bit_of_u128(mask: u128, bit: u8) -> bool {
    (mask >> bit) & 1 == 1
}

/// Whether bit `bit` of `mask` is set.
pub open spec fn bit_of_u16(mask: u16, bit: u8) -> bool {
    (mask >> bit) & 1 == 1
}

/// Every bit of a key mask.
pub const ALL_KEYS: u128 = 0xffff_ffff_ffff_ffff_ffff_ffff_ffff_ffffu128;

/// Every bit of a channel mask.
pub const ALL_CHANNELS: u16 = 0xffffu16;

/// A set of MIDI keys: bit `k` is set when key `k` is in the set.
#[derive(Debug, Clone, Copy, PartialEq, Eq, Structural)]
pub struct KeyMask {
    pub mask: u128,
}

impl KeyMask {
    /// The mask that holds every key.
    pub open spec fn spec_all() -> KeyMask {
        KeyMask { mask: ALL_KEYS }
    }

    /// The mask that holds every key.
    pub fn all() -> (r: KeyMask)
        ensures
            r == KeyMask::spec_all(),
    {
        KeyMask { mask: ALL_KEYS }
    }

    /// Whether `key` is in the mask.
    pub open spec fn spec_contains(&self, key: u8) -> bool {
        bit_of_u128(self.mask, key)
    }

    /// Whether `key` is in the mask. Keys above 127 are outside the mask's range.
    pub fn contains(&self, key: u8) -> (r: bool)
        requires
            key < 128,
        ensures
            r == self.spec_contains(key),
    {
        let mask = self.mask;
        proof {
            assert((mask & (1u128 << key) > 0) == ((mask >> key) & 1 == 1)) by (bit_vector)
                requires
                    key < 128,
            ;
        }
        mask & (1u128 << key) > 0
    }
}

impl Default for KeyMask {
    /// The mask that holds every key.
    fn default() -> (r: KeyMask)
        ensures
            r == KeyMask::spec_all(),
    {
        KeyMask::all()
    }
}

/// A set of MIDI channels: bit `c` is set when channel `c` is in the set.
#[derive(Debug, Clone, Copy, PartialEq, Eq, Structural)]
pub struct ChannelMask {
    pub mask: u16,
}

impl ChannelMask {
    /// The mask that holds every channel.
    pub open spec fn spec_all() -> ChannelMask {
        ChannelMask { mask: ALL_CHANNELS }
    }

    /// The mask that holds every channel.
    pub fn all() -> (r: ChannelMask)
        ensures
            r == ChannelMask::spec_all(),
    {
        ChannelMask { mask: ALL_CHANNELS }
    }

    /// Whether `channel` is in the mask.
    pub open spec fn spec_contains(&self, channel: u8) -> bool {
        bit_of_u16(self.mask, channel)
    }

    /// Whether `channel` is in the mask. Channels above 15 are outside the mask's range.
    pub fn contains(&self, key: u8) -> (r: bool)
        requires
            key < 16,
        ensures
            r == self.spec_contains(key),
    {
        let mask = self.mask;
        proof {
            assert((mask & (1u16 << key) > 0) == ((mask >> key) & 1 == 1)) by (bit_vector)
                requires
                    key < 16,
            ;
        }
        mask & (1u16 << key) > 0
    }
}

impl Default for ChannelMask {
    /// The mask that holds every channel.
    fn default() -> (r: ChannelMask)
        ensures
            r == ChannelMask::spec_all(),
    {
        ChannelMask::all()
    }
}

/// Every key is in the full key mask and every channel in the full channel mask.
pub proof fn lemma_all_masks_contain_everything(key: u8, channel: u8)
    requires
        key < 128,
        channel < 16,
    ensures
        KeyMask::spec_all().spec_contains(key),
        ChannelMask::spec_all().spec_contains(channel),
{
    let km: u128 = 0xffff_ffff_ffff_ffff_ffff_ffff_ffff_ffffu128;
    let cm: u16 = 0xffffu16;
    assert((km >> key) & 1 == 1) by (bit_vector)
        requires
            km == 0xffff_ffff_ffff_ffff_ffff_ffff_ffff_ffffu128,
            key < 128,
    ;
    assert((cm >> channel) & 1 == 1) by (bit_vector)
        requires
            cm == 0xffffu16,
            channel < 16,
    ;
}

/// The key of a note-on or note-off event.
pub open spec fn note_key(kind: MidiEventKind) -> Option<u8> {
    match kind {
        MidiEventKind::NoteOn { key, .. } => Some(key),
        MidiEventKind::NoteOff { key, .. } => Some(key),
        _ => None,
    }
}

/// Passes events on the selected channels whose note keys (if any) are selected.
pub struct MidiFilter {
    pub key_mask: KeyMask,
    pub channel_mask: ChannelMask,
}

impl MidiFilter {
    /// Whether the filter lets `event` through.
    pub open spec fn spec_accepts(&self, event: MidiEvent) -> bool {
        &&& self.channel_mask.spec_contains(event.channel)
        &&& (note_key(event.kind) matches Some(key) ==> self.key_mask.spec_contains(key))
    }

    /// Returns the event when its channel is in the channel mask and, for note-on and
    /// note-off events, its key is in the key mask; otherwise `None`.
    pub fn filter(&self, event: MidiEvent) -> (r: Option<MidiEvent>)
        requires
            event.channel < 16,
            self.channel_mask.spec_contains(event.channel) ==> (note_key(event.kind) matches Some(
                key,
            ) ==> key < 128),
        ensures
            r == (if self.spec_accepts(event) {
                Some(event)
            } else {
                None
            }),
    {
        if !self.channel_mask.contains(event.channel) {
            return None;
        }
        if let MidiEventKind::NoteOn { key, velocity: _ } = event.kind {
            if !self.key_mask.contains(key) {
                return None;
            }
        }
        if let MidiEventKind::NoteOff { key, velocity: _ } = event.kind {
            if !self.key_mask.contains(key) {
                return None;
            }
        }
        Some(event)
    }
}

/// A filter that holds every key and every channel lets every event through.
pub proof fn lemma_open_filter_accepts_everything(event: MidiEvent)
    requires
        event.channel < 16,
        note_key(event.kind) matches Some(key) ==> key < 128,
    ensures
        (MidiFilter { key_mask: KeyMask::spec_all(), channel_mask: ChannelMask::spec_all() }).spec_accepts(
            event,
        ),
{
    match note_key(event.kind) {
        Some(key) => lemma_all_masks_contain_everything(key, event.channel),
        None => lemma_all_masks_contain_everything(0, event.channel),
    }
}

/// The filter looks at the channel of every event and at the key of note events only: an
/// event off the channel mask is refused; on the mask, a note-on or note-off passes exactly
/// when its key is in the key mask, and any other event passes.
pub proof fn lemma_filter_checks_channel_and_note_keys(filter: MidiFilter, event: MidiEvent)
    ensures
        !filter.channel_mask.spec_contains(event.channel) ==> !filter.spec_accepts(event),
        filter.channel_mask.spec_contains(event.channel) ==> match event.kind {
            MidiEventKind::NoteOn { key, .. } => filter.spec_accepts(event) == filter.key_mask.spec_contains(key),
            MidiEventKind::NoteOff { key, .. } => filter.spec_accepts(event) == filter.key_mask.spec_contains(key),
            _ => filter.spec_accepts(event),
        },
{
}

/// Bit `c` of a mask stands for channel (or key) `c` alone: a mask with only bit `c` set
/// holds `c` and nothing else, and the empty mask holds nothing.
pub proof fn lemma_mask_bit_is_its_member(c: u8, d: u8)
    ensures
        c < 16 && d < 16 ==> ((ChannelMask { mask: 1u16 << c }).spec_contains(d) <==> c == d),
        d < 16 ==> !(ChannelMask { mask: 0u16 }).spec_contains(d),
        c < 128 && d < 128 ==> ((KeyMask { mask: 1u128 << c }).spec_contains(d) <==> c == d),
        d < 128 ==> !(KeyMask { mask: 0u128 }).spec_contains(d),
{
    if c < 16 && d < 16 {
        assert((((1u16 << c) >> d) & 1 == 1) <==> c == d) by (bit_vector)
            requires
                c < 16,
                d < 16,
        ;
    }
    if d < 16 {
        assert(!((0u16 >> d) & 1 == 1)) by (bit_vector);
    }
    if c < 128 && d < 128 {
        assert((((1u128 << c) >> d) & 1 == 1) <==> c == d) by (bit_vector)
            requires
                c < 128,
                d < 128,
        ;
    }
    if d < 128 {
        assert(!((0u128 >> d) & 1 == 1)) by (bit_vector);
    }
}

} // verus!
