use aaw::midi::event::{MidiEvent, MidiEventKind};
use aaw::midi::filter::{ChannelMask, KeyMask, MidiFilter};

fn note_on(channel: u8, key: u8) -> MidiEvent {
    MidiEvent { timestamp: None, channel, kind: MidiEventKind::NoteOn { key, velocity: 100 } }
}

#[test]
fn key_mask_selects_keys() {
    let mask = KeyMask { mask: (1u128 << 60) | (1u128 << 127) };
    assert!(mask.contains(60));
    assert!(mask.contains(127));
    assert!(!mask.contains(61));
    assert!(!mask.contains(0));
}

#[test]
fn channel_mask_selects_channels() {
    let mask = ChannelMask { mask: 0b1000_0000_0000_0101 };
    assert!(mask.contains(0));
    assert!(mask.contains(2));
    assert!(mask.contains(15));
    assert!(!mask.contains(1));
}

#[test]
fn default_masks_hold_everything() {
    let keys = KeyMask::default();
    let channels = ChannelMask::default();
    assert_eq!(keys, KeyMask::all());
    assert_eq!(channels, ChannelMask::all());
    for key in 0..128u8 {
        assert!(keys.contains(key));
    }
    for channel in 0..16u8 {
        assert!(channels.contains(channel));
    }
}

#[test]
fn filter_checks_channel_then_keys() {
    let filter = MidiFilter {
        key_mask: KeyMask { mask: 1u128 << 60 },
        channel_mask: ChannelMask { mask: 1 << 3 },
    };
    assert_eq!(filter.filter(note_on(3, 60)), Some(note_on(3, 60)));
    assert_eq!(filter.filter(note_on(3, 61)), None);
    assert_eq!(filter.filter(note_on(4, 60)), None);
    let off = MidiEvent { timestamp: None, channel: 3, kind: MidiEventKind::NoteOff { key: 59, velocity: 0 } };
    assert_eq!(filter.filter(off), None);
    let cc = MidiEvent { timestamp: None, channel: 3, kind: MidiEventKind::ControlChange { controller: 7, value: 1 } };
    assert_eq!(filter.filter(cc), Some(cc));
}

#[test]
fn open_filter_accepts_everything() {
    let filter = MidiFilter { key_mask: KeyMask::all(), channel_mask: ChannelMask::all() };
    for channel in 0..16u8 {
        assert_eq!(filter.filter(note_on(channel, 127)), Some(note_on(channel, 127)));
    }
}
