pub mod event;
pub mod filter;
pub mod runtime;

pub use event::{parse_midi_message, MidiEvent, MidiEventKind};
pub use filter::{ChannelMask, KeyMask, MidiFilter};
pub use runtime::{AutoConnectInput, AutoConnectInputState, InputPortInfo, InputSlotStatus};
