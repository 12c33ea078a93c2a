//! Realtime MIDI and audio-graph logic of a small audio workstation: MIDI decoding and
//! filtering, the synth graph and its command protocol, effect parameters, voice
//! allocation, and the choice of the output stream configuration.

pub mod audio;
pub mod effects;
pub mod engine;
pub mod midi;
pub mod rt_channels;
pub mod synths;
