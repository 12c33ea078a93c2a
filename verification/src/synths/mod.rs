pub mod voice_synth;
pub mod voices;
