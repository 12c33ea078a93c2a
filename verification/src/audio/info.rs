//! What the audio backend reports about hosts, devices and the stream configurations
//! they support, as plain values.

use vstd::prelude::*;

verus! {

/// An audio host (a backend such as ALSA or PulseAudio).
#[derive(Debug, Clone)]
pub struct Host {
    pub id: String,
    pub name: &'static str,
}

/// An output device and the stream configurations it supports.
#[derive(Debug, Clone)]
pub struct OutputDeviceInfo {
    pub host_id: String,
    pub id: String,
    pub name: String,
    pub is_default: bool,
    pub stream_configs: Vec<OutputStreamConfigInfo>,
}

/// One range of stream configurations that a device supports.
#[derive(Debug, Clone, Copy)]
pub struct OutputStreamConfigInfo {
    pub sample_format: SampleFormat,
    pub channels: u16,
    pub sample_rate: (u32, u32),
    pub buffer_size: BufferSizeInfo,
}

/// The buffer sizes that a configuration range accepts.
#[derive(Debug, Clone, Copy, PartialEq, Eq, Structural)]
pub enum BufferSizeInfo {
    Range { min: u32, max: u32 },
    Unknown,
}

/// The format of one sample.
#[derive(Debug, Clone, Copy, PartialEq, Eq, Structural)]
pub enum SampleFormat {
    I8,
    I16,
    I24,
    I32,
    I64,
    U8,
    U16,
    U24,
    U32,
    U64,
    F32,
    F64,
    /// A format that the engine does not render.
    Other,
}

} // verus!
