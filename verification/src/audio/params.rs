//! What the user selects for the audio output.

use vstd::prelude::*;

verus! {

/// Which audio host to use.
#[derive(Debug, Clone)]
pub enum HostSelection {
    Default,
    Id(String),
}

/// Which output device of the host to use.
#[derive(Debug, Clone)]
pub enum DeviceSelection {
    Default,
    Id(String),
}

/// How to trade latency for stability, as a list of buffer sizes to try.
#[derive(Debug, Clone, Copy, PartialEq, Eq, Structural)]
pub enum LatencySelection {
    /// The device's default buffer size, then 256 frames.
    Automatic,
    /// 64, 128, then 256 frames.
    Low,
    /// 256, 512, then 1024 frames.
    Stable,
}

/// Which sample rate to use.
#[derive(Debug, Clone, Copy, PartialEq, Eq, Structural)]
pub enum SampleRateSelection {
    Automatic,
    Fixed(u32),
}

/// The full selection of an output stream.
#[derive(Debug, Clone)]
pub struct DeviceCfgSelection {
    pub host: HostSelection,
    pub device: DeviceSelection,
    pub latency: LatencySelection,
    pub sample_rate: SampleRateSelection,
}

} // verus!
