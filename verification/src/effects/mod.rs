pub mod gain;

pub use gain::{Gain, GainDoc};
