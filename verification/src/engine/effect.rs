//! Effects in the audio chain and the parameter requests they accept.
//!
//! Floating-point parameters travel as their IEEE-754 bit patterns (`f32::to_bits`): the
//! logic here only routes and stores them, the sample arithmetic lives with the caller.

use vstd::prelude::*;

use crate::effects::gain::{spec_gain_set_param, Gain, GainDoc};
use crate::midi::event::MidiEvent;

verus! {

/// A request to an effect.
#[derive(Debug, Clone)]
pub enum EffectRequest {
    SetParam { id: u8, value: ParamValue },
}

/// A parameter value; `Float32` and `VecFloat32` hold `f32` bit patterns.
#[derive(Debug, Clone)]
pub enum ParamValue {
    Bool(bool),
    Float32(u32),
    VecFloat32(Vec<u32>),
    Usize(usize),
}

/// Why an effect refused a request.
#[derive(Debug, Clone, Copy, PartialEq, Eq, Structural)]
pub enum EffectError {
    InvalidParamId,
    InvalidParamValue,
    InvalidValueType,
}

/// The answer of an effect to a request.
pub type EffectResult = Result<(), EffectError>;

/// An effect of the audio chain.
pub enum Effect {
    Gain(Gain),
}

impl Effect {
    /// Prepares the effect for a stream; no effect keeps stream-dependent state.
    pub fn prepare(&mut self, _sample_rate: u32, _max_frame_count: usize, _channel_count: usize)
        ensures
            *final(self) == *old(self),
    {
        match self {
            Effect::Gain(_) => {},
        }
    }

    /// The answer that `self` gives to `request`, and the effect after it.
    pub open spec fn spec_request(self, request: EffectRequest) -> (Effect, EffectResult) {
        match self {
            Effect::Gain(g) => {
                let (g2, r) = g.spec_request(request);
                (Effect::Gain(g2), r)
            },
        }
    }

    /// Hands a request to the effect.
    pub fn request(&mut self, request: EffectRequest) -> (r: EffectResult)
        ensures
            (*final(self), r) == old(self).spec_request(request),
            match *old(self) {
                Effect::Gain(g0) => match request {
                    EffectRequest::SetParam { id, value } => (*final(self) matches Effect::Gain(g1)
                        && (g1.spec_value_bits(), r) == spec_gain_set_param(
                        g0.spec_value_bits(),
                        id,
                        value,
                    )),
                },
            },
    {
        match self {
            Effect::Gain(effect) => effect.request(request),
        }
    }

    /// Hands a MIDI event to the effect; no effect reacts to MIDI.
    pub fn handle_midi(&mut self, _event: MidiEvent)
        ensures
            *final(self) == *old(self),
    {
        match self {
            Effect::Gain(_) => {},
        }
    }

    /// Silences the effect at once; no effect holds a tail to cut.
    pub fn panic(&mut self)
        ensures
            *final(self) == *old(self),
    {
        match self {
            Effect::Gain(_) => {},
        }
    }
}

/// The saved description of an effect.
#[derive(Debug, Clone)]
pub enum EffectDoc {
    Gain(GainDoc),
}

impl EffectDoc {
    /// The effect that the description `self` prepares.
    pub open spec fn spec_prepare_effect(self) -> Effect {
        match self {
            EffectDoc::Gain(doc) => Effect::Gain(doc.spec_prepare_effect()),
        }
    }

    /// Builds the effect that the description stands for.
    pub fn prepare_effect(&self) -> (r: Effect)
        ensures
            r == self.spec_prepare_effect(),
            match *self {
                EffectDoc::Gain(d) => (r matches Effect::Gain(g) && g.spec_value_bits()
                    == d.spec_value_bits()),
            },
    {
        match self {
            EffectDoc::Gain(doc) => Effect::Gain(doc.prepare_effect()),
        }
    }
}

/// The flag held by a `Bool` value; any other value is of the wrong type.
pub fn expect_bool(value: ParamValue) -> (r: Result<bool, EffectError>)
    ensures
        r == (match value {
            ParamValue::Bool(b) => Ok(b),
            _ => Err(EffectError::InvalidValueType),
        }),
{
    if let ParamValue::Bool(value) = value {
        Ok(value)
    } else {
        Err(EffectError::InvalidValueType)
    }
}

/// The bit pattern held by a `Float32` value; any other value is of the wrong type.
pub fn expect_f32(value: ParamValue) -> (r: Result<u32, EffectError>)
    ensures
        r == (match value {
            ParamValue::Float32(b) => Ok(b),
            _ => Err(EffectError::InvalidValueType),
        }),
{
    if let ParamValue::Float32(value) = value {
        Ok(value)
    } else {
        Err(EffectError::InvalidValueType)
    }
}

/// The bit patterns held by a `VecFloat32` value; any other value is of the wrong type.
pub fn expect_vec_f32(value: ParamValue) -> (r: Result<Vec<u32>, EffectError>)
    ensures
        match value {
            ParamValue::VecFloat32(v) => r matches Ok(w) && w@ == v@,
            _ => r == Err::<Vec<u32>, EffectError>(EffectError::InvalidValueType),
        },
{
    if let ParamValue::VecFloat32(value) = value {
        Ok(value)
    } else {
        Err(EffectError::InvalidValueType)
    }
}

/// The number held by a `Usize` value; any other value is of the wrong type.
pub fn expect_usize(value: ParamValue) -> (r: Result<usize, EffectError>)
    ensures
        r == (match value {
            ParamValue::Usize(n) => Ok(n),
            _ => Err(EffectError::InvalidValueType),
        }),
{
    if let ParamValue::Usize(value) = value {
        Ok(value)
    } else {
        Err(EffectError::InvalidValueType)
    }
}

} // verus!
