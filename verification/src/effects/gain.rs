//! A gain effect: every sample is multiplied by one factor.

use vstd::prelude::*;

use crate::engine::effect::{expect_f32, EffectError, EffectRequest, EffectResult, ParamValue};

verus! {

/// The gain effect as the audio thread runs it. The factor is held as its `f32` bit
/// pattern; parameter 0 sets it.
pub struct Gain {
    value_bits: u32,
}

/// What setting parameter `id` to `value` does to a gain whose factor has the bit pattern
/// `bits`: the new bit pattern and the answer.
pub open spec fn spec_gain_set_param(bits: u32, id: u8, value: ParamValue) -> (u32, EffectResult) {
    if id == 0 {
        match value {
            ParamValue::Float32(b) => (b, Ok(())),
            _ => (bits, Err(EffectError::InvalidValueType)),
        }
    } else {
        (bits, Err(EffectError::InvalidParamId))
    }
}

impl Gain {
    /// The bit pattern of the factor.
    pub closed spec fn spec_value_bits(&self) -> u32 {
        self.value_bits
    }

    /// The bit pattern of the factor.
    pub fn value_bits(&self) -> (r: u32)
        ensures
            r == self.spec_value_bits(),
    {
        self.value_bits
    }

    /// The gain after `request`, and the answer.
    pub open spec fn spec_request(self, request: EffectRequest) -> (Gain, EffectResult) {
        match request {
            EffectRequest::SetParam { id, value } => {
                let (bits, r) = spec_gain_set_param(self.spec_value_bits(), id, value);
                (Gain::with_bits(bits), r)
            },
        }
    }

    /// The gain whose factor has the bit pattern `bits`.
    pub closed spec fn with_bits(bits: u32) -> Gain {
        Gain { value_bits: bits }
    }

    /// Hands a request to the gain: parameter 0 takes a `Float32` factor.
    pub fn request(&mut self, request: EffectRequest) -> (r: EffectResult)
        ensures
            (*final(self), r) == old(self).spec_request(request),
            match request {
                EffectRequest::SetParam { id, value } => (final(self).spec_value_bits(), r)
                    == spec_gain_set_param(old(self).spec_value_bits(), id, value),
            },
    {
        match request {
            EffectRequest::SetParam { id, value } => self.set_param(id, value),
        }
    }

    fn set_param(&mut self, id: u8, value: ParamValue) -> (r: EffectResult)
        ensures
            (final(self).value_bits, r) == spec_gain_set_param(old(self).value_bits, id, value),
    {
        if id == 0 {
            match expect_f32(value) {
                Ok(v) => {
                    self.value_bits = v;
                    return Ok(());
                },
                Err(e) => {
                    return Err(e);
                },
            }
        }
        Err(EffectError::InvalidParamId)
    }
}

/// The saved description of a gain: the bit pattern of its factor.
#[derive(Debug, Clone)]
pub struct GainDoc {
    value_bits: u32,
}

impl GainDoc {
    /// A description whose factor has the bit pattern `value_bits`.
    pub fn new(value_bits: u32) -> (r: GainDoc)
        ensures
            r.spec_value_bits() == value_bits,
    {
        GainDoc { value_bits }
    }

    /// The bit pattern of the factor.
    pub closed spec fn spec_value_bits(&self) -> u32 {
        self.value_bits
    }

    /// The bit pattern of the factor.
    pub fn value_bits(&self) -> (r: u32)
        ensures
            r == self.spec_value_bits(),
    {
        self.value_bits
    }

    /// Sets parameter `id`: parameter 0 takes a `Float32` factor; anything else is ignored.
    pub fn set_param(&mut self, id: u8, value: ParamValue)
        ensures
            final(self).spec_value_bits() == spec_gain_set_param(
                old(self).spec_value_bits(),
                id,
                value,
            ).0,
    {
        if id == 0 {
            if let Ok(value) = expect_f32(value) {
                self.value_bits = value;
            }
        }
    }

    /// The gain that the description prepares.
    pub open spec fn spec_prepare_effect(self) -> Gain {
        Gain::with_bits(self.spec_value_bits())
    }

    /// Builds the gain with the described factor.
    pub fn prepare_effect(&self) -> (r: Gain)
        ensures
            r == self.spec_prepare_effect(),
            r.spec_value_bits() == self.spec_value_bits(),
    {
        Gain { value_bits: self.value_bits }
    }
}

/// A refused parameter leaves the factor as it was; an accepted one is the new factor.
pub proof fn lemma_set_param_reads_back(bits: u32, id: u8, value: ParamValue)
    ensures
        spec_gain_set_param(bits, id, value).1 is Err ==> spec_gain_set_param(bits, id, value).0
            == bits,
        spec_gain_set_param(bits, id, value).1 is Ok ==> (value matches ParamValue::Float32(b)
            && spec_gain_set_param(bits, id, value).0 == b),
{
}

/// The gain has one parameter, 0, the factor, which takes a `Float32` value: setting it
/// to `Float32(b)` is accepted and makes `b` the factor; any other value for it is refused
/// as the wrong type, and any other parameter id is refused as unknown, both leaving the
/// factor as it was.
pub proof fn lemma_only_parameter_zero_takes_a_float(bits: u32, id: u8, value: ParamValue)
    ensures
        id == 0 && value is Float32 ==> spec_gain_set_param(bits, id, value) == (value->Float32_0, Ok::<
            (),
            EffectError,
        >(())),
        id == 0 && !(value is Float32) ==> spec_gain_set_param(bits, id, value) == (bits, Err::<
            (),
            EffectError,
        >(EffectError::InvalidValueType)),
        id != 0 ==> spec_gain_set_param(bits, id, value) == (bits, Err::<(), EffectError>(
            EffectError::InvalidParamId,
        )),
{
}

} // verus!
