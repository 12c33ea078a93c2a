use aaw::effects::gain::GainDoc;
use aaw::engine::effect::{
    expect_bool, expect_f32, expect_usize, expect_vec_f32, Effect, EffectDoc, EffectError, EffectRequest,
    ParamValue,
};
use aaw::midi::event::{MidiEvent, MidiEventKind};

fn gain_effect(value: f32) -> Effect {
    EffectDoc::Gain(GainDoc::new(value.to_bits())).prepare_effect()
}

fn bits(effect: &Effect) -> u32 {
    match effect {
        Effect::Gain(g) => g.value_bits(),
    }
}

#[test]
fn gain_takes_a_float_for_parameter_zero() {
    let mut e = gain_effect(1.0);
    assert_eq!(bits(&e), 1.0f32.to_bits());
    let r = e.request(EffectRequest::SetParam { id: 0, value: ParamValue::Float32(0.25f32.to_bits()) });
    assert_eq!(r, Ok(()));
    assert_eq!(bits(&e), 0.25f32.to_bits());
}

#[test]
fn gain_refuses_other_parameters_and_types() {
    let mut e = gain_effect(0.5);
    let r = e.request(EffectRequest::SetParam { id: 1, value: ParamValue::Float32(2.0f32.to_bits()) });
    assert_eq!(r, Err(EffectError::InvalidParamId));
    let r = e.request(EffectRequest::SetParam { id: 0, value: ParamValue::Bool(true) });
    assert_eq!(r, Err(EffectError::InvalidValueType));
    let r = e.request(EffectRequest::SetParam { id: 3, value: ParamValue::Usize(1) });
    assert_eq!(r, Err(EffectError::InvalidParamId));
    assert_eq!(bits(&e), 0.5f32.to_bits());
}

#[test]
fn gain_doc_ignores_bad_parameters() {
    let mut doc = GainDoc::new(1.5f32.to_bits());
    doc.set_param(2, ParamValue::Float32(3.0f32.to_bits()));
    doc.set_param(0, ParamValue::Usize(3));
    assert_eq!(doc.value_bits(), 1.5f32.to_bits());
    doc.set_param(0, ParamValue::Float32(3.0f32.to_bits()));
    assert_eq!(doc.value_bits(), 3.0f32.to_bits());
    assert_eq!(doc.prepare_effect().value_bits(), 3.0f32.to_bits());
}

#[test]
fn lifecycle_calls_leave_the_effect() {
    let mut e = gain_effect(0.75);
    e.prepare(48_000, 256, 2);
    e.handle_midi(MidiEvent { timestamp: None, channel: 0, kind: MidiEventKind::NoteOn { key: 1, velocity: 1 } });
    e.panic();
    assert_eq!(bits(&e), 0.75f32.to_bits());
}

#[test]
fn expect_helpers_check_the_type() {
    assert_eq!(expect_bool(ParamValue::Bool(true)), Ok(true));
    assert_eq!(expect_bool(ParamValue::Usize(1)), Err(EffectError::InvalidValueType));
    assert_eq!(expect_f32(ParamValue::Float32(7)), Ok(7));
    assert_eq!(expect_f32(ParamValue::Bool(false)), Err(EffectError::InvalidValueType));
    assert_eq!(expect_vec_f32(ParamValue::VecFloat32(vec![1, 2])), Ok(vec![1, 2]));
    assert_eq!(expect_vec_f32(ParamValue::Float32(1)), Err(EffectError::InvalidValueType));
    assert_eq!(expect_usize(ParamValue::Usize(9)), Ok(9));
    assert_eq!(expect_usize(ParamValue::VecFloat32(vec![])), Err(EffectError::InvalidValueType));
}

#[test]
fn invalid_param_value_is_a_distinct_error() {
    assert_ne!(EffectError::InvalidParamValue, EffectError::InvalidParamId);
    assert_ne!(EffectError::InvalidParamValue, EffectError::InvalidValueType);
}
