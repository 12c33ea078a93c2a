use aaw::audio::block::BlockShape;
use aaw::audio::info::{BufferSizeInfo, SampleFormat};
use aaw::audio::output::{
    best_range, buffer_sizes, config_matches_buffer_size, config_matches_sample_rate, config_not_worse,
    resolve_preferred_config, sample_format_score, BufferSize, ConfigRange,
};
use aaw::audio::params::{LatencySelection, SampleRateSelection};

fn range(format: SampleFormat, min: u32, max: u32, buffer: BufferSizeInfo, rank: u32) -> ConfigRange {
    ConfigRange { sample_format: format, min_sample_rate: min, max_sample_rate: max, buffer_size: buffer, default_rank: rank }
}

#[test]
fn buffer_sizes_per_latency() {
    assert_eq!(
        buffer_sizes(&LatencySelection::Automatic),
        vec![BufferSize::Default, BufferSize::Fixed(256)]
    );
    assert_eq!(
        buffer_sizes(&LatencySelection::Low),
        vec![BufferSize::Fixed(64), BufferSize::Fixed(128), BufferSize::Fixed(256)]
    );
    assert_eq!(
        buffer_sizes(&LatencySelection::Stable),
        vec![BufferSize::Fixed(256), BufferSize::Fixed(512), BufferSize::Fixed(1024)]
    );
}

#[test]
fn range_matching() {
    let r = range(SampleFormat::F32, 44_100, 48_000, BufferSizeInfo::Range { min: 128, max: 512 }, 0);
    assert!(config_matches_sample_rate(&r, &SampleRateSelection::Automatic));
    assert!(config_matches_sample_rate(&r, &SampleRateSelection::Fixed(48_000)));
    assert!(!config_matches_sample_rate(&r, &SampleRateSelection::Fixed(96_000)));
    assert!(config_matches_buffer_size(&r, BufferSize::Default));
    assert!(config_matches_buffer_size(&r, BufferSize::Fixed(128)));
    assert!(!config_matches_buffer_size(&r, BufferSize::Fixed(64)));
    let unknown = range(SampleFormat::I16, 8_000, 8_000, BufferSizeInfo::Unknown, 0);
    assert!(config_matches_buffer_size(&unknown, BufferSize::Fixed(64)));
}

#[test]
fn format_scores() {
    assert_eq!(sample_format_score(SampleFormat::F32), 6);
    assert_eq!(sample_format_score(SampleFormat::F64), 5);
    assert_eq!(sample_format_score(SampleFormat::I16), 4);
    assert_eq!(sample_format_score(SampleFormat::U16), 3);
    assert_eq!(sample_format_score(SampleFormat::I24), 2);
    assert_eq!(sample_format_score(SampleFormat::I32), 2);
    assert_eq!(sample_format_score(SampleFormat::U24), 1);
    assert_eq!(sample_format_score(SampleFormat::U32), 1);
    assert_eq!(sample_format_score(SampleFormat::I8), 0);
    assert_eq!(sample_format_score(SampleFormat::U64), 0);
    assert_eq!(sample_format_score(SampleFormat::Other), 0);
}

#[test]
fn preference_order() {
    let f32_low = range(SampleFormat::F32, 0, 1, BufferSizeInfo::Unknown, 0);
    let i16_high = range(SampleFormat::I16, 0, 1, BufferSizeInfo::Unknown, 9);
    assert!(config_not_worse(&i16_high, &f32_low));
    assert!(!config_not_worse(&f32_low, &i16_high));
    let f32_high = range(SampleFormat::F32, 0, 1, BufferSizeInfo::Unknown, 3);
    assert!(config_not_worse(&f32_low, &f32_high));
    assert!(config_not_worse(&f32_high, &f32_high));
}

#[test]
fn best_range_takes_the_last_of_the_best() {
    let ranges = vec![
        range(SampleFormat::I16, 44_100, 48_000, BufferSizeInfo::Unknown, 5),
        range(SampleFormat::F32, 44_100, 48_000, BufferSizeInfo::Unknown, 1),
        range(SampleFormat::F32, 44_100, 48_000, BufferSizeInfo::Unknown, 1),
        range(SampleFormat::F32, 96_000, 96_000, BufferSizeInfo::Unknown, 7),
    ];
    assert_eq!(best_range(&ranges, &SampleRateSelection::Fixed(48_000), BufferSize::Default), Some(2));
    assert_eq!(best_range(&ranges, &SampleRateSelection::Automatic, BufferSize::Default), Some(3));
    assert_eq!(best_range(&ranges, &SampleRateSelection::Fixed(22_050), BufferSize::Default), None);
}

#[test]
fn resolve_tries_buffer_sizes_in_order() {
    let ranges = vec![
        range(SampleFormat::F32, 48_000, 48_000, BufferSizeInfo::Range { min: 256, max: 4096 }, 0),
        range(SampleFormat::I16, 48_000, 48_000, BufferSizeInfo::Range { min: 128, max: 128 }, 1),
    ];
    let low = buffer_sizes(&LatencySelection::Low);
    assert_eq!(
        resolve_preferred_config(&low, &ranges, &SampleRateSelection::Automatic),
        Some((1, BufferSize::Fixed(128)))
    );
    let stable = buffer_sizes(&LatencySelection::Stable);
    assert_eq!(
        resolve_preferred_config(&stable, &ranges, &SampleRateSelection::Automatic),
        Some((0, BufferSize::Fixed(256)))
    );
    assert_eq!(resolve_preferred_config(&stable, &ranges, &SampleRateSelection::Fixed(44_100)), None);
    assert_eq!(resolve_preferred_config(&stable, &vec![], &SampleRateSelection::Automatic), None);
}

#[test]
fn block_shape_prepare() {
    let mut shape = BlockShape::new(2, 512);
    assert_eq!(shape.frame_count(), 0);
    assert!(shape.prepare(256));
    assert_eq!(shape.frame_count(), 256);
    assert!(shape.prepare(512));
    assert!(!shape.prepare(513));
    assert_eq!(shape.frame_count(), 0);
    let m = shape.mirror();
    assert_eq!((m.channel_count(), m.max_frame_count(), m.frame_count()), (2, 512, 0));
    assert!(shape.prepare(3));
    assert_eq!(shape.interleaved_index(2, 1, 6), 5);
    assert_eq!(shape.interleaved_index(1, 0, 6), 2);
}
