//! Choosing the output stream configuration: which buffer sizes to try, which of the
//! device's configuration ranges fit, and which of those is best.

use vstd::prelude::*;

use crate::audio::info::{BufferSizeInfo, SampleFormat};
use crate::audio::params::{LatencySelection, SampleRateSelection};

verus! {

/// The buffer size to request from a stream.
#[derive(Debug, Clone, Copy, PartialEq, Eq, Structural)]
pub enum BufferSize {
    Default,
    Fixed(u32),
}

/// A configuration range of the device, as the choice reads it.
#[derive(Debug, Clone, Copy, PartialEq, Eq, Structural)]
pub struct ConfigRange {
    pub sample_format: SampleFormat,
    pub min_sample_rate: u32,
    pub max_sample_rate: u32,
    pub buffer_size: BufferSizeInfo,
    /// The range's place in the backend's default-configuration order (channels, sample
    /// format, sample rate): the number of the device's ranges that it ranks above.
    pub default_rank: u32,
}

/// The buffer sizes to try, in order, for a latency selection.
pub open spec fn spec_buffer_sizes(latency_sel: LatencySelection) -> Seq<BufferSize> {
    match latency_sel {
        LatencySelection::Automatic => seq![BufferSize::Default, BufferSize::Fixed(256)],
        LatencySelection::Low => seq![
            BufferSize::Fixed(64),
            BufferSize::Fixed(128),
            BufferSize::Fixed(256),
        ],
        LatencySelection::Stable => seq![
            BufferSize::Fixed(256),
            BufferSize::Fixed(512),
            BufferSize::Fixed(1024),
        ],
    }
}

/// The buffer sizes to try, in order, for a latency selection.
pub fn buffer_sizes(latency_sel: &LatencySelection) -> (r: Vec<BufferSize>)
    ensures
        r@ == spec_buffer_sizes(*latency_sel),
{
    let r = match latency_sel {
        LatencySelection::Automatic => vec![BufferSize::Default, BufferSize::Fixed(256)],
        LatencySelection::Low => vec![
            BufferSize::Fixed(64),
            BufferSize::Fixed(128),
            BufferSize::Fixed(256),
        ],
        LatencySelection::Stable => vec![
            BufferSize::Fixed(256),
            BufferSize::Fixed(512),
            BufferSize::Fixed(1024),
        ],
    };
    assert(r@ =~= spec_buffer_sizes(*latency_sel));
    r
}

/// Whether the range allows the selected sample rate.
pub open spec fn spec_matches_sample_rate(range: ConfigRange, sample_rate_sel: SampleRateSelection) -> bool {
    match sample_rate_sel {
        SampleRateSelection::Automatic => true,
        SampleRateSelection::Fixed(sr) => range.min_sample_rate <= sr && sr <= range.max_sample_rate,
    }
}

/// Whether the range allows the selected sample rate: any range for an automatic rate,
/// and for a fixed rate a range from a minimum to a maximum that holds it.
pub fn config_matches_sample_rate(range: &ConfigRange, sample_rate_sel: &SampleRateSelection) -> (r: bool)
    ensures
        r == spec_matches_sample_rate(*range, *sample_rate_sel),
{
    match sample_rate_sel {
        SampleRateSelection::Automatic => true,
        SampleRateSelection::Fixed(sr) => range.min_sample_rate <= *sr && *sr <= range.max_sample_rate,
    }
}

/// Whether the range allows the buffer size.
pub open spec fn spec_matches_buffer_size(range: ConfigRange, buffer_size: BufferSize) -> bool {
    match (buffer_size, range.buffer_size) {
        (BufferSize::Default, _) => true,
        (_, BufferSizeInfo::Unknown) => true,
        (BufferSize::Fixed(n), BufferSizeInfo::Range { min, max }) => min <= n && n <= max,
    }
}

/// Whether the range allows the buffer size: the default size always fits, and so does
/// any size when the range does not know its limits.
pub fn config_matches_buffer_size(range: &ConfigRange, buffer_size: BufferSize) -> (r: bool)
    ensures
        r == spec_matches_buffer_size(*range, buffer_size),
{
    match (buffer_size, range.buffer_size) {
        (BufferSize::Default, _) => true,
        (_, BufferSizeInfo::Unknown) => true,
        (BufferSize::Fixed(n), BufferSizeInfo::Range { min, max }) => min <= n && n <= max,
    }
}

/// How much the engine prefers a sample format: float first, then the integer formats
/// by precision; formats it does not render score 0.
pub open spec fn spec_sample_format_score(format: SampleFormat) -> u8 {
    match format {
        SampleFormat::F32 => 6,
        SampleFormat::F64 => 5,
        SampleFormat::I16 => 4,
        SampleFormat::U16 => 3,
        SampleFormat::I24 | SampleFormat::I32 => 2,
        SampleFormat::U24 | SampleFormat::U32 => 1,
        _ => 0,
    }
}

/// How much the engine prefers a sample format.
pub fn sample_format_score(format: SampleFormat) -> (r: u8)
    ensures
        r == spec_sample_format_score(format),
{
    match format {
        SampleFormat::F32 => 6,
        SampleFormat::F64 => 5,
        SampleFormat::I16 => 4,
        SampleFormat::U16 => 3,
        SampleFormat::I24 | SampleFormat::I32 => 2,
        SampleFormat::U24 | SampleFormat::U32 => 1,
        _ => 0,
    }
}

/// Whether range `b` is at least as good as range `a`: a better sample format first,
/// then the backend's default order.
pub open spec fn spec_not_worse(a: ConfigRange, b: ConfigRange) -> bool {
    let sa = spec_sample_format_score(a.sample_format);
    let sb = spec_sample_format_score(b.sample_format);
    sa < sb || (sa == sb && a.default_rank <= b.default_rank)
}

/// Whether range `b` is at least as good as range `a`.
pub fn config_not_worse(a: &ConfigRange, b: &ConfigRange) -> (r: bool)
    ensures
        r == spec_not_worse(*a, *b),
{
    let sa = sample_format_score(a.sample_format);
    let sb = sample_format_score(b.sample_format);
    sa < sb || (sa == sb && a.default_rank <= b.default_rank)
}

/// Whether the range fits the sample-rate selection and the buffer size.
pub open spec fn spec_eligible(range: ConfigRange, sample_rate_sel: SampleRateSelection, buffer_size: BufferSize) -> bool {
    spec_matches_sample_rate(range, sample_rate_sel) && spec_matches_buffer_size(range, buffer_size)
}

/// The best of the first `n` ranges that fit: the last one of those that no other fitting
/// range beats, as `Iterator::max_by` picks.
pub open spec fn spec_best_range(
    ranges: Seq<ConfigRange>,
    sample_rate_sel: SampleRateSelection,
    buffer_size: BufferSize,
    n: int,
) -> Option<usize>
    decreases n,
{
    if n <= 0 {
        None
    } else {
        let prev = spec_best_range(ranges, sample_rate_sel, buffer_size, n - 1);
        if spec_eligible(ranges[n - 1], sample_rate_sel, buffer_size) && (prev matches Some(p)
            ==> spec_not_worse(ranges[p as int], ranges[n - 1])) {
            Some((n - 1) as usize)
        } else {
            prev
        }
    }
}

/// The configuration chosen from the buffer sizes `buffer_sizes[k..]`: for the first
/// buffer size that some range fits, the best such range and that buffer size.
pub open spec fn spec_resolve_from(
    buffer_sizes: Seq<BufferSize>,
    ranges: Seq<ConfigRange>,
    sample_rate_sel: SampleRateSelection,
    k: int,
) -> Option<(usize, BufferSize)>
    decreases buffer_sizes.len() - k,
{
    if k < 0 || k >= buffer_sizes.len() {
        None
    } else {
        match spec_best_range(ranges, sample_rate_sel, buffer_sizes[k], ranges.len() as int) {
            Some(i) => Some((i, buffer_sizes[k])),
            None => spec_resolve_from(buffer_sizes, ranges, sample_rate_sel, k + 1),
        }
    }
}

/// The best range among those that fit the sample-rate selection and the buffer size.
pub fn best_range(ranges: &Vec<ConfigRange>, sample_rate_sel: &SampleRateSelection, buffer_size: BufferSize) -> (r: Option<usize>)
    ensures
        r == spec_best_range(ranges@, *sample_rate_sel, buffer_size, ranges.len() as int),
        r matches Some(i) ==> i < ranges.len(),
{
    let n = ranges.len();
    let mut best: Option<usize> = None;
    let mut i: usize = 0;
    while i < n
        invariant
            i <= n,
            n == ranges.len(),
            best == spec_best_range(ranges@, *sample_rate_sel, buffer_size, i as int),
            best matches Some(b) ==> b < i,
        decreases n - i,
    {
        let range = &ranges[i];
        if config_matches_sample_rate(range, sample_rate_sel) && config_matches_buffer_size(range, buffer_size) {
            let better = match best {
                Some(b) => config_not_worse(&ranges[b], range),
                None => true,
            };
            if better {
                best = Some(i);
            }
        }
        i = i + 1;
    }
    best
}

/// Chooses the stream configuration: for the first buffer size in `buffer_sizes` that
/// some range fits, the index of the best fitting range and that buffer size; `None`
/// when no range fits any of them.
pub fn resolve_preferred_config(
    buffer_sizes: &Vec<BufferSize>,
    ranges: &Vec<ConfigRange>,
    sample_rate_sel: &SampleRateSelection,
) -> (r: Option<(usize, BufferSize)>)
    ensures
        r == spec_resolve_from(buffer_sizes@, ranges@, *sample_rate_sel, 0),
        r matches Some((i, _)) ==> i < ranges.len(),
{
    let n = buffer_sizes.len();
    let mut k: usize = 0;
    while k < n
        invariant
            k <= n,
            n == buffer_sizes.len(),
            spec_resolve_from(buffer_sizes@, ranges@, *sample_rate_sel, k as int)
                == spec_resolve_from(buffer_sizes@, ranges@, *sample_rate_sel, 0),
        decreases n - k,
    {
        let buf = buffer_sizes[k];
        match best_range(ranges, sample_rate_sel, buf) {
            Some(i) => {
                return Some((i, buf));
            },
            None => {},
        }
        k = k + 1;
    }
    None
}

/// The best range is a best one: it fits, and every fitting range among the first `n` is
/// at most as good; when there is none, no range among the first `n` fits.
pub proof fn lemma_best_range_is_best(
    ranges: Seq<ConfigRange>,
    sample_rate_sel: SampleRateSelection,
    buffer_size: BufferSize,
    n: int,
)
    requires
        n <= ranges.len(),
        ranges.len() <= usize::MAX,
    ensures
        match spec_best_range(ranges, sample_rate_sel, buffer_size, n) {
            Some(b) => {
                &&& b < n
                &&& spec_eligible(ranges[b as int], sample_rate_sel, buffer_size)
                &&& forall|j: int|
                    0 <= j < n && spec_eligible(#[trigger] ranges[j], sample_rate_sel, buffer_size)
                        ==> spec_not_worse(ranges[j], ranges[b as int])
            },
            None => forall|j: int|
                0 <= j < n ==> !spec_eligible(#[trigger] ranges[j], sample_rate_sel, buffer_size),
        },
    decreases n,
{
    if n > 0 {
        lemma_best_range_is_best(ranges, sample_rate_sel, buffer_size, n - 1);
    }
}

/// The chosen configuration fits: its range fits the sample-rate selection and the buffer
/// size, the buffer size is one of the ones to try, and no earlier buffer size fits any
/// range.
pub proof fn lemma_resolved_config_fits(
    buffer_sizes: Seq<BufferSize>,
    ranges: Seq<ConfigRange>,
    sample_rate_sel: SampleRateSelection,
    k: int,
)
    requires
        0 <= k,
        ranges.len() <= usize::MAX,
    ensures
        spec_resolve_from(buffer_sizes, ranges, sample_rate_sel, k) matches Some((i, buf)) ==> {
            &&& (i as int) < ranges.len()
            &&& spec_eligible(ranges[i as int], sample_rate_sel, buf)
            &&& exists|m: int| k <= m < buffer_sizes.len() && buffer_sizes[m] == buf && forall|
                m2: int,
                j: int,
            |
                k <= m2 < m && 0 <= j < ranges.len() ==> !spec_eligible(
                    #[trigger] ranges[j],
                    sample_rate_sel,
                    #[trigger] buffer_sizes[m2],
                )
        },
    decreases buffer_sizes.len() - k,
{
    if k < buffer_sizes.len() {
        lemma_best_range_is_best(ranges, sample_rate_sel, buffer_sizes[k], ranges.len() as int);
        lemma_resolved_config_fits(buffer_sizes, ranges, sample_rate_sel, k + 1);
        if spec_best_range(ranges, sample_rate_sel, buffer_sizes[k], ranges.len() as int) is None {
            if let Some((i, buf)) = spec_resolve_from(buffer_sizes, ranges, sample_rate_sel, k + 1) {
                let m = choose|m: int| k + 1 <= m < buffer_sizes.len() && buffer_sizes[m] == buf
                    && forall|m2: int, j: int|
                    k + 1 <= m2 < m && 0 <= j < ranges.len() ==> !spec_eligible(
                        #[trigger] ranges[j],
                        sample_rate_sel,
                        #[trigger] buffer_sizes[m2],
                    );
                assert(k <= m < buffer_sizes.len() && buffer_sizes[m] == buf);
            }
        }
    }
}

/// A fixed buffer size fits a range with known limits exactly when it lies within them.
pub proof fn lemma_fixed_buffer_within_limits(range: ConfigRange, n: u32)
    ensures
        range.buffer_size matches BufferSizeInfo::Range { min, max } ==> (spec_matches_buffer_size(
            range,
            BufferSize::Fixed(n),
        ) <==> min <= n && n <= max),
{
}

/// The chosen configuration never asks a range for a fixed buffer size outside the
/// range's known limits.
pub proof fn lemma_resolved_buffer_within_limits(
    buffer_sizes: Seq<BufferSize>,
    ranges: Seq<ConfigRange>,
    sample_rate_sel: SampleRateSelection,
)
    requires
        ranges.len() <= usize::MAX,
    ensures
        spec_resolve_from(buffer_sizes, ranges, sample_rate_sel, 0) matches Some((i, BufferSize::Fixed(n)))
            ==> (ranges[i as int].buffer_size matches BufferSizeInfo::Range { min, max } ==> min <= n
            && n <= max),
{
    lemma_resolved_config_fits(buffer_sizes, ranges, sample_rate_sel, 0);
}

/// A range fits exactly when a fixed sample rate lies within its rates and a fixed
/// buffer size within its known buffer limits: the automatic sample rate fits every
/// range, and so does the device's default buffer size.
pub proof fn lemma_eligible_means_within_limits(
    range: ConfigRange,
    sample_rate_sel: SampleRateSelection,
    buffer_size: BufferSize,
)
    ensures
        spec_eligible(range, sample_rate_sel, buffer_size) <==> (match sample_rate_sel {
            SampleRateSelection::Fixed(sr) => range.min_sample_rate <= sr && sr <= range.max_sample_rate,
            SampleRateSelection::Automatic => true,
        } && match (buffer_size, range.buffer_size) {
            (BufferSize::Fixed(n), BufferSizeInfo::Range { min, max }) => min <= n && n <= max,
            _ => true,
        }),
{
}

/// Ranges are preferred by sample format first, whatever their default order: 32-bit
/// float, then 64-bit float, 16-bit signed, 16-bit unsigned, 32-bit signed, 32-bit
/// unsigned (24-bit formats rank with their 32-bit kin); formats the engine does not
/// render come last. Between ranges of one format, the one the backend ranks higher is
/// at least as good.
pub proof fn lemma_preference_by_format_then_rank(a: ConfigRange, b: ConfigRange)
    ensures
        ({
            let chain = seq![
                SampleFormat::F32,
                SampleFormat::F64,
                SampleFormat::I16,
                SampleFormat::U16,
                SampleFormat::I32,
                SampleFormat::U32,
            ];
            &&& forall|i: int, j: int|
                0 <= i < j < 6 && a.sample_format == #[trigger] chain[i] && b.sample_format
                    == #[trigger] chain[j] ==> spec_not_worse(b, a) && !spec_not_worse(a, b)
            &&& a.sample_format == b.sample_format ==> (spec_not_worse(a, b) <==> a.default_rank
                <= b.default_rank)
            &&& (a.sample_format == SampleFormat::I24 && b.sample_format == SampleFormat::I32) ==> (
            spec_not_worse(a, b) <==> a.default_rank <= b.default_rank)
            &&& (a.sample_format == SampleFormat::U24 && b.sample_format == SampleFormat::U32) ==> (
            spec_not_worse(a, b) <==> a.default_rank <= b.default_rank)
            &&& (b.sample_format == SampleFormat::I8 || b.sample_format == SampleFormat::U8
                || b.sample_format == SampleFormat::I64 || b.sample_format == SampleFormat::U64
                || b.sample_format == SampleFormat::Other) && (exists|i: int|
                0 <= i < 6 && a.sample_format == #[trigger] chain[i]) ==> !spec_not_worse(a, b)
        }),
{
}

/// The buffer sizes to try go from small to large: low latency tries sizes from 64 up to
/// 256 frames, stable playback from 256 up to 1024, and automatic the device's default
/// first, then 256 frames.
pub proof fn lemma_buffer_sizes_grow(latency_sel: LatencySelection)
    ensures
        ({
            let sizes = spec_buffer_sizes(latency_sel);
            &&& forall|i: int, j: int|
                0 <= i < j < sizes.len() ==> (#[trigger] sizes[i] matches BufferSize::Fixed(m) ==> (
                #[trigger] sizes[j] matches BufferSize::Fixed(n) && m < n))
            &&& latency_sel is Low ==> sizes[0] == BufferSize::Fixed(64) && sizes.last() == BufferSize::Fixed(256)
            &&& latency_sel is Stable ==> sizes[0] == BufferSize::Fixed(256) && sizes.last()
                == BufferSize::Fixed(1024)
            &&& latency_sel is Automatic ==> sizes == seq![BufferSize::Default, BufferSize::Fixed(256)]
        }),
{
}

} // verus!
