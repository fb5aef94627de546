use vstd::prelude::*;

use crate::text::same_text;
use crate::wav::encode_wav_mono16;
use crate::wav::wav_pcm16_mono;
use crate::wav::MAX_WAV_SAMPLES;

verus! {

/// The sample rate speech recognition works best with.
pub const TARGET_SAMPLE_RATE: u32 = 16000;

/// One range of input configurations a device supports.
#[derive(Clone, Copy, Debug, PartialEq, Eq, Structural)]
pub struct ConfigRange {
    pub channels: u16,
    pub min_sample_rate: u32,
    pub max_sample_rate: u32,
}

/// Configurations with one or two channels can be recorded from.
pub open spec fn usable(c: ConfigRange) -> bool {
    c.channels == 1 || c.channels == 2
}

/// The rate closest to 16 kHz that a range offers: 16 kHz clamped to it
/// (the minimum wins when the range is empty).
pub open spec fn clamped_rate(c: ConfigRange) -> u32 {
    let upper = if c.max_sample_rate < TARGET_SAMPLE_RATE {
        c.max_sample_rate
    } else {
        TARGET_SAMPLE_RATE
    };
    if c.min_sample_rate > upper {
        c.min_sample_rate
    } else {
        upper
    }
}

/// How far a rate is from 16 kHz, computed as `(rate as i32 - 16000).abs()`:
/// a rate of 2^31 Hz or more is read as negative.
pub open spec fn rate_distance(rate: u32) -> int {
    if rate < 0x8000_0000 {
        if rate >= 16000 {
            rate - 16000
        } else {
            16000 - rate
        }
    } else {
        0x1_0000_0000 + 16000 - rate
    }
}

/// Whether the distance of `rate` can be computed without overflowing an `i32`.
pub open spec fn distance_defined(rate: u32) -> bool {
    rate < 0x8000_0000 || rate > 0x8000_0000 + 16000
}

/// Whether `choose_config` can weigh range `c`: a range it skips always can.
pub fn config_is_weighable(c: ConfigRange) -> (b: bool)
    ensures
        b == (usable(c) ==> distance_defined(clamped_rate(c))),
{
    if c.channels == 1 || c.channels == 2 {
        let r = preferred_rate(c);
        r < 0x8000_0000 || r > 0x8000_0000 + 16000
    } else {
        true
    }
}

/// The rate to record at from range `c`.
pub fn preferred_rate(c: ConfigRange) -> (r: u32)
    ensures
        r == clamped_rate(c),
{
    let upper = if c.max_sample_rate < TARGET_SAMPLE_RATE {
        c.max_sample_rate
    } else {
        TARGET_SAMPLE_RATE
    };
    if c.min_sample_rate > upper {
        c.min_sample_rate
    } else {
        upper
    }
}

fn distance(rate: u32) -> (d: u64)
    ensures
        d == rate_distance(rate),
{
    if rate < 0x8000_0000 {
        if rate >= 16000 {
            (rate - 16000) as u64
        } else {
            (16000 - rate) as u64
        }
    } else {
        0x1_0000_0000u64 + 16000 - (rate as u64)
    }
}

/// Range `i` is the one to record with, at `rate`: it has one or two
/// channels, `rate` is its clamped rate, no usable range comes nearer to
/// 16 kHz, and every earlier usable range is farther from it.
pub open spec fn best_config(configs: Seq<ConfigRange>, i: int, rate: u32) -> bool {
    &&& 0 <= i < configs.len()
    &&& usable(configs[i])
    &&& rate == clamped_rate(configs[i])
    &&& forall|j: int|
        0 <= j < configs.len() && usable(#[trigger] configs[j]) ==> rate_distance(rate)
            <= rate_distance(clamped_rate(configs[j]))
    &&& forall|j: int|
        0 <= j < i && usable(#[trigger] configs[j]) ==> rate_distance(rate) < rate_distance(
            clamped_rate(configs[j]),
        )
}

/// The distance of a rate below 2^31 Hz from 16 kHz is their absolute difference.
pub proof fn lemma_rate_distance_is_absolute_difference(rate: u32)
    requires
        rate < 0x8000_0000,
    ensures
        rate >= 16000 ==> rate_distance(rate) == rate - 16000,
        rate < 16000 ==> rate_distance(rate) == 16000 - rate,
{
}

/// The absolute difference of two integers.
pub open spec fn abs_diff(a: int, b: int) -> int {
    if a >= b {
        a - b
    } else {
        b - a
    }
}

/// With rates below 2^31 Hz, the chosen range's rate is no farther from 16 kHz
/// than any usable range's rate, and strictly nearer than every earlier one.
pub proof fn lemma_chosen_rate_is_nearest(configs: Seq<ConfigRange>, i: int, rate: u32)
    requires
        best_config(configs, i, rate),
        forall|j: int| 0 <= j < configs.len() ==> #[trigger] clamped_rate(configs[j]) < 0x8000_0000,
    ensures
        forall|j: int|
            0 <= j < configs.len() && usable(#[trigger] configs[j]) ==> abs_diff(rate as int, 16000)
                <= abs_diff(clamped_rate(configs[j]) as int, 16000),
        forall|j: int|
            0 <= j < i && usable(#[trigger] configs[j]) ==> abs_diff(rate as int, 16000) < abs_diff(
                clamped_rate(configs[j]) as int,
                16000,
            ),
{
    assert(clamped_rate(configs[i]) < 0x8000_0000);
    assert forall|j: int|
        0 <= j < configs.len() && usable(#[trigger] configs[j]) implies abs_diff(rate as int, 16000)
        <= abs_diff(clamped_rate(configs[j]) as int, 16000) by {
        lemma_rate_distance_is_absolute_difference(rate);
        lemma_rate_distance_is_absolute_difference(clamped_rate(configs[j]));
    }
    assert forall|j: int|
        0 <= j < i && usable(#[trigger] configs[j]) implies abs_diff(rate as int, 16000) < abs_diff(
        clamped_rate(configs[j]) as int,
        16000,
    ) by {
        lemma_rate_distance_is_absolute_difference(rate);
        lemma_rate_distance_is_absolute_difference(clamped_rate(configs[j]));
    }
}

/// A range's rate is 16 kHz when the range admits it, its maximum when that
/// lies below, and its minimum when that lies above.
pub proof fn lemma_clamped_rate_cases(c: ConfigRange)
    ensures
        c.min_sample_rate <= 16000 <= c.max_sample_rate ==> clamped_rate(c) == 16000,
        c.min_sample_rate <= c.max_sample_rate < 16000 ==> clamped_rate(c) == c.max_sample_rate,
        c.min_sample_rate > 16000 ==> clamped_rate(c) == c.min_sample_rate,
{
}

/// When some usable range admits 16 kHz, the chosen rate is 16 kHz.
pub proof fn lemma_target_rate_preferred(configs: Seq<ConfigRange>, i: int, rate: u32, j: int)
    requires
        best_config(configs, i, rate),
        0 <= j < configs.len(),
        usable(configs[j]),
        configs[j].min_sample_rate <= TARGET_SAMPLE_RATE <= configs[j].max_sample_rate,
    ensures
        rate == TARGET_SAMPLE_RATE,
{
    assert(clamped_rate(configs[j]) == TARGET_SAMPLE_RATE);
    assert(rate_distance(rate) <= 0);
}

/// The chosen rate of a range lies within the range, when the range is not empty.
pub proof fn lemma_rate_within_range(c: ConfigRange)
    requires
        c.min_sample_rate <= c.max_sample_rate,
    ensures
        c.min_sample_rate <= clamped_rate(c) <= c.max_sample_rate,
{
}

/// Picks the configuration to record with: among the ranges with one or two
/// channels, the first whose clamped rate is nearest to 16 kHz; with that rate.
/// None when no range has one or two channels.
pub fn choose_config(configs: &Vec<ConfigRange>) -> (r: Option<(usize, u32)>)
    requires
        forall|i: int|
            0 <= i < configs@.len() && usable(#[trigger] configs@[i]) ==> distance_defined(
                clamped_rate(configs@[i]),
            ),
    ensures
        r is None <==> forall|i: int| 0 <= i < configs@.len() ==> !usable(#[trigger] configs@[i]),
        r matches Some((i, rate)) ==> best_config(configs@, i as int, rate),
{
    let mut best: Option<(usize, u32, u64)> = None;
    let mut i: usize = 0;
    while i < configs.len()
        invariant
            i <= configs@.len(),
            best is None <==> forall|k: int| 0 <= k < i ==> !usable(#[trigger] configs@[k]),
            best matches Some((b, rate, d)) ==> {
                &&& b < i
                &&& usable(configs@[b as int])
                &&& rate == clamped_rate(configs@[b as int])
                &&& d == rate_distance(rate)
                &&& forall|j: int|
                    0 <= j < i && usable(#[trigger] configs@[j]) ==> d <= rate_distance(
                        clamped_rate(configs@[j]),
                    )
                &&& forall|j: int|
                    0 <= j < b && usable(#[trigger] configs@[j]) ==> d < rate_distance(
                        clamped_rate(configs@[j]),
                    )
            },
        decreases configs@.len() - i,
    {
        let c = configs[i];
        if c.channels == 1 || c.channels == 2 {
            let rate = preferred_rate(c);
            let d = distance(rate);
            match best {
                None => {
                    best = Some((i, rate, d));
                },
                Some((_, _, bd)) => {
                    if d < bd {
                        best = Some((i, rate, d));
                    }
                },
            }
        }
        i = i + 1;
    }
    match best {
        None => None,
        Some((b, rate, _)) => Some((b, rate)),
    }
}

/// The configuration to record with, or the error when no range has one or two channels.
pub fn input_config(configs: &Vec<ConfigRange>) -> (r: Result<(usize, u32), String>)
    requires
        forall|i: int|
            0 <= i < configs@.len() && usable(#[trigger] configs@[i]) ==> distance_defined(
                clamped_rate(configs@[i]),
            ),
    ensures
        r is Err <==> forall|i: int| 0 <= i < configs@.len() ==> !usable(#[trigger] configs@[i]),
        r matches Err(e) ==> e@ == "No suitable audio config found"@,
        r matches Ok((i, rate)) ==> best_config(configs@, i as int, rate),
{
    match choose_config(configs) {
        Some(choice) => Ok(choice),
        None => Err(String::from_str("No suitable audio config found")),
    }
}

/// The device to record from, or the error when none was found.
pub fn input_device<D>(device: Option<D>) -> (r: Result<D, String>)
    ensures
        match device {
            Some(d) => r == Ok::<D, String>(d),
            None => r matches Err(e) && e@ == "No input device available"@,
        },
{
    match device {
        Some(d) => Ok(d),
        None => Err(String::from_str("No input device available")),
    }
}

/// Which input device to record from.
#[derive(Debug, PartialEq, Eq)]
pub enum DeviceChoice {
    /// The host's default input device.
    Default,
    /// The first input device with this name.
    Named(String),
}

/// No device, or the name `default`, means the host's default device.
pub fn device_choice(device_name: Option<&str>) -> (c: DeviceChoice)
    ensures
        match device_name {
            None => c == DeviceChoice::Default,
            Some(n) => if n@ == "default"@ {
                c == DeviceChoice::Default
            } else {
                c matches DeviceChoice::Named(s) && s@ == n@
            },
        },
{
    match device_name {
        None => DeviceChoice::Default,
        Some(n) => {
            if same_text(n, "default") {
                DeviceChoice::Default
            } else {
                DeviceChoice::Named(n.to_owned())
            }
        },
    }
}

/// The first device whose name could be read and equals `wanted`.
pub fn find_device(names: &Vec<Option<String>>, wanted: &str) -> (r: Option<usize>)
    ensures
        match r {
            None => forall|i: int|
                0 <= i < names@.len() ==> !(#[trigger] names@[i] matches Some(n) && n@ == wanted@),
            Some(i) => {
                &&& i < names@.len()
                &&& names@[i as int] matches Some(n) && n@ == wanted@
                &&& forall|j: int|
                    0 <= j < i ==> !(#[trigger] names@[j] matches Some(n) && n@ == wanted@)
            },
        },
{
    let mut i: usize = 0;
    while i < names.len()
        invariant
            i <= names@.len(),
            forall|j: int| 0 <= j < i ==> !(#[trigger] names@[j] matches Some(n) && n@ == wanted@),
        decreases names@.len() - i,
    {
        match &names[i] {
            Some(n) => {
                if same_text(n.as_str(), wanted) {
                    return Some(i);
                }
            },
            None => {},
        }
        i = i + 1;
    }
    None
}


/// The sum of a sequence of sample levels.
pub open spec fn seq_sum(s: Seq<int>) -> int
    decreases s.len(),
{
    if s.len() == 0 {
        0
    } else {
        seq_sum(s.drop_last()) + s.last()
    }
}

/// Integer division rounding toward zero, as Rust's `/` does.
pub open spec fn trunc_div(a: int, d: int) -> int {
    if a >= 0 {
        a / d
    } else {
        -((-a) / d)
    }
}

/// Mixes interleaved levels of `c` channels down to one channel: each frame
/// of `c` consecutive levels (the last one possibly shorter) becomes its sum
/// divided by `c`, rounded toward zero.
pub open spec fn mono_frames(vals: Seq<int>, c: int) -> Seq<int>
    decreases vals.len(),
{
    if vals.len() == 0 || c <= 0 {
        Seq::empty()
    } else {
        let m = if vals.len() < c {
            vals.len() as int
        } else {
            c
        };
        seq![trunc_div(seq_sum(vals.take(m)), c)] + mono_frames(vals.skip(m), c)
    }
}

/// A sequence of levels as 16-bit samples.
pub open spec fn as_samples(s: Seq<int>) -> Seq<i16> {
    s.map_values(|v: int| v as i16)
}

/// One channel is kept as it is.
pub proof fn lemma_mono_single_channel_identity(vals: Seq<int>)
    ensures
        mono_frames(vals, 1) == vals,
    decreases vals.len(),
{
    if vals.len() > 0 {
        lemma_mono_single_channel_identity(vals.skip(1));
        let t = vals.take(1);
        assert(t.drop_last() =~= Seq::<int>::empty());
        assert(seq_sum(t.drop_last()) == 0);
        assert(t.last() == vals[0]);
        assert(seq_sum(t) == vals[0]);
        assert(seq![vals[0]] + vals.skip(1) =~= vals);
    }
}

/// A mix-down has one frame per `c` levels, the last frame possibly short.
pub proof fn lemma_mono_frame_count(vals: Seq<int>, c: int)
    requires
        c > 0,
    ensures
        mono_frames(vals, c).len() == (vals.len() + c - 1) / c,
    decreases vals.len(),
{
    if vals.len() > 0 {
        let m = if vals.len() < c {
            vals.len() as int
        } else {
            c
        };
        lemma_mono_frame_count(vals.skip(m), c);
        assert(mono_frames(vals, c).len() == 1 + mono_frames(vals.skip(m), c).len());
        assert(vals.skip(m).len() == vals.len() - m);
        if vals.len() < c {
            assert((vals.len() + c - 1) / c == 1) by (nonlinear_arith)
                requires
                    0 < vals.len() < c,
            ;
            assert((0 + c - 1) / c == 0) by (nonlinear_arith)
                requires
                    c > 0,
            ;
        } else {
            let n = vals.len() as int;
            assert((n + c - 1) / c == (n - c + c - 1) / c + 1) by (nonlinear_arith)
                requires
                    n >= c > 0,
            ;
        }
    } else {
        assert((vals.len() + c - 1) / c == 0) by (nonlinear_arith)
            requires
                vals.len() == 0,
                c > 0,
        ;
    }
}

/// The level of a signed 16-bit sample.
pub open spec fn level_i16(x: i16) -> int {
    x as int
}

/// The level of an unsigned 8-bit sample: centred on 128 and scaled to 16 bits.
pub open spec fn level_u8(x: u8) -> int {
    (x - 128) * 256
}

/// The level of an unsigned 16-bit sample: centred on 32768.
pub open spec fn level_u16(x: u16) -> int {
    x - 32768
}

pub open spec fn as_ints(s: Seq<i32>) -> Seq<int> {
    s.map_values(|v: i32| v as int)
}

pub open spec fn in_sample_range(v: int) -> bool {
    -32768 <= v <= 32767
}

proof fn lemma_frame_level_in_range(sum: int, m: int, c: int)
    requires
        1 <= m <= c,
        -32768 * m <= sum <= 32767 * m,
    ensures
        in_sample_range(trunc_div(sum, c)),
{
    assert(32767 * m <= 32767 * c) by (nonlinear_arith)
        requires
            m <= c,
    ;
    assert(32768 * m <= 32768 * c) by (nonlinear_arith)
        requires
            m <= c,
    ;
    if sum >= 0 {
        assert(sum / c <= 32767) by (nonlinear_arith)
            requires
                0 <= sum <= 32767 * c,
                c >= 1,
        ;
        assert(sum / c >= 0) by (nonlinear_arith)
            requires
                0 <= sum,
                c >= 1,
        ;
    } else {
        assert((-sum) / c <= 32768) by (nonlinear_arith)
            requires
                0 <= -sum <= 32768 * c,
                c >= 1,
        ;
        assert((-sum) / c >= 0) by (nonlinear_arith)
            requires
                0 <= -sum,
                c >= 1,
        ;
    }
}

/// Appends the mono mix-down of interleaved levels `vals` of `channels` channels.
fn append_mono(samples: &mut Vec<i16>, vals: &Vec<i32>, channels: u16)
    requires
        channels > 0,
        forall|i: int| 0 <= i < vals@.len() ==> in_sample_range(#[trigger] vals@[i] as int),
    ensures
        final(samples)@ == old(samples)@ + as_samples(mono_frames(as_ints(vals@), channels as int)),
{
    let c = channels as usize;
    let ghost all = as_ints(vals@);
    let ghost start = samples@;
    let mut pos: usize = 0;
    assert(all.skip(0) =~= all);
    while pos < vals.len()
        invariant
            c == channels as usize,
            c > 0,
            pos <= vals@.len(),
            all == as_ints(vals@),
            forall|i: int| 0 <= i < vals@.len() ==> in_sample_range(#[trigger] vals@[i] as int),
            start + as_samples(mono_frames(all, c as int)) == samples@ + as_samples(
                mono_frames(all.skip(pos as int), c as int),
            ),
        decreases vals@.len() - pos,
    {
        let rest = vals.len() - pos;
        let m: usize = if rest < c {
            rest
        } else {
            c
        };
        let end = pos + m;
        let mut sum: i32 = 0;
        let mut j: usize = pos;
        assert(all.subrange(pos as int, pos as int) =~= Seq::<int>::empty());
        while j < end
            invariant
                pos <= j <= end <= vals@.len(),
                end - pos <= c <= 65535,
                all == as_ints(vals@),
                forall|i: int| 0 <= i < vals@.len() ==> in_sample_range(#[trigger] vals@[i] as int),
                sum == seq_sum(all.subrange(pos as int, j as int)),
                -32768 * (j - pos) <= sum <= 32767 * (j - pos),
            decreases end - j,
        {
            assert(all.subrange(pos as int, j + 1).drop_last() =~= all.subrange(pos as int, j as int));
            assert(in_sample_range(vals@[j as int] as int));
            sum = sum + vals[j];
            j = j + 1;
        }
        proof {
            lemma_frame_level_in_range(sum as int, m as int, c as int);
        }
        let level: i32 = if sum >= 0 {
            sum / (c as i32)
        } else {
            -((-sum) / (c as i32))
        };
        assert(level == trunc_div(sum as int, c as int));
        let ghost tail = all.skip(pos as int);
        proof {
            assert(tail.take(m as int) =~= all.subrange(pos as int, end as int));
            assert(tail.skip(m as int) =~= all.skip(end as int));
            assert(mono_frames(tail, c as int) == seq![level as int] + mono_frames(all.skip(end as int), c as int));
            assert(as_samples(seq![level as int] + mono_frames(all.skip(end as int), c as int)) =~= seq![level as i16] + as_samples(mono_frames(all.skip(end as int), c as int)));
            assert(samples@.push(level as i16) + as_samples(mono_frames(all.skip(end as int), c as int)) =~= samples@ + (seq![level as i16] + as_samples(mono_frames(all.skip(end as int), c as int))));
        }
        samples.push(level as i16);
        pos = end;
    }
    proof {
        assert(all.skip(pos as int) =~= Seq::<int>::empty());
        assert(samples@ + as_samples(Seq::<int>::empty()) =~= samples@);
    }
}


/// Appends to `samples` the mono mix-down of a buffer of interleaved signed
/// 16-bit samples of `channels` channels.
pub fn append_mono_i16(samples: &mut Vec<i16>, data: &[i16], channels: u16)
    requires
        channels > 0,
    ensures
        final(samples)@ == old(samples)@ + as_samples(
            mono_frames(data@.map_values(|x: i16| level_i16(x)), channels as int),
        ),
{
    let mut vals: Vec<i32> = Vec::new();
    let mut i: usize = 0;
    while i < data.len()
        invariant
            i <= data@.len(),
            vals@.len() == i,
            forall|k: int| 0 <= k < i ==> #[trigger] vals@[k] as int == level_i16(data@[k]),
        decreases data@.len() - i,
    {
        vals.push(data[i] as i32);
        i = i + 1;
    }
    assert(as_ints(vals@) =~= data@.map_values(|x: i16| level_i16(x)));
    append_mono(samples, &vals, channels);
}

/// Appends to `samples` the mono mix-down of a buffer of interleaved unsigned
/// 8-bit samples of `channels` channels, each centred on 128 and scaled by 256.
pub fn append_mono_u8(samples: &mut Vec<i16>, data: &[u8], channels: u16)
    requires
        channels > 0,
    ensures
        final(samples)@ == old(samples)@ + as_samples(
            mono_frames(data@.map_values(|x: u8| level_u8(x)), channels as int),
        ),
{
    let mut vals: Vec<i32> = Vec::new();
    let mut i: usize = 0;
    while i < data.len()
        invariant
            i <= data@.len(),
            vals@.len() == i,
            forall|k: int| 0 <= k < i ==> #[trigger] vals@[k] as int == level_u8(data@[k]),
        decreases data@.len() - i,
    {
        vals.push(((data[i] as i32) - 128) * 256);
        i = i + 1;
    }
    assert(as_ints(vals@) =~= data@.map_values(|x: u8| level_u8(x)));
    append_mono(samples, &vals, channels);
}

/// Appends to `samples` the mono mix-down of a buffer of interleaved unsigned
/// 16-bit samples of `channels` channels, each centred on 32768.
pub fn append_mono_u16(samples: &mut Vec<i16>, data: &[u16], channels: u16)
    requires
        channels > 0,
    ensures
        final(samples)@ == old(samples)@ + as_samples(
            mono_frames(data@.map_values(|x: u16| level_u16(x)), channels as int),
        ),
{
    let mut vals: Vec<i32> = Vec::new();
    let mut i: usize = 0;
    while i < data.len()
        invariant
            i <= data@.len(),
            vals@.len() == i,
            forall|k: int| 0 <= k < i ==> #[trigger] vals@[k] as int == level_u16(data@[k]),
        decreases data@.len() - i,
    {
        vals.push((data[i] as i32) - 32768);
        i = i + 1;
    }
    assert(as_ints(vals@) =~= data@.map_values(|x: u16| level_u16(x)));
    append_mono(samples, &vals, channels);
}

/// Why a recording could not start.
pub open spec fn already_recording_message() -> Seq<char> {
    "Already recording"@
}

/// A new recording may start only when none is running.
pub fn check_can_start(is_recording: bool) -> (r: Result<(), String>)
    ensures
        is_recording <==> r is Err,
        r matches Err(e) ==> e@ == already_recording_message(),
{
    if is_recording {
        Err(String::from_str("Already recording"))
    } else {
        Ok(())
    }
}

/// What the recording thread reported after it tried to start the stream.
#[derive(Debug)]
pub enum StartSignal {
    Started,
    Failed(String),
    TimedOut,
}

/// The result of starting a recording, by what the recording thread reported,
/// and whether the recorder stays marked as recording.
pub fn start_outcome(signal: StartSignal) -> (r: (bool, Result<(), String>))
    ensures
        match signal {
            StartSignal::Started => r.0 && r.1 is Ok,
            StartSignal::Failed(e) => !r.0 && (r.1 matches Err(m) && m@ == e@),
            StartSignal::TimedOut => !r.0 && (r.1 matches Err(m) && m@ == "Timeout starting recording"@),
        },
{
    match signal {
        StartSignal::Started => (true, Ok(())),
        StartSignal::Failed(e) => (false, Err(e)),
        StartSignal::TimedOut => (false, Err(String::from_str("Timeout starting recording"))),
    }
}

/// Turns the recorded samples into a 16-bit mono WAVE file at `sample_rate`;
/// an error when nothing was recorded.
pub fn finish_recording(samples: &Vec<i16>, sample_rate: u32) -> (r: Result<Vec<u8>, String>)
    requires
        samples@.len() > 0 ==> 0 < sample_rate <= 0x7fff_ffff && samples@.len() <= MAX_WAV_SAMPLES,
    ensures
        samples@.len() == 0 ==> (r matches Err(e) && e@ == "No audio recorded"@),
        samples@.len() > 0 ==> (r matches Ok(w) && w@ == wav_pcm16_mono(sample_rate, samples@)),
{
    if samples.len() == 0 {
        return Err(String::from_str("No audio recorded"));
    }
    encode_wav_mono16(samples, sample_rate)
}


/// The samples captured since a recording started, and the rate they were captured at.
pub struct Recording {
    samples: Vec<i16>,
    sample_rate: u32,
}

impl Recording {
    /// The samples captured so far.
    pub closed spec fn captured(&self) -> Seq<i16> {
        self.samples@
    }

    /// The rate the samples were captured at.
    pub closed spec fn rate(&self) -> u32 {
        self.sample_rate
    }

    /// No samples yet, at 16 kHz.
    pub fn new() -> (r: Self)
        ensures
            r.captured() == Seq::<i16>::empty(),
            r.rate() == TARGET_SAMPLE_RATE,
    {
        Recording { samples: Vec::new(), sample_rate: TARGET_SAMPLE_RATE }
    }

    /// Starts over at `sample_rate`: the samples of earlier recordings are dropped.
    pub fn restart(&mut self, sample_rate: u32)
        ensures
            final(self).captured() == Seq::<i16>::empty(),
            final(self).rate() == sample_rate,
    {
        self.samples.clear();
        self.sample_rate = sample_rate;
    }

    /// The rate the samples are captured at.
    pub fn sample_rate(&self) -> (r: u32)
        ensures
            r == self.rate(),
    {
        self.sample_rate
    }

    /// How many samples were captured.
    pub fn len(&self) -> (n: usize)
        ensures
            n == self.captured().len(),
    {
        self.samples.len()
    }

    /// Appends samples that are mono already.
    pub fn extend(&mut self, data: &[i16])
        ensures
            final(self).captured() == old(self).captured() + data@,
            final(self).rate() == old(self).rate(),
    {
        self.samples.extend_from_slice(data);
    }

    /// Appends the mono mix-down of interleaved signed 16-bit samples.
    pub fn append_i16(&mut self, data: &[i16], channels: u16)
        requires
            channels > 0,
        ensures
            final(self).captured() == old(self).captured() + as_samples(
                mono_frames(data@.map_values(|x: i16| level_i16(x)), channels as int),
            ),
            final(self).rate() == old(self).rate(),
    {
        append_mono_i16(&mut self.samples, data, channels);
    }

    /// Appends the mono mix-down of interleaved unsigned 8-bit samples.
    pub fn append_u8(&mut self, data: &[u8], channels: u16)
        requires
            channels > 0,
        ensures
            final(self).captured() == old(self).captured() + as_samples(
                mono_frames(data@.map_values(|x: u8| level_u8(x)), channels as int),
            ),
            final(self).rate() == old(self).rate(),
    {
        append_mono_u8(&mut self.samples, data, channels);
    }

    /// Appends the mono mix-down of interleaved unsigned 16-bit samples.
    pub fn append_u16(&mut self, data: &[u16], channels: u16)
        requires
            channels > 0,
        ensures
            final(self).captured() == old(self).captured() + as_samples(
                mono_frames(data@.map_values(|x: u16| level_u16(x)), channels as int),
            ),
            final(self).rate() == old(self).rate(),
    {
        append_mono_u16(&mut self.samples, data, channels);
    }

    /// Whether `finish` can encode this recording: nothing captured, or a
    /// rate and a length that a WAVE file can hold.
    pub open spec fn encodable(&self) -> bool {
        self.captured().len() > 0 ==> 0 < self.rate() <= 0x7fff_ffff && self.captured().len()
            <= MAX_WAV_SAMPLES
    }

    /// Whether `finish` can encode this recording.
    pub fn is_encodable(&self) -> (b: bool)
        ensures
            b == self.encodable(),
    {
        self.samples.len() == 0 || (0 < self.sample_rate && self.sample_rate <= 0x7fff_ffff
            && self.samples.len() <= MAX_WAV_SAMPLES)
    }

    /// The recording as a 16-bit mono WAVE file: exactly the captured samples
    /// at the capture rate; an error when nothing was captured. The recording
    /// itself is left as it is.
    pub fn finish(&self) -> (r: Result<Vec<u8>, String>)
        requires
            self.encodable(),
        ensures
            self.captured().len() == 0 ==> (r matches Err(e) && e@ == "No audio recorded"@),
            self.captured().len() > 0 ==> (r matches Ok(w) && w@ == wav_pcm16_mono(
                self.rate(),
                self.captured(),
            )),
    {
        finish_recording(&self.samples, self.sample_rate)
    }
}

} // verus!
