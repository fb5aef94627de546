use hound::SampleFormat;
use hound::WavSpec;
use hound::WavWriter;
use std::io::Cursor;
use vstd::prelude::*;

verus! {

#[verifier::external_type_specification]
pub struct ExWavSpec(WavSpec);

#[verifier::external_type_specification]
pub struct ExSampleFormat(SampleFormat);

#[verifier::external_type_specification]
#[verifier::external_body]
pub struct ExHoundError(hound::Error);

#[verifier::external_type_specification]
#[verifier::external_body]
#[verifier::reject_recursive_types(T)]
pub struct ExCursor<T>(Cursor<T>);

/// A `hound::WavWriter` writing into a borrowed in-memory buffer, held in a
/// struct of the library because the writer's parameter is bounded by
/// `std::io::Write + Seek`.
#[verifier::external_body]
pub struct WavSink<'a> {
    writer: WavWriter<&'a mut Cursor<Vec<u8>>>,
}

/// The samples written to a sink so far.
pub uninterp spec fn sink_samples(s: WavSink) -> Seq<i16>;

/// The format a sink was created with.
pub uninterp spec fn sink_spec(s: WavSink) -> WavSpec;

/// The bytes that the buffer under a sink (empty when the sink was made)
/// holds once the sink has been finalized or dropped; the same for the sink
/// before and after a write.
pub uninterp spec fn sink_outcome(s: WavSink) -> Seq<u8>;

/// The bytes in a cursor's buffer.
pub uninterp spec fn cursor_bytes(c: Cursor<Vec<u8>>) -> Seq<u8>;

/// The position of a cursor in its buffer.
pub uninterp spec fn cursor_position(c: Cursor<Vec<u8>>) -> u64;

/// The bytes hound stores one sample in.
pub open spec fn bytes_per_sample(spec: WavSpec) -> int {
    ((spec.bits_per_sample as int) + 7) / 8
}

/// The bit depths hound can write.
pub open spec fn supported_depth(spec: WavSpec) -> bool {
    spec.bits_per_sample == 8 || spec.bits_per_sample == 16 || spec.bits_per_sample == 24
        || spec.bits_per_sample == 32
}

/// The header bytes that hound's size field counts (RIFF size minus the first 8 bytes,
/// without data): 36 for the PCM header, 60 for the extensible one.
pub open spec fn header_size(spec: WavSpec) -> int {
    if spec.channels > 2 || spec.bits_per_sample > 16 {
        60
    } else {
        36
    }
}

/// Formats that hound writes with the 44-byte PCM header and 16-bit samples.
pub open spec fn is_pcm16(spec: WavSpec) -> bool {
    spec.bits_per_sample == 16 && 1 <= spec.channels <= 2 && spec.sample_format
        == SampleFormat::Int
}

/// `x` as 2 little-endian bytes (two's complement for negative `x`).
pub open spec fn le16(x: int) -> Seq<u8> {
    seq![(x % 256) as u8, ((x / 256) % 256) as u8]
}

/// `x` as 4 little-endian bytes.
pub open spec fn le32(x: int) -> Seq<u8> {
    seq![
        (x % 256) as u8,
        ((x / 256) % 256) as u8,
        ((x / 65536) % 256) as u8,
        ((x / 16777216) % 256) as u8,
    ]
}

/// Samples as consecutive little-endian 16-bit values.
pub open spec fn sample_bytes(s: Seq<i16>) -> Seq<u8>
    decreases s.len(),
{
    if s.len() == 0 {
        Seq::empty()
    } else {
        sample_bytes(s.drop_last()) + le16(s.last() as int)
    }
}

/// A 16-bit PCM WAVE file of `samples` (interleaved by channel) in format `spec`:
/// the RIFF header, a 16-byte `fmt ` chunk, and a `data` chunk.
pub open spec fn wav_pcm16(spec: WavSpec, samples: Seq<i16>) -> Seq<u8> {
    let data_len: int = 2 * (samples.len() as int);
    seq![82u8, 73, 70, 70] + le32(36 + data_len) + seq![87u8, 65, 86, 69] + seq![
        102u8,
        109,
        116,
        32,
    ] + le32(16) + le16(1) + le16(spec.channels as int) + le32(spec.sample_rate as int) + le32(
        (spec.sample_rate as int) * 2 * (spec.channels as int),
    ) + le16(2 * (spec.channels as int)) + le16(16) + seq![100u8, 97, 116, 97] + le32(data_len)
        + sample_bytes(samples)
}

/// The format of a mono 16-bit recording at `sample_rate`.
pub open spec fn mono16_spec(sample_rate: u32) -> WavSpec {
    WavSpec { channels: 1, sample_rate, bits_per_sample: 16, sample_format: SampleFormat::Int }
}

/// A mono 16-bit PCM WAVE file of `samples` at `sample_rate`.
pub open spec fn wav_pcm16_mono(sample_rate: u32, samples: Seq<i16>) -> Seq<u8> {
    wav_pcm16(mono16_spec(sample_rate), samples)
}

/// `std::io::Cursor::new`: a cursor at position 0 over the buffer `v`.
#[verifier::external_body]
fn cursor_new(v: Vec<u8>) -> (c: Cursor<Vec<u8>>)
    ensures
        cursor_bytes(c) == v@,
        cursor_position(c) == 0,
{
    Cursor::new(v)
}

/// `std::io::Cursor::into_inner`: the buffer under the cursor.
#[verifier::external_body]
fn cursor_into_inner(c: Cursor<Vec<u8>>) -> (v: Vec<u8>)
    ensures
        v@ == cursor_bytes(c),
{
    c.into_inner()
}

/// `hound::WavWriter::new`: writes the WAVE header for `spec` into the buffer.
/// It fails for a bit depth other than 8, 16, 24 or 32, and panics (the
/// cases `requires` leaves out) on arithmetic overflow, a zero sample rate,
/// or a float format of fewer than 32 bits; a writer of no channels panics
/// when it is finalized or dropped. The cursor must be empty and at position
/// 0, where writing into it does not fail, so a supported depth gives a sink;
/// what the cursor's buffer holds once the sink's borrow ends is the sink's
/// outcome.
#[verifier::external_body]
fn wav_writer_new<'a>(c: &'a mut Cursor<Vec<u8>>, spec: WavSpec) -> (r: Result<WavSink<'a>, hound::Error>)
    requires
        cursor_bytes(*old(c)).len() == 0,
        cursor_position(*old(c)) == 0,
        spec.bits_per_sample <= 65528,
        spec.channels > 0,
        supported_depth(spec) ==> {
            &&& spec.sample_rate > 0
            &&& (spec.sample_rate as int) * bytes_per_sample(spec) * (spec.channels as int) <= u32::MAX
            &&& spec.sample_format == SampleFormat::Float ==> spec.bits_per_sample == 32
        },
    ensures
        supported_depth(spec) <==> r is Ok,
        r matches Ok(s) ==> {
            &&& sink_samples(s) == Seq::<i16>::empty()
            &&& sink_spec(s) == spec
            &&& cursor_bytes(*final(c)) == sink_outcome(s)
        },
{
    match WavWriter::new(c, spec) {
        Ok(writer) => Ok(WavSink { writer }),
        Err(e) => Err(e),
    }
}

/// `hound::WavWriter::write_sample` for an `i16`: appends the sample to the data
/// chunk. Its byte counter is a `u32`; `requires` keeps it from overflowing.
/// A 16-bit sample is written as is, into a buffer where writing does not fail.
#[verifier::external_body]
fn wav_write_sample<'a>(w: &mut WavSink<'a>, s: i16) -> (r: Result<(), hound::Error>)
    requires
        (sink_samples(*old(w)).len() + 1) * bytes_per_sample(sink_spec(*old(w))) <= u32::MAX,
    ensures
        sink_spec(*final(w)) == sink_spec(*old(w)),
        sink_outcome(*final(w)) == sink_outcome(*old(w)),
        sink_spec(*old(w)).bits_per_sample == 16 ==> r is Ok,
        r is Ok ==> sink_samples(*final(w)) == sink_samples(*old(w)).push(s),
{
    w.writer.write_sample(s)
}

/// `hound::WavWriter::finalize`: writes the RIFF and data sizes into the header
/// and flushes. The file size is a `u32`; `requires` keeps it from overflowing.
/// With one channel no sample is left unfinished, and the in-memory buffer
/// does not fail, so it succeeds; the buffer then holds the 16-bit PCM file.
#[verifier::external_body]
fn wav_finalize<'a>(w: WavSink<'a>) -> (r: Result<(), hound::Error>)
    requires
        (sink_samples(w).len()) * bytes_per_sample(sink_spec(w)) + header_size(sink_spec(w)) <= u32::MAX,
    ensures
        sink_spec(w).channels == 1 ==> r is Ok,
        r is Ok && is_pcm16(sink_spec(w)) ==> sink_outcome(w) == wav_pcm16(
            sink_spec(w),
            sink_samples(w),
        ),
{
    w.writer.finalize()
}

/// `hound::Error`'s message, by its `Display` impl.
#[verifier::external_body]
fn hound_error_text(e: &hound::Error) -> (t: String) {
    e.to_string()
}

/// The largest number of samples a 16-bit mono WAVE file can hold.
pub const MAX_WAV_SAMPLES: usize = 2_147_483_629;

/// Encodes `samples` as a 16-bit mono PCM WAVE file at `sample_rate`, with hound.
pub fn encode_wav_mono16(samples: &Vec<i16>, sample_rate: u32) -> (r: Result<Vec<u8>, String>)
    requires
        0 < sample_rate <= 0x7fff_ffff,
        samples@.len() <= MAX_WAV_SAMPLES,
    ensures
        r matches Ok(w) && w@ == wav_pcm16_mono(sample_rate, samples@),
{
    let spec = WavSpec { channels: 1, sample_rate, bits_per_sample: 16, sample_format: SampleFormat::Int };
    assert(bytes_per_sample(spec) == 2);
    assert(header_size(spec) == 36);
    let mut cursor = cursor_new(Vec::new());
    let ghost outcome: Seq<u8>;
    {
        let mut w = match wav_writer_new(&mut cursor, spec) {
            Ok(w) => w,
            Err(e) => {
                return Err(hound_error_text(&e));
            },
        };
        proof {
            outcome = sink_outcome(w);
        }
        let mut i: usize = 0;
        while i < samples.len()
            invariant
                i <= samples@.len() <= MAX_WAV_SAMPLES,
                sink_spec(w) == spec,
                sink_samples(w) == samples@.take(i as int),
                sink_outcome(w) == outcome,
                bytes_per_sample(spec) == 2,
                spec == mono16_spec(sample_rate),
            decreases samples.len() - i,
        {
            assert(sink_spec(w).bits_per_sample == 16);
            match wav_write_sample(&mut w, samples[i]) {
                Ok(()) => {},
                Err(e) => {
                    return Err(hound_error_text(&e));
                },
            }
            assert(samples@.take(i + 1) =~= samples@.take(i as int).push(samples@[i as int]));
            i = i + 1;
        }
        assert(samples@.take(i as int) =~= samples@);
        match wav_finalize(w) {
            Ok(()) => {},
            Err(e) => {
                return Err(hound_error_text(&e));
            },
        }
        assert(outcome == wav_pcm16_mono(sample_rate, samples@));
    }
    assert(cursor_bytes(cursor) == outcome);
    Ok(cursor_into_inner(cursor))
}

} // verus!
