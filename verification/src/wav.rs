//! WAV encoding and decoding, and the offline mixer.
//!
//! The codec itself is the `hound` crate, called on in-memory byte
//! buffers; reading and writing the files is the caller's business.  The
//! mixer decodes two 16-bit PCM WAVs, brings the second to the first's
//! channel count and sample rate, averages the two streams over the
//! longer length — the halving prevents clipping at the price of 6 dB of
//! headroom — and encodes the result with the first input's format.

use vstd::prelude::*;

use crate::errors::AudioError;
use crate::pcm::{
    mix_average, mix_spec, narrow_samples, narrowed, normalize_channels, normalize_spec,
    resample16_spec, resample_i16, widen_samples, widened,
};

verus! {

/// The shape of a decoded WAV: its channel count and sample rate; the
/// sample format is always 16-bit integer PCM here.
#[derive(Debug, Clone, Copy, PartialEq, Eq, Structural)]
pub struct WavInfo {
    pub channels: u16,
    pub sample_rate: u32,
}

/// What `hound` decodes a WAV byte stream to: its channel count, sample
/// rate and 16-bit samples — or nothing, where the bytes are no WAV of
/// 16-bit-or-narrower integer PCM.  A function of the bytes alone.
pub uninterp spec fn wav_decoded(bytes: Seq<u8>) -> Option<(u16, u32, Seq<i16>)>;

/// What `hound` encodes a 16-bit PCM stream to, headers included.  A
/// function of the format and samples alone.
pub uninterp spec fn wav_bytes_of(channels: u16, sample_rate: u32, samples: Seq<i16>) -> Seq<u8>;

/// Relies on `hound::WavReader::new` and `WavSamples` on an in-memory
/// buffer: parse the RIFF header and decode every sample as `i16`, which
/// `hound` refuses for float and wider-than-16-bit formats.  The read
/// path rejects zero channels and a data length that is not a multiple
/// of the channel count, so a decoded stream always has both.
#[verifier::external_body]
pub fn decode_wav_bytes(bytes: &Vec<u8>) -> (r: Result<(WavInfo, Vec<i16>), AudioError>)
    ensures
        (r matches Ok((info, samples)) ==> wav_decoded(bytes@) == Some(
            (info.channels, info.sample_rate, samples@),
        )),
        (r matches Ok((info, samples)) ==> info.channels >= 1 && (samples@.len() as int) % (
        info.channels as int) == 0),
        (r is Err ==> wav_decoded(bytes@) is None),
{
    let cursor = std::io::Cursor::new(bytes.as_slice());
    let mut reader = hound::WavReader::new(cursor).map_err(|e| AudioError::WavError(e.to_string()))?;
    let spec = reader.spec();
    let samples = reader.samples::<i16>().collect::<Result<Vec<i16>, _>>().map_err(|e| AudioError::WavError(e.to_string()))?;
    Ok((WavInfo { channels: spec.channels, sample_rate: spec.sample_rate }, samples))
}

/// Relies on `hound::WavWriter::new`, `write_sample` and `finalize` on an
/// in-memory buffer: write a 16-bit integer PCM WAV with correct header
/// lengths.  The requires keep out the inputs on which `hound` aborts —
/// its header write divides by the sample rate, its finalize takes a
/// remainder by the channel count, and its byte counters are 32-bit —
/// and under them the write fails only when the sample count is not a
/// multiple of the channel count, `hound`'s unfinished-frame rule.
#[verifier::external_body]
pub fn encode_wav_bytes(channels: u16, sample_rate: u32, samples: &Vec<i16>) -> (r: Result<
    Vec<u8>,
    AudioError,
>)
    requires
        channels >= 1,
        sample_rate >= 1,
        (sample_rate as int) * 2 * (channels as int) <= u32::MAX,
        samples@.len() * 2 + 60 <= u32::MAX,
    ensures
        (r is Ok <==> (samples@.len() as int) % (channels as int) == 0),
        (r matches Ok(bytes) ==> bytes@ == wav_bytes_of(channels, sample_rate, samples@)),
{
    let spec = hound::WavSpec { channels, sample_rate, bits_per_sample: 16, sample_format: hound::SampleFormat::Int };
    let mut cursor = std::io::Cursor::new(Vec::new());
    let mut writer = hound::WavWriter::new(&mut cursor, spec).map_err(|e| AudioError::WavError(e.to_string()))?;
    for s in samples.iter() {
        writer.write_sample(*s).map_err(|e| AudioError::WavError(e.to_string()))?;
    }
    writer.finalize().map_err(|e| AudioError::WavError(e.to_string()))?;
    Ok(cursor.into_inner())
}

/// The mixed stream of two decoded WAVs: the second normalized to the
/// first's channel count, resampled to the first's rate, then the two
/// averaged over the longer length with the shorter padded by silence.
pub open spec fn mixed_pcm(
    sa: Seq<i16>,
    ca: int,
    ra: int,
    sb: Seq<i16>,
    cb: int,
    rb: int,
) -> Seq<i16> {
    let bn = narrowed(normalize_spec(widened(sb), cb, ca));
    let br = resample16_spec(bn, rb, ra);
    mix_spec(sa, br)
}

/// When mixing two decoded WAVs succeeds: both sample rates read as
/// positive, the byte rate and the output byte count fit the format's
/// 32-bit fields, the resampled second stream fits in memory, and the
/// mixed sample count is a whole number of the first input's frames.
pub open spec fn mix_admissible(
    sa: Seq<i16>,
    ca: int,
    ra: int,
    sb: Seq<i16>,
    cb: int,
    rb: int,
) -> bool {
    let bn = narrowed(normalize_spec(widened(sb), cb, ca));
    let mixed = mixed_pcm(sa, ca, ra, sb, cb, rb);
    &&& ra >= 1
    &&& rb >= 1
    &&& ra * 2 * ca <= u32::MAX
    &&& (bn.len() as int) * ra <= usize::MAX
    &&& (mixed.len() as int) * 2 + 60 <= u32::MAX
    &&& (mixed.len() as int) % ca == 0
}

/// Mix two WAVs into one: decode both, bring the second to the first's
/// format, average the two streams — the shorter padded with silence, so
/// the output holds exactly the longer stream's sample count — and encode
/// at the first input's channel count and sample rate.  Succeeds exactly
/// on admissible inputs: both inputs 16-bit PCM WAVs with positive rates,
/// the sizes within the format's and the machine's bounds, and the mixed
/// stream a whole number of output frames.
pub fn mix_wav_bytes(file_a: &Vec<u8>, file_b: &Vec<u8>) -> (r: Result<Vec<u8>, AudioError>)
    ensures
        (match (wav_decoded(file_a@), wav_decoded(file_b@)) {
            (Some((ca, ra, sa)), Some((cb, rb, sb))) => {
                &&& (r is Ok <==> mix_admissible(
                    sa,
                    ca as int,
                    ra as int,
                    sb,
                    cb as int,
                    rb as int,
                ))
                &&& (r matches Ok(out) ==> out@ == wav_bytes_of(
                    ca,
                    ra,
                    mixed_pcm(sa, ca as int, ra as int, sb, cb as int, rb as int),
                ))
            },
            _ => r is Err,
        }),
{
    let (info_a, samples_a) = match decode_wav_bytes(file_a) {
        Ok(p) => p,
        Err(e) => {
            return Err(e);
        },
    };
    let (info_b, samples_b) = match decode_wav_bytes(file_b) {
        Ok(p) => p,
        Err(e) => {
            return Err(e);
        },
    };
    if info_a.sample_rate < 1 || info_b.sample_rate < 1 {
        return Err(AudioError::UnsupportedFormat);
    }
    proof {
        assert((info_a.sample_rate as int) * 2 * (info_a.channels as int) <= 0x200000000int
            * 0x10000) by (nonlinear_arith)
            requires
                0 <= info_a.sample_rate as int <= 0xffffffffu64,
                0 <= info_a.channels as int <= 0xffffu64,
        ;
    }
    if (info_a.sample_rate as u64) * 2 * (info_a.channels as u64) > (u32::MAX as u64) {
        return Err(AudioError::UnsupportedFormat);
    }
    let wide_b = widen_samples(&samples_b);
    let norm_b = normalize_channels(&wide_b, info_b.channels, info_a.channels);
    let narrow_b = narrow_samples(&norm_b);
    let nb = narrow_b.len();
    proof {
        assert((nb as int) * (info_a.sample_rate as int) <= 0x10000000000000000int
            * 0x100000000) by (nonlinear_arith)
            requires
                0 <= nb as int <= usize::MAX,
                0 <= info_a.sample_rate as int <= 0xffffffffu64,
        ;
    }
    if (nb as u128) * (info_a.sample_rate as u128) > (usize::MAX as u128) {
        return Err(AudioError::UnsupportedFormat);
    }
    let resampled_b = resample_i16(&narrow_b, info_b.sample_rate, info_a.sample_rate);
    let mixed = mix_average(&samples_a, &resampled_b);
    let ml = mixed.len();
    if (ml as u128) * 2 + 60 > (u32::MAX as u128) {
        return Err(AudioError::UnsupportedFormat);
    }
    encode_wav_bytes(info_a.channels, info_a.sample_rate, &mixed)
}

} // verus!
