//! Voice-activity detection: the RMS gate of the live scheduler.
//!
//! A microphone chunk goes to the speech engine only when its RMS exceeds
//! 0.01 of full scale — strictly — which suppresses both wasted compute
//! and the hallucinations speech engines produce on silence.  On 16-bit
//! samples, `rms > 0.01` is exactly `10000 * sum(s_i^2) > len * 32768^2`.

use vstd::prelude::*;

use crate::pcm::downmix_spec;
use crate::pcm::resample16_spec;
use crate::recorder::{sum_sq, FULL_SCALE_SQ};

verus! {

/// Whether a chunk carries enough energy to plausibly hold speech: its
/// RMS exceeds 0.01 of full scale, strictly.  An empty chunk never does.
pub open spec fn voice_active(s: Seq<i16>) -> bool {
    s.len() > 0 && 10000 * sum_sq(s) > s.len() * (FULL_SCALE_SQ as int)
}

/// The voice-activity gate, exact over [`voice_active`]: a chunk whose
/// RMS equals the threshold exactly is discarded.
pub fn has_voice_activity(samples: &Vec<i16>) -> (r: bool)
    ensures
        r == voice_active(samples@),
{
    if samples.len() == 0 {
        return false;
    }
    proof {
        lemma_sum_sq_range(samples@);
    }
    let mut sum: u128 = 0;
    let mut i: usize = 0;
    let n = samples.len();
    while i < n
        invariant
            n == samples@.len(),
            i <= n,
            sum == sum_sq(samples@.take(i as int)),
            sum <= i * (FULL_SCALE_SQ as int),
        decreases n - i,
    {
        proof {
            assert(samples@.take(i + 1).drop_last() =~= samples@.take(i as int));
            lemma_sum_sq_range(samples@.take(i + 1));
        }
        let s = samples[i] as i64;
        proof {
            assert(s * s >= 0 && s * s <= FULL_SCALE_SQ as int) by (nonlinear_arith)
                requires
                    -32768 <= s <= 32767,
            ;
        }
        let sq = (s * s) as u128;
        sum = sum + sq;
        i = i + 1;
    }
    proof {
        assert(samples@.take(n as int) =~= samples@);
    }
    let lhs: u128 = 10000 * sum;
    let rhs: u128 = (n as u128) * (FULL_SCALE_SQ as u128);
    lhs > rhs
}

/// Sums of squares are bounded by length times full scale squared.
proof fn lemma_sum_sq_range(samples: Seq<i16>)
    ensures
        0 <= sum_sq(samples) <= samples.len() * (FULL_SCALE_SQ as int),
    decreases samples.len(),
{
    if samples.len() > 0 {
        lemma_sum_sq_range(samples.drop_last());
        let s = samples.last() as int;
        assert(s * s <= FULL_SCALE_SQ as int && s * s >= 0) by (nonlinear_arith)
            requires
                -32768 <= s <= 32767,
        ;
        assert((samples.len() - 1) * (FULL_SCALE_SQ as int) + (FULL_SCALE_SQ as int)
            == samples.len() * (FULL_SCALE_SQ as int)) by (nonlinear_arith);
    }
}

/// What microphone preparation hands the speech engine: the chunk
/// downmixed to mono, resampled to 16 kHz, and screened for voice
/// activity — or nothing, for silence or an unknown device format.
pub open spec fn prepared_mic(s: Seq<i16>, rate: int, ch: int) -> Option<Seq<i16>> {
    if s.len() == 0 || rate < 1 || ch < 1 {
        None
    } else {
        let mono = if ch > 1 {
            downmix_spec(s, ch)
        } else {
            s
        };
        let wide = if rate != 16000 {
            resample16_spec(mono, rate, 16000)
        } else {
            mono
        };
        if voice_active(wide) {
            Some(wide)
        } else {
            None
        }
    }
}

/// Prepare a drained microphone chunk for the speech engine: downmix to
/// mono, resample to 16 kHz, and apply the voice-activity threshold.
/// Returns nothing for an empty chunk, an unknown device format, or a
/// chunk below the threshold.
pub fn prepare_mic_chunk(samples: &Vec<i16>, sample_rate: u32, channels: u32) -> (r: Option<
    Vec<i16>,
>)
    requires
        samples@.len() * 16000 <= usize::MAX,
    ensures
        (match r {
            Some(v) => prepared_mic(samples@, sample_rate as int, channels as int) == Some(v@),
            None => prepared_mic(samples@, sample_rate as int, channels as int) is None,
        }),
{
    if samples.len() == 0 || sample_rate < 1 || channels < 1 {
        return None;
    }
    let mono = if channels > 1 {
        crate::pcm::downmix_to_mono(samples, channels)
    } else {
        dup_i16(samples)
    };
    proof {
        lemma_downmix_len(samples@, channels as int);
    }
    let wide = if sample_rate != 16000 {
        crate::pcm::resample_i16(&mono, sample_rate, 16000)
    } else {
        mono
    };
    if has_voice_activity(&wide) {
        Some(wide)
    } else {
        None
    }
}

/// A mono downmix never has more samples than its input.
proof fn lemma_downmix_len(s: Seq<i16>, ch: int)
    requires
        ch >= 1,
    ensures
        downmix_spec(s, ch).len() <= s.len(),
{
    assert((s.len() + ch - 1) / ch <= s.len()) by (nonlinear_arith)
        requires
            ch >= 1,
            s.len() >= 0,
    ;
}

/// A plain copy.
fn dup_i16(samples: &Vec<i16>) -> (r: Vec<i16>)
    ensures
        r@ =~= samples@,
{
    let mut out: Vec<i16> = Vec::new();
    let mut i: usize = 0;
    let n = samples.len();
    while i < n
        invariant
            n == samples@.len(),
            i <= n,
            out@ =~= samples@.take(i as int),
        decreases n - i,
    {
        out.push(samples[i]);
        proof {
            assert(samples@.take(i + 1) =~= samples@.take(i as int).push(samples@[i as int]));
        }
        i = i + 1;
    }
    proof {
        assert(samples@.take(n as int) =~= samples@);
    }
    out
}

} // verus!
