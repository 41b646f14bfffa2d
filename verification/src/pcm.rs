//! PCM sample processing: channel normalization, mono downmix, linear
//! resampling, decimation, interleaving and averaging.
//!
//! Samples are integers on the 16-bit PCM scale; intermediate arithmetic
//! widens as needed and divisions truncate toward zero, like Rust's.

use vstd::prelude::*;
use vstd::arithmetic::div_mod::{lemma_fundamental_div_mod, lemma_div_is_ordered};

verus! {

/// Division truncating toward zero, as Rust's `/` on signed integers.
pub open spec fn trunc_div(a: int, b: int) -> int {
    if a >= 0 {
        a / b
    } else {
        -((-a) / b)
    }
}

/// Rust's signed division is `trunc_div`.
pub fn div_i64(a: i64, b: i64) -> (r: i64)
    requires
        b > 0,
        a > i64::MIN,
    ensures
        r == trunc_div(a as int, b as int),
{
    a / b
}

/// The channel-normalized samples: mono to stereo duplicates each sample,
/// stereo to mono averages each pair (a lone trailing sample is kept as
/// is), and any other combination leaves the samples alone.
pub open spec fn normalize_spec(s: Seq<i32>, from: int, to: int) -> Seq<i32> {
    if from == to {
        s
    } else if from == 1 && to == 2 {
        Seq::new(s.len() * 2, |i: int| s[i / 2])
    } else if from == 2 && to == 1 {
        Seq::new(
            (s.len() + 1) / 2,
            |i: int|
                if 2 * i + 1 < s.len() {
                    trunc_div(s[2 * i] + s[2 * i + 1], 2) as i32
                } else {
                    s[2 * i]
                },
        )
    } else {
        s
    }
}

/// Convert between mono and stereo; other channel pairs pass through.
pub fn normalize_channels(samples: &Vec<i32>, from_channels: u16, to_channels: u16) -> (r: Vec<
    i32,
>)
    ensures
        r@ =~= normalize_spec(samples@, from_channels as int, to_channels as int),
{
    if from_channels == to_channels {
        return copy_i32(samples);
    }
    if from_channels == 1 && to_channels == 2 {
        let mut out: Vec<i32> = Vec::new();
        let mut i: usize = 0;
        let n = samples.len();
        while i < n
            invariant
                n == samples@.len(),
                i <= n,
                out@.len() == 2 * i,
                forall|j: int| 0 <= j < 2 * i ==> out@[j] == samples@[j / 2],
            decreases n - i,
        {
            out.push(samples[i]);
            out.push(samples[i]);
            i = i + 1;
        }
        return out;
    }
    if from_channels == 2 && to_channels == 1 {
        let mut out: Vec<i32> = Vec::new();
        let mut i: usize = 0;
        let n = samples.len();
        while i + 1 < n
            invariant
                n == samples@.len(),
                2 * out@.len() == i,
                i <= n,
                forall|j: int|
                    0 <= j < out@.len() ==> #[trigger] out@[j] == (trunc_div(
                        samples@[2 * j] + samples@[2 * j + 1],
                        2,
                    ) as i32),
            decreases n - i,
        {
            let a = samples[i] as i64;
            let b = samples[i + 1] as i64;
            let m = div_i64(a + b, 2);
            proof {
                assert(i32::MIN <= trunc_div(a as int + b as int, 2) <= i32::MAX);
            }
            out.push(m as i32);
            i = i + 2;
        }
        if i < n {
            out.push(samples[i]);
        }
        proof {
            assert(out@ =~= normalize_spec(samples@, 2, 1));
        }
        return out;
    }
    copy_i32(samples)
}

/// A plain copy.
fn copy_i32(samples: &Vec<i32>) -> (r: Vec<i32>)
    ensures
        r@ =~= samples@,
{
    let mut out: Vec<i32> = Vec::new();
    let mut i: usize = 0;
    let n = samples.len();
    while i < n
        invariant
            n == samples@.len(),
            i <= n,
            out@ =~= samples@.take(i as int),
        decreases n - i,
    {
        out.push(samples[i]);
        proof {
            assert(samples@.take(i + 1) =~= samples@.take(i as int).push(samples@[i as int]));
        }
        i = i + 1;
    }
    proof {
        assert(samples@.take(n as int) =~= samples@);
    }
    out
}

/// Sum of a sample window, for channel averaging.
pub open spec fn window_sum(s: Seq<i16>, from: int, to: int) -> int
    decreases to - from,
{
    if from >= to {
        0
    } else {
        window_sum(s, from, to - 1) + s[to - 1]
    }
}

/// The mono downmix: each frame of `ch` samples becomes their average,
/// truncating toward zero; a final partial frame is averaged over its own
/// length.
pub open spec fn downmix_spec(s: Seq<i16>, ch: int) -> Seq<i16> {
    Seq::new(
        (((s.len() + ch - 1) / ch) as nat),
        |i: int|
            {
                let from = i * ch;
                let to = if (i + 1) * ch < s.len() {
                    (i + 1) * ch
                } else {
                    s.len() as int
                };
                trunc_div(window_sum(s, from, to), to - from) as i16
            },
    )
}

/// A window sum is bounded by the window's width times full scale.
proof fn lemma_window_sum_bounds(s: Seq<i16>, from: int, to: int)
    requires
        0 <= from <= to <= s.len(),
    ensures
        -(to - from) * 32768 <= window_sum(s, from, to) <= (to - from) * 32767,
    decreases to - from,
{
    if from < to {
        lemma_window_sum_bounds(s, from, to - 1);
        assert(-(to - 1 - from) * 32768 - 32768 == -(to - from) * 32768) by (nonlinear_arith);
        assert((to - 1 - from) * 32767 + 32767 == (to - from) * 32767) by (nonlinear_arith);
    }
}

/// Average every frame of `channels` samples into one: mono downmix.
pub fn downmix_to_mono(samples: &Vec<i16>, channels: u32) -> (r: Vec<i16>)
    requires
        channels >= 1,
    ensures
        r@ =~= downmix_spec(samples@, channels as int),
{
    let ch = channels as usize;
    let n = samples.len();
    let mut out: Vec<i16> = Vec::new();
    let mut i: usize = 0;
    proof {
        assert(out@.len() == 0);
        assert(out@.len() * (ch as int) == 0) by (nonlinear_arith)
            requires
                out@.len() == 0,
        ;
    }
    while i < n
        invariant
            n == samples@.len(),
            ch == channels,
            ch >= 1,
            i <= n,
            forall|j: int|
                0 <= j < out@.len() ==> #[trigger] out@[j] == downmix_spec(
                    samples@,
                    ch as int,
                )[j],
            (i as int == out@.len() * (ch as int)) || (i == n && out@.len() as int == (n + ch
                - 1) / (ch as int)),
        decreases n - i,
    {
        proof {
            assert(i as int == out@.len() * (ch as int));
        }
        let to = if n - i < ch {
            n
        } else {
            i + ch
        };
        let mut sum: i64 = 0;
        let mut k: usize = i;
        while k < to
            invariant
                n == samples@.len(),
                i <= k <= to <= n,
                to <= i + ch,
                ch <= u32::MAX,
                sum == window_sum(samples@, i as int, k as int),
                -((k - i) as int) * 32768 <= sum <= ((k - i) as int) * 32767,
            decreases to - k,
        {
            proof {
                assert(window_sum(samples@, i as int, k + 1) == window_sum(
                    samples@,
                    i as int,
                    k as int,
                ) + samples@[k as int]);
                assert(((k + 1 - i) as int) * 32768 <= 0x100000000i64 * 32768)
                    by (nonlinear_arith)
                    requires
                        k + 1 - i <= 0x100000000i64,
                ;
                assert(((k - i) as int) * 32768 + 32768 == ((k + 1 - i) as int) * 32768)
                    by (nonlinear_arith);
                assert(((k - i) as int) * 32767 + 32767 == ((k + 1 - i) as int) * 32767)
                    by (nonlinear_arith);
            }
            sum = sum + (samples[k] as i64);
            k = k + 1;
        }
        let width = (to - i) as i64;
        let avg = div_i64(sum, width);
        proof {
            assert(-32768 <= trunc_div(sum as int, width as int) <= 32767) by (nonlinear_arith)
                requires
                    width >= 1,
                    -(width as int) * 32768 <= sum <= (width as int) * 32767,
                    trunc_div(sum as int, width as int) == (if sum >= 0 {
                        sum as int / width as int
                    } else {
                        -((-(sum as int)) / (width as int))
                    }),
            ;
        }
        let ghost prev_len = out@.len() as int;
        out.push(avg as i16);
        proof {
            let d = downmix_spec(samples@, ch as int);
            assert(prev_len * ch + ch == (prev_len + 1) * (ch as int)) by (nonlinear_arith);
            assert(prev_len < (n + ch - 1) / (ch as int)) by (nonlinear_arith)
                requires
                    ch >= 1,
                    prev_len * ch == i,
                    i < n,
                    prev_len >= 0,
            ;
            let to_s = if (prev_len + 1) * (ch as int) < n {
                (prev_len + 1) * (ch as int)
            } else {
                n as int
            };
            assert(to == to_s);
            assert(d[prev_len] == trunc_div(
                window_sum(samples@, prev_len * ch, to_s),
                to_s - prev_len * ch,
            ) as i16);
            assert(out@.last() == d[prev_len]);
            if to == i + ch {
                assert(to as int == out@.len() * (ch as int));
            } else {
                assert(i < n < i + ch);
                assert(out@.len() as int == (n + ch - 1) / (ch as int)) by (nonlinear_arith)
                    requires
                        ch >= 1,
                        prev_len * ch == i,
                        i < n,
                        n < i + ch,
                        out@.len() == prev_len + 1,
                ;
            }
        }
        i = to;
    }
    proof {
        if i as int == out@.len() * (ch as int) {
            assert(out@.len() as int == (n + ch - 1) / (ch as int)) by (nonlinear_arith)
                requires
                    ch >= 1,
                    out@.len() * ch == n,
            ;
        }
        assert(out@ =~= downmix_spec(samples@, ch as int));
    }
    out
}

/// Rust's signed division on `i128` is `trunc_div`.
fn div_i128(a: i128, b: i128) -> (r: i128)
    requires
        b > 0,
        a > i128::MIN,
    ensures
        r == trunc_div(a as int, b as int),
{
    a / b
}

/// A plain copy.
fn copy_i16(samples: &Vec<i16>) -> (r: Vec<i16>)
    ensures
        r@ =~= samples@,
{
    let mut out: Vec<i16> = Vec::new();
    let mut i: usize = 0;
    let n = samples.len();
    while i < n
        invariant
            n == samples@.len(),
            i <= n,
            out@ =~= samples@.take(i as int),
        decreases n - i,
    {
        out.push(samples[i]);
        proof {
            assert(samples@.take(i + 1) =~= samples@.take(i as int).push(samples@[i as int]));
        }
        i = i + 1;
    }
    proof {
        assert(samples@.take(n as int) =~= samples@);
    }
    out
}

/// The linear interpolation a resampled stream holds at output index `i`:
/// between the two source samples around `i * from / to`, weighted by the
/// fractional position, with divisions truncating toward zero.
pub open spec fn lerp16(s: Seq<i16>, from: int, to: int, i: int) -> int {
    let num = i * from;
    let idx0 = num / to;
    let rem = num % to;
    let idx1 = if idx0 + 1 < s.len() {
        idx0 + 1
    } else {
        s.len() - 1
    };
    s[idx0] + trunc_div((s[idx1] - s[idx0]) * rem, to)
}

/// The stream resampled from `from` Hz to `to` Hz by linear
/// interpolation; its length is `len * to / from`.
pub open spec fn resample16_spec(s: Seq<i16>, from: int, to: int) -> Seq<i16> {
    if from == to {
        s
    } else {
        Seq::new(((s.len() * to / from) as nat), |i: int| lerp16(s, from, to, i) as i16)
    }
}

/// Each output index of a resampling reads source indices in bounds.
proof fn lemma_resample_idx(len: int, from: int, to: int, i: int)
    requires
        from >= 1,
        to >= 1,
        0 <= i < len * to / from,
    ensures
        i * from < len * to,
        0 <= i * from / to < len,
        0 <= i * from % to < to,
        len >= 1,
    decreases 0int,
{
    let q = len * to / from;
    lemma_fundamental_div_mod(len * to, from);
    let r2 = len * to % from;
    assert(len * to == from * q + r2);
    assert(i * from <= (q - 1) * from) by (nonlinear_arith)
        requires
            i <= q - 1,
            from >= 1,
    ;
    assert((q - 1) * from == from * q - from) by (nonlinear_arith);
    assert(i * from < len * to);
    lemma_fundamental_div_mod(i * from, to);
    let idx0 = i * from / to;
    let rem = i * from % to;
    assert(i * from == to * idx0 + rem);
    assert(i * from >= 0) by (nonlinear_arith)
        requires
            i >= 0,
            from >= 1,
    ;
    assert(idx0 >= 0) by (nonlinear_arith)
        requires
            to * idx0 + rem >= 0,
            0 <= rem < to,
            to >= 1,
    ;
    assert(idx0 < len) by (nonlinear_arith)
        requires
            to * idx0 + rem < len * to,
            0 <= rem < to,
            to >= 1,
    ;
    assert(len >= 1);
}

/// Resample by linear interpolation, `from` Hz to `to` Hz.
pub fn resample_i16(samples: &Vec<i16>, from_rate: u32, to_rate: u32) -> (r: Vec<i16>)
    requires
        from_rate >= 1,
        to_rate >= 1,
        samples@.len() * to_rate <= usize::MAX,
    ensures
        r@ =~= resample16_spec(samples@, from_rate as int, to_rate as int),
{
    if from_rate == to_rate {
        return copy_i16(samples);
    }
    let n = samples.len();
    let from = from_rate as usize;
    let to = to_rate as usize;
    proof {
        assert(n * to == samples@.len() * to_rate);
    }
    let out_len = (n * to) / from;
    let mut out: Vec<i16> = Vec::new();
    let mut i: usize = 0;
    while i < out_len
        invariant
            n == samples@.len(),
            from == from_rate,
            to == to_rate,
            from >= 1,
            to >= 1,
            from != to,
            n * to <= usize::MAX,
            out_len == n * to / (from as int),
            i <= out_len,
            out@.len() == i,
            forall|j: int|
                0 <= j < i ==> #[trigger] out@[j] == (lerp16(
                    samples@,
                    from as int,
                    to as int,
                    j,
                ) as i16),
        decreases out_len - i,
    {
        proof {
            lemma_resample_idx(n as int, from as int, to as int, i as int);
        }
        let num: usize = i * from;
        let idx0: usize = num / to;
        let rem: usize = num % to;
        let idx1: usize = if idx0 + 1 < n {
            idx0 + 1
        } else {
            n - 1
        };
        let s0 = samples[idx0] as i128;
        let s1 = samples[idx1] as i128;
        proof {
            assert(-65535 <= s1 - s0 <= 65535);
            assert(-65535 * (rem as int) <= (s1 - s0) * (rem as int) <= 65535 * (rem as int))
                by (nonlinear_arith)
                requires
                    -65535 <= s1 - s0 <= 65535,
                    rem >= 0,
            ;
            assert(65535 * (rem as int) < 65535 * 0x100000000) by (nonlinear_arith)
                requires
                    rem < 0x100000000,
            ;
        }
        let t = div_i128((s1 - s0) * (rem as i128), to as i128);
        proof {
            assert((if s1 - s0 >= 0 {
                0 <= trunc_div((s1 - s0) * (rem as int), to as int) <= s1 - s0
            } else {
                s1 - s0 <= trunc_div((s1 - s0) * (rem as int), to as int) <= 0
            })) by (nonlinear_arith)
                requires
                    0 <= rem < to,
                    to >= 1,
                    trunc_div((s1 - s0) * (rem as int), to as int) == (if (s1 - s0) * (
                    rem as int) >= 0 {
                        (s1 - s0) * (rem as int) / (to as int)
                    } else {
                        -((-((s1 - s0) * (rem as int))) / (to as int))
                    }),
            ;
        }
        let v = s0 + t;
        proof {
            assert(-32768 <= v <= 32767);
            assert(v == lerp16(samples@, from as int, to as int, i as int));
        }
        out.push(v as i16);
        i = i + 1;
    }
    proof {
        assert(out@ =~= resample16_spec(samples@, from_rate as int, to_rate as int));
    }
    out
}

/// A sample clamped into the 16-bit range.
pub open spec fn clamp16(v: int) -> int {
    if v > 32767 {
        32767
    } else if v < -32768 {
        -32768
    } else {
        v
    }
}

/// The widened samples.
pub open spec fn widened(s: Seq<i16>) -> Seq<i32> {
    s.map_values(|v: i16| v as i32)
}

/// The narrowed samples, clamped into the 16-bit range.
pub open spec fn narrowed(s: Seq<i32>) -> Seq<i16> {
    s.map_values(|v: i32| clamp16(v as int) as i16)
}

/// Widen 16-bit samples to 32-bit.
pub fn widen_samples(s: &Vec<i16>) -> (r: Vec<i32>)
    ensures
        r@ =~= widened(s@),
{
    let mut out: Vec<i32> = Vec::new();
    let mut i: usize = 0;
    let n = s.len();
    while i < n
        invariant
            n == s@.len(),
            i <= n,
            out@.len() == i,
            forall|j: int| 0 <= j < i ==> #[trigger] out@[j] == s@[j] as i32,
        decreases n - i,
    {
        out.push(s[i] as i32);
        i = i + 1;
    }
    out
}

/// Narrow 32-bit samples to 16-bit, clamping at the rails.
pub fn narrow_samples(s: &Vec<i32>) -> (r: Vec<i16>)
    ensures
        r@ =~= narrowed(s@),
{
    let mut out: Vec<i16> = Vec::new();
    let mut i: usize = 0;
    let n = s.len();
    while i < n
        invariant
            n == s@.len(),
            i <= n,
            out@.len() == i,
            forall|j: int| 0 <= j < i ==> #[trigger] out@[j] == clamp16(s@[j] as int) as i16,
        decreases n - i,
    {
        let v = s[i];
        let c: i16 = if v > 32767 {
            32767
        } else if v < -32768 {
            -32768
        } else {
            v as i16
        };
        out.push(c);
        i = i + 1;
    }
    out
}

/// The average mix of two streams: over the longer of the two lengths,
/// each output sample is the truncated mean of the two inputs, a missing
/// sample counting as silence.
pub open spec fn mix_spec(a: Seq<i16>, b: Seq<i16>) -> Seq<i16> {
    Seq::new(
        if a.len() > b.len() {
            a.len()
        } else {
            b.len()
        },
        |i: int|
            {
                let x: int = if i < a.len() {
                    a[i] as int
                } else {
                    0
                };
                let y: int = if i < b.len() {
                    b[i] as int
                } else {
                    0
                };
                trunc_div(x + y, 2) as i16
            },
    )
}

/// Mix two streams by averaging, the shorter padded with silence: the
/// output has exactly `max(len_a, len_b)` samples, and past the shorter
/// stream's end it is the longer stream at half amplitude.
pub fn mix_average(a: &Vec<i16>, b: &Vec<i16>) -> (r: Vec<i16>)
    ensures
        r@ =~= mix_spec(a@, b@),
        r@.len() == (if a@.len() > b@.len() {
            a@.len()
        } else {
            b@.len()
        }),
{
    let n = if a.len() > b.len() {
        a.len()
    } else {
        b.len()
    };
    let mut out: Vec<i16> = Vec::new();
    let mut i: usize = 0;
    while i < n
        invariant
            n == (if a@.len() > b@.len() {
                a@.len()
            } else {
                b@.len()
            }),
            i <= n,
            out@.len() == i,
            forall|j: int| 0 <= j < i ==> #[trigger] out@[j] == mix_spec(a@, b@)[j],
        decreases n - i,
    {
        let x: i64 = if i < a.len() {
            a[i] as i64
        } else {
            0
        };
        let y: i64 = if i < b.len() {
            b[i] as i64
        } else {
            0
        };
        let m = div_i64(x + y, 2);
        out.push(m as i16);
        i = i + 1;
    }
    out
}

/// Every third sample, starting at the first: 48 kHz to 16 kHz
/// decimation.
pub open spec fn decimate3_spec(s: Seq<i16>) -> Seq<i16> {
    Seq::new((((s.len() + 2) / 3) as nat), |i: int| s[3 * i])
}

/// Keep every third sample: the decimation the system-audio backend uses
/// to feed its 48 kHz capture into the 16 kHz live buffer.
pub fn decimate_by_three(s: &Vec<i16>) -> (r: Vec<i16>)
    ensures
        r@ =~= decimate3_spec(s@),
{
    let mut out: Vec<i16> = Vec::new();
    let mut i: usize = 0;
    let n = s.len();
    while i < n
        invariant
            n == s@.len(),
            i <= n + 2,
            i % 3 == 0,
            3 * out@.len() == i,
            forall|j: int| 0 <= j < out@.len() ==> #[trigger] out@[j] == s@[3 * j],
        decreases n + 2 - i,
    {
        out.push(s[i]);
        i = i + 3;
    }
    proof {
        assert(out@.len() == (n + 2) / 3) by (nonlinear_arith)
            requires
                3 * out@.len() == i,
                i % 3 == 0,
                n <= i <= n + 2,
        ;
        assert(out@ =~= decimate3_spec(s@));
    }
    out
}

/// The interleaving of two equal-length channels: left, right, left,
/// right.
pub open spec fn interleaved(l: Seq<i16>, r: Seq<i16>) -> Seq<i16> {
    Seq::new(
        (l.len() * 2) as nat,
        |i: int|
            if i % 2 == 0 {
                l[i / 2]
            } else {
                r[i / 2]
            },
    )
}

/// Interleave a left and a right channel into one stereo stream.
pub fn interleave_stereo(left: &Vec<i16>, right: &Vec<i16>) -> (r: Vec<i16>)
    requires
        left@.len() == right@.len(),
    ensures
        r@ =~= interleaved(left@, right@),
{
    let mut out: Vec<i16> = Vec::new();
    let mut i: usize = 0;
    let n = left.len();
    while i < n
        invariant
            n == left@.len(),
            n == right@.len(),
            i <= n,
            out@.len() == 2 * i,
            forall|j: int|
                0 <= j < 2 * i ==> #[trigger] out@[j] == (if j % 2 == 0 {
                    left@[j / 2]
                } else {
                    right@[j / 2]
                }),
        decreases n - i,
    {
        out.push(left[i]);
        out.push(right[i]);
        i = i + 1;
    }
    proof {
        assert(out@ =~= interleaved(left@, right@));
    }
    out
}

/// The 16 kHz mono feed of the system-audio backend: the capture
/// downmixed to mono, then thinned to every sample nearest an output
/// instant — plain decimation, no interpolation.
pub open spec fn downsample16_spec(s: Seq<i16>, ch: int, src_rate: int) -> Seq<i16> {
    let mono = if ch >= 2 {
        downmix_spec(s, ch)
    } else {
        s
    };
    Seq::new(
        ((((mono.len() * 16000) as int) / src_rate) as nat),
        |i: int| mono[i * src_rate / 16000],
    )
}

/// Downmix a capture to mono and thin it to 16 kHz by decimation.
pub fn downsample_to_16k_mono(samples: &Vec<i16>, src_rate: u32, channels: u16) -> (r: Vec<i16>)
    requires
        src_rate >= 1,
        samples@.len() * 16000 <= usize::MAX,
    ensures
        r@ =~= downsample16_spec(samples@, channels as int, src_rate as int),
{
    let mono = if channels >= 2 {
        downmix_to_mono(samples, channels as u32)
    } else {
        copy_i16(samples)
    };
    proof {
        if channels >= 2 {
            assert((samples@.len() + channels - 1) / (channels as int) <= samples@.len())
                by (nonlinear_arith)
                requires
                    channels >= 2,
                    samples@.len() >= 0,
            ;
        }
        assert(mono@.len() <= samples@.len());
        assert(mono@.len() * 16000 <= samples@.len() * 16000) by (nonlinear_arith)
            requires
                mono@.len() <= samples@.len(),
        ;
    }
    let n = mono.len();
    let src = src_rate as usize;
    let out_len = (n * 16000) / src;
    let mut out: Vec<i16> = Vec::new();
    let mut i: usize = 0;
    while i < out_len
        invariant
            n == mono@.len(),
            src == src_rate,
            src >= 1,
            n * 16000 <= usize::MAX,
            out_len == n * 16000 / (src as int),
            i <= out_len,
            out@.len() == i,
            forall|j: int|
                0 <= j < i ==> #[trigger] out@[j] == mono@[j * (src as int) / 16000],
        decreases out_len - i,
    {
        proof {
            lemma_resample_idx(n as int, src as int, 16000, i as int);
        }
        let idx = (i * src) / 16000;
        out.push(mono[idx]);
        i = i + 1;
    }
    proof {
        if channels >= 2 {
            assert(mono@ =~= downmix_spec(samples@, channels as int));
        } else {
            assert(mono@ =~= samples@);
        }
        assert(out@ =~= downsample16_spec(samples@, channels as int, src_rate as int));
    }
    out
}

} // verus!
