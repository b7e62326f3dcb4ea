//! Per-frame sample arithmetic: saturation, suppression blending, mono
//! mixdown, RMS measurement and 16-bit PCM conversion.

use vstd::prelude::*;

use crate::num::abs;
use crate::num::clamp_i64;
use crate::num::div_i64;
use crate::num::isqrt_u64;
use crate::num::sdiv;
use crate::num::spec_clamp;
use crate::num::spec_isqrt;

verus! {

/// Largest amplitude the analysis path works with: 64 times full scale.
/// Wilder values (a misbehaving engine, a broken host) saturate here, which
/// keeps every downstream sum inside 64-bit arithmetic.
pub const SAMPLE_LIMIT: i32 = 64000000;

/// One full-scale unit in micro-units.
pub const BLEND_UNIT: u32 = 1000000;

/// A sample saturated into the analysis range.
pub open spec fn saturated(s: int) -> int {
    spec_clamp(s, -SAMPLE_LIMIT as int, SAMPLE_LIMIT as int)
}

/// Suppression blend: `raw` and `wet` mixed by strength `s` micro-units,
/// a continuous dial from untouched (0) to fully denoised (full scale).
pub open spec fn blended(raw: int, wet: int, s: int) -> int {
    sdiv(raw * (BLEND_UNIT - s) + wet * s, BLEND_UNIT as int)
}

/// Sum of the first `c` channels' samples at position `j`.
pub open spec fn channel_sum(frames: Seq<Seq<i32>>, j: int, c: nat) -> int
    decreases c,
{
    if c == 0 {
        0
    } else {
        channel_sum(frames, j, (c - 1) as nat) + frames[c - 1][j]
    }
}

/// The normalized mono-mix sample at position `j`.
pub open spec fn mixed(frames: Seq<Seq<i32>>, j: int) -> int {
    sdiv(channel_sum(frames, j, frames.len()), frames.len() as int)
}

/// Sum of squares of the first `n` samples.
pub open spec fn sum_sq(s: Seq<i32>, n: nat) -> int
    decreases n,
{
    if n == 0 {
        0
    } else {
        sum_sq(s, (n - 1) as nat) + (s[n - 1] as int) * (s[n - 1] as int)
    }
}

/// RMS of a frame: integer square root of the mean square. Zero for an
/// empty frame.
pub open spec fn rms_of(s: Seq<i32>) -> int {
    if s.len() > 0 {
        spec_isqrt(sum_sq(s, s.len()) / s.len() as int)
    } else {
        0
    }
}

/// A frame with every sample saturated into the analysis range.
pub open spec fn saturated_seq(s: Seq<i32>) -> Seq<i32> {
    Seq::new(s.len(), |j: int| saturated(s[j] as int) as i32)
}

/// A whole channel blended sample by sample.
pub open spec fn blended_seq(raw: Seq<i32>, wet: Seq<i32>, s: int) -> Seq<i32> {
    Seq::new(raw.len(), |j: int| blended(raw[j] as int, wet[j] as int, s) as i32)
}

/// The normalized mono mixdown of a channel set, one sample per position of
/// the first channel.
pub open spec fn mono_of(frames: Seq<Seq<i32>>) -> Seq<i32> {
    Seq::new(frames[0].len(), |j: int| mixed(frames, j) as i32)
}

/// Blending at strength zero returns the raw signal unchanged.
pub proof fn lemma_blend_zero(raw: int, wet: int)
    ensures
        blended(raw, wet, 0) == raw,
{
    assert(raw * (BLEND_UNIT - 0) + wet * 0 == raw * (BLEND_UNIT as int)) by (nonlinear_arith);
    if raw >= 0 {
        assert((raw * (BLEND_UNIT as int)) / (BLEND_UNIT as int) == raw) by (nonlinear_arith);
    } else {
        assert(((-raw) * (BLEND_UNIT as int)) / (BLEND_UNIT as int) == -raw) by (nonlinear_arith);
        assert(-(raw * (BLEND_UNIT as int)) == (-raw) * (BLEND_UNIT as int)) by (nonlinear_arith);
    }
}

/// A micro-unit sample rescaled to the 16-bit PCM range.
pub open spec fn pcm16_of(s: int) -> int {
    spec_clamp(sdiv(s * 32767, 1000000), -32768, 32767)
}

/// A frame of silence.
pub fn zero_frame(len: usize) -> (r: Vec<i32>)
    ensures
        r@.len() == len,
        forall|j: int| 0 <= j < len ==> (#[trigger] r@[j]) == 0i32,
{
    let mut out: Vec<i32> = Vec::new();
    let mut j: usize = 0;
    while j < len
        invariant
            j <= len,
            out@.len() == j,
            forall|t: int| 0 <= t < j ==> (#[trigger] out@[t]) == 0i32,
        decreases len - j,
    {
        out.push(0);
        j += 1;
    }
    out
}

/// An owned copy of a frame.
pub fn copy_frame(src: &Vec<i32>) -> (r: Vec<i32>)
    ensures
        r@ == src@,
{
    let mut out: Vec<i32> = Vec::new();
    let mut j: usize = 0;
    while j < src.len()
        invariant
            j <= src@.len(),
            out@.len() == j,
            forall|t: int| 0 <= t < j ==> (#[trigger] out@[t]) == src@[t],
        decreases src@.len() - j,
    {
        out.push(src[j]);
        j += 1;
    }
    proof {
        assert(out@ =~= src@);
    }
    out
}

/// Saturates every sample of a frame into the analysis range.
pub fn saturate_frame(input: &Vec<i32>) -> (r: Vec<i32>)
    ensures
        r@.len() == input@.len(),
        forall|j: int| 0 <= j < input@.len() ==> (#[trigger] r@[j]) == saturated(input@[j] as int),
{
    let mut out: Vec<i32> = Vec::new();
    let mut j: usize = 0;
    while j < input.len()
        invariant
            j <= input@.len(),
            out@.len() == j,
            forall|t: int| 0 <= t < j ==> (#[trigger] out@[t]) == saturated(input@[t] as int),
        decreases input@.len() - j,
    {
        let s = input[j];
        let c = if s < -SAMPLE_LIMIT {
            -SAMPLE_LIMIT
        } else if s > SAMPLE_LIMIT {
            SAMPLE_LIMIT
        } else {
            s
        };
        out.push(c);
        j += 1;
    }
    out
}

/// Blends the raw and the denoised frame by the suppression strength.
/// Both inputs must already be saturated; the blend then stays in range.
pub fn blend_frame(raw: &Vec<i32>, wet: &Vec<i32>, s: u32) -> (r: Vec<i32>)
    requires
        s <= BLEND_UNIT,
        raw@.len() == wet@.len(),
        forall|j: int| 0 <= j < raw@.len() ==> abs(#[trigger] raw@[j] as int) <= SAMPLE_LIMIT,
        forall|j: int| 0 <= j < wet@.len() ==> abs(#[trigger] wet@[j] as int) <= SAMPLE_LIMIT,
    ensures
        r@.len() == raw@.len(),
        forall|j: int|
            0 <= j < raw@.len() ==> (#[trigger] r@[j]) == blended(
                raw@[j] as int,
                wet@[j] as int,
                s as int,
            ),
        forall|j: int| 0 <= j < r@.len() ==> abs(#[trigger] r@[j] as int) <= SAMPLE_LIMIT,
{
    let mut out: Vec<i32> = Vec::new();
    let mut j: usize = 0;
    while j < raw.len()
        invariant
            j <= raw@.len(),
            raw@.len() == wet@.len(),
            s <= BLEND_UNIT,
            out@.len() == j,
            forall|t: int| 0 <= t < raw@.len() ==> abs(#[trigger] raw@[t] as int) <= SAMPLE_LIMIT,
            forall|t: int| 0 <= t < wet@.len() ==> abs(#[trigger] wet@[t] as int) <= SAMPLE_LIMIT,
            forall|t: int|
                0 <= t < j ==> (#[trigger] out@[t]) == blended(
                    raw@[t] as int,
                    wet@[t] as int,
                    s as int,
                ),
            forall|t: int| 0 <= t < j ==> abs(#[trigger] out@[t] as int) <= SAMPLE_LIMIT,
        decreases raw@.len() - j,
    {
        let rv: i64 = raw[j] as i64;
        let wv: i64 = wet[j] as i64;
        let sv: i64 = s as i64;
        proof {
            assert(abs(rv * (1000000 - sv)) <= 64000000i64 * 1000000i64 && abs(wv * sv)
                <= 64000000i64 * 1000000i64 && abs(rv * (1000000 - sv) + wv * sv)
                <= 64000000i64 * 1000000i64) by (nonlinear_arith)
                requires
                    abs(rv as int) <= 64000000,
                    abs(wv as int) <= 64000000,
                    0 <= sv <= 1000000,
            ;
            crate::num::lemma_div_magnitude(
                rv * (1000000 - sv) + wv * sv,
                SAMPLE_LIMIT as int,
                1000000,
            );
        }
        let b: i64 = div_i64(rv * (1000000 - sv) + wv * sv, BLEND_UNIT as i64);
        out.push(b as i32);
        j += 1;
    }
    out
}

/// Mixes all channels down to one normalized mono frame for analysis.
pub fn mix_mono(frames: &Vec<Vec<i32>>, frame_len: usize) -> (r: Vec<i32>)
    requires
        frames@.len() >= 1,
        frames@.len() <= 64,
        forall|i: int| 0 <= i < frames@.len() ==> (#[trigger] frames@[i]@.len()) == frame_len,
        forall|i: int, j: int|
            0 <= i < frames@.len() && 0 <= j < frame_len ==> abs(
                #[trigger] frames@[i]@[j] as int,
            ) <= SAMPLE_LIMIT,
    ensures
        r@.len() == frame_len,
        forall|j: int|
            0 <= j < frame_len ==> (#[trigger] r@[j]) == mixed(
                frames@.map_values(|v: Vec<i32>| v@),
                j,
            ),
        forall|j: int| 0 <= j < frame_len ==> abs(#[trigger] r@[j] as int) <= SAMPLE_LIMIT,
{
    let ghost fv: Seq<Seq<i32>> = frames@.map_values(|v: Vec<i32>| v@);
    let channels = frames.len();
    let mut out: Vec<i32> = Vec::new();
    let mut j: usize = 0;
    while j < frame_len
        invariant
            j <= frame_len,
            channels == frames@.len() == fv.len(),
            1 <= channels <= 64,
            fv == frames@.map_values(|v: Vec<i32>| v@),
            forall|i: int| 0 <= i < channels ==> (#[trigger] fv[i].len()) == frame_len,
            forall|i: int, t: int|
                0 <= i < channels && 0 <= t < frame_len ==> abs(#[trigger] fv[i][t] as int)
                    <= SAMPLE_LIMIT,
            out@.len() == j,
            forall|t: int| 0 <= t < j ==> (#[trigger] out@[t]) == mixed(fv, t),
            forall|t: int| 0 <= t < j ==> abs(#[trigger] out@[t] as int) <= SAMPLE_LIMIT,
        decreases frame_len - j,
    {
        let mut sum: i64 = 0;
        let mut c: usize = 0;
        while c < channels
            invariant
                c <= channels,
                j < frame_len,
                channels == frames@.len() == fv.len(),
                1 <= channels <= 64,
                fv == frames@.map_values(|v: Vec<i32>| v@),
                forall|i: int| 0 <= i < channels ==> (#[trigger] fv[i].len()) == frame_len,
                forall|i: int, t: int|
                    0 <= i < channels && 0 <= t < frame_len ==> abs(#[trigger] fv[i][t] as int)
                        <= SAMPLE_LIMIT,
                sum == channel_sum(fv, j as int, c as nat),
                abs(sum as int) <= c * (SAMPLE_LIMIT as int),
            decreases channels - c,
        {
            proof {
                assert(fv[c as int] == frames@[c as int]@);
            }
            sum = sum + frames[c][j] as i64;
            c += 1;
        }
        proof {
            assert(abs(sum as int) <= 64 * (SAMPLE_LIMIT as int)) by (nonlinear_arith)
                requires
                    abs(sum as int) <= channels * (SAMPLE_LIMIT as int),
                    channels <= 64,
                    SAMPLE_LIMIT > 0,
            ;
            crate::num::lemma_div_magnitude(sum as int, SAMPLE_LIMIT as int, channels as int);
        }
        let m: i64 = div_i64(sum, channels as i64);
        out.push(m as i32);
        j += 1;
    }
    out
}

/// RMS (micro-units) of one frame; at most `SAMPLE_LIMIT` for saturated
/// input.
pub fn frame_rms(samples: &Vec<i32>) -> (r: u32)
    requires
        forall|j: int|
            0 <= j < samples@.len() ==> abs(#[trigger] samples@[j] as int) <= SAMPLE_LIMIT,
    ensures
        r == rms_of(samples@),
        r <= SAMPLE_LIMIT,
{
    let len = samples.len();
    if len == 0 {
        proof {
            crate::num::lemma_isqrt_unique(0, 0);
        }
        return 0;
    }
    let mut total: u128 = 0;
    let mut j: usize = 0;
    while j < len
        invariant
            j <= len,
            samples@.len() == len,
            forall|t: int|
                0 <= t < len ==> abs(#[trigger] samples@[t] as int) <= SAMPLE_LIMIT,
            total == sum_sq(samples@, j as nat),
            total <= (j as int) * ((SAMPLE_LIMIT as int) * (SAMPLE_LIMIT as int)),
        decreases len - j,
    {
        let s: i64 = samples[j] as i64;
        proof {
            assert(0 <= s * s <= (SAMPLE_LIMIT as int) * (SAMPLE_LIMIT as int))
                by (nonlinear_arith)
                requires
                    abs(s as int) <= SAMPLE_LIMIT,
            ;
            assert(total + s * s <= ((j + 1) as int) * ((SAMPLE_LIMIT as int) * (
            SAMPLE_LIMIT as int))) by (nonlinear_arith)
                requires
                    total <= (j as int) * ((SAMPLE_LIMIT as int) * (SAMPLE_LIMIT as int)),
                    0 <= s * s <= (SAMPLE_LIMIT as int) * (SAMPLE_LIMIT as int),
            ;
            assert(((j + 1) as int) * ((SAMPLE_LIMIT as int) * (SAMPLE_LIMIT as int))
                <= u128::MAX) by (nonlinear_arith)
                requires
                    j < len <= usize::MAX,
            ;
        }
        let sq: i64 = s * s;
        total = total + (sq as u128);
        j += 1;
    }
    let mean: u128 = total / (len as u128);
    proof {
        assert(total / (len as u128) <= (SAMPLE_LIMIT as int) * (SAMPLE_LIMIT as int))
            by (nonlinear_arith)
            requires
                len > 0,
                total <= (len as int) * ((SAMPLE_LIMIT as int) * (SAMPLE_LIMIT as int)),
        ;
    }
    let r = isqrt_u64(mean as u64);
    proof {
        assert(r <= SAMPLE_LIMIT) by (nonlinear_arith)
            requires
                (r as int) * (r as int) <= (SAMPLE_LIMIT as int) * (SAMPLE_LIMIT as int),
                r >= 0,
                SAMPLE_LIMIT > 0,
        ;
    }
    r as u32
}

/// Rescales a mono frame to 16-bit PCM for the voice detector.
pub fn to_pcm16(samples: &Vec<i32>) -> (r: Vec<i16>)
    ensures
        r@.len() == samples@.len(),
        forall|j: int|
            0 <= j < samples@.len() ==> (#[trigger] r@[j]) == pcm16_of(samples@[j] as int),
{
    let mut out: Vec<i16> = Vec::new();
    let mut j: usize = 0;
    while j < samples.len()
        invariant
            j <= samples@.len(),
            out@.len() == j,
            forall|t: int| 0 <= t < j ==> (#[trigger] out@[t]) == pcm16_of(samples@[t] as int),
        decreases samples@.len() - j,
    {
        let s: i64 = samples[j] as i64;
        let scaled: i64 = div_i64(s * 32767, 1000000);
        let c: i64 = clamp_i64(scaled, -32768, 32767);
        out.push(c as i16);
        j += 1;
    }
    out
}

} // verus!
