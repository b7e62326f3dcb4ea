//! Linked lookahead limiter: the automatic gain control stage.
//!
//! All channels share one gain so the stereo image is preserved: the limiter
//! measures the RMS of the per-sample peak across channels, steers the gain
//! toward `target_level / rms` (never more than a 3x boost), moving fast when
//! it must come down and slowly when it may rise, and finally hard-clamps
//! every sample to +/-0.99 full scale.

use vstd::prelude::*;

use crate::num::abs;
use crate::num::clamp_i64;
use crate::num::div_i64;
use crate::num::is_sqrt;
use crate::num::isqrt_u64;
use crate::num::lemma_isqrt_unique;
use crate::num::sdiv;
use crate::num::spec_clamp;
use crate::num::spec_isqrt;

verus! {

/// One full-scale unit in micro-units (gain 1.0).
pub const GAIN_UNIT: u32 = 1000000;

/// Upward gain never exceeds 3x, so near-silence is not amplified into noise.
pub const MAX_GAIN: u32 = 3000000;

/// Final safety clamp: +/-0.99 full scale, in micro-units.
pub const CLIP_LIMIT: i64 = 990000;

/// Levels at or below this (micro-units) count as silence for the limiter.
pub const SILENCE_RMS: u32 = 100;

/// Attack: when the gain must fall it covers a tenth of the gap per frame.
pub const ATTACK_DIV: i64 = 10;

/// Release: when the gain may rise it covers a two-hundredth of the gap.
pub const RELEASE_DIV: i64 = 200;

/// Per-frame decay of a boosting gain while the input is near-silent.
pub const IDLE_DECAY: u32 = 1000;

/// Largest absolute value of the per-sample cross-channel peak.
pub open spec fn peak_at(frames: Seq<Seq<i32>>, k: int, c: nat) -> int
    decreases c,
{
    if c == 0 {
        0
    } else {
        let p = peak_at(frames, k, (c - 1) as nat);
        let v = abs(frames[c - 1][k] as int);
        if v > p {
            v
        } else {
            p
        }
    }
}

/// Sum of squared per-sample peaks over the first `n` sample positions.
pub open spec fn peak_sum_sq(frames: Seq<Seq<i32>>, n: nat) -> int
    decreases n,
{
    if n == 0 {
        0
    } else {
        let p = peak_at(frames, n - 1, frames.len());
        peak_sum_sq(frames, (n - 1) as nat) + p * p
    }
}

/// The linked RMS the gain decision is based on: the integer square root of
/// the mean squared cross-channel peak. Zero for an empty frame.
pub open spec fn linked_rms(frames: Seq<Seq<i32>>) -> int {
    if frames.len() > 0 && frames[0].len() > 0 {
        spec_isqrt(peak_sum_sq(frames, frames[0].len() as nat) / frames[0].len() as int)
    } else {
        0
    }
}

/// Gain after one frame: steered toward `target / rms` (clamped to at most
/// `MAX_GAIN`), fast on attack, slow on release; decaying toward unity while
/// the input is near-silent and the gain still boosts.
pub open spec fn next_gain(g: int, target: int, rms: int) -> int {
    if rms > SILENCE_RMS {
        let error = target * (GAIN_UNIT as int) / rms;
        let tg = if error < GAIN_UNIT {
            error
        } else if error < MAX_GAIN {
            error
        } else {
            MAX_GAIN as int
        };
        if tg < g {
            g + sdiv(tg - g, ATTACK_DIV as int)
        } else {
            g + sdiv(tg - g, RELEASE_DIV as int)
        }
    } else if g > GAIN_UNIT {
        g - IDLE_DECAY
    } else {
        g
    }
}

/// A sample after the gain and the final clamp have been applied.
pub open spec fn limited(s: int, g: int) -> int {
    spec_clamp(sdiv(s * g, GAIN_UNIT as int), -CLIP_LIMIT as int, CLIP_LIMIT as int)
}

/// Multi-channel linked gain normalizer pushing the signal RMS toward a
/// target level without hard clipping.
pub struct LookaheadLimiter {
    /// Level (micro-units) the limiter pushes the linked RMS toward.
    pub target_level: u32,
    current_gain: u32,
}

impl LookaheadLimiter {
    /// The gain always stays within `[0, MAX_GAIN]`.
    pub closed spec fn gain_spec(&self) -> u32 {
        self.current_gain
    }

    pub closed spec fn target_spec(&self) -> u32 {
        self.target_level
    }

    pub closed spec fn wf(&self) -> bool {
        self.current_gain <= MAX_GAIN
    }

    /// Points the limiter at a new target level (micro-units).
    pub fn set_target(&mut self, level: u32)
        requires
            old(self).wf(),
        ensures
            final(self).wf(),
            final(self).target_spec() == level,
            final(self).gain_spec() == old(self).gain_spec(),
    {
        self.target_level = level;
    }

    pub fn new(target_level: u32) -> (r: Self)
        ensures
            r.wf(),
            r.target_spec() == target_level,
            r.gain_spec() == GAIN_UNIT,
    {
        LookaheadLimiter { target_level, current_gain: GAIN_UNIT }
    }

    /// Applies one frame of linked limiting in place.
    ///
    /// An empty channel set is a no-op, never an error. Every output sample is
    /// clamped to at most 0.99 full scale in magnitude, whatever the input.
    pub fn process_frame(&mut self, frames: &mut Vec<Vec<i32>>)
        requires
            old(self).wf(),
            forall|i: int|
                0 <= i < old(frames)@.len() ==> (#[trigger] old(frames)@[i]@.len())
                    == old(frames)@[0]@.len(),
        ensures
            final(self).wf(),
            final(self).target_spec() == old(self).target_spec(),
            final(frames)@.len() == old(frames)@.len(),
            forall|i: int|
                0 <= i < old(frames)@.len() ==> (#[trigger] final(frames)@[i]@.len()) == old(frames)@[i]@.len(),
            final(self).gain_spec() == if old(frames)@.len() == 0 {
                old(self).gain_spec() as int
            } else {
                next_gain(
                    old(self).gain_spec() as int,
                    old(self).target_spec() as int,
                    linked_rms(old(frames)@.map_values(|v: Vec<i32>| v@)),
                )
            },
            forall|i: int, j: int|
                0 <= i < old(frames)@.len() && 0 <= j < old(frames)@[i]@.len() ==> #[trigger] final(frames)@[i]@[j] == limited(old(frames)@[i]@[j] as int, final(self).gain_spec() as int),
            forall|i: int, j: int|
                0 <= i < final(frames)@.len() && 0 <= j < final(frames)@[i]@.len()
                    ==> -CLIP_LIMIT <= #[trigger] final(frames)@[i]@[j] <= CLIP_LIMIT
                    || old(frames)@.len() == 0,
    {
        let ghost orig: Seq<Seq<i32>> = frames@.map_values(|v: Vec<i32>| v@);
        if frames.len() == 0 {
            return ;
        }
        let channels = frames.len();
        let frame_len = frames[0].len();

        // Mean squared cross-channel peak, then its square root.
        let mut sum_sq: u128 = 0;
        let mut k: usize = 0;
        while k < frame_len
            invariant
                k <= frame_len,
                channels == frames@.len(),
                frames@.map_values(|v: Vec<i32>| v@) == orig,
                orig.len() == channels > 0,
                forall|i: int| 0 <= i < channels ==> (#[trigger] orig[i].len()) == frame_len,
                sum_sq == peak_sum_sq(orig, k as nat),
                sum_sq <= (k as int) * 0x4000_0000_0000_0000,
            decreases frame_len - k,
        {
            let mut peak: i64 = 0;
            let mut c: usize = 0;
            while c < channels
                invariant
                    c <= channels,
                    channels == frames@.len(),
                    frames@.map_values(|v: Vec<i32>| v@) == orig,
                    orig.len() == channels,
                    k < frame_len,
                    forall|i: int| 0 <= i < channels ==> (#[trigger] orig[i].len()) == frame_len,
                    peak == peak_at(orig, k as int, c as nat),
                    0 <= peak <= 0x8000_0000,
                decreases channels - c,
            {
                proof {
                    assert(orig[c as int] == frames@[c as int]@);
                }
                let v: i64 = frames[c][k] as i64;
                let a: i64 = if v >= 0 {
                    v
                } else {
                    -v
                };
                if a > peak {
                    peak = a;
                }
                c += 1;
            }
            proof {
                assert(peak * peak <= 0x4000_0000_0000_0000) by (nonlinear_arith)
                    requires
                        0 <= peak <= 0x8000_0000,
                ;
                assert(sum_sq + peak * peak <= ((k + 1) as int) * 0x4000_0000_0000_0000)
                    by (nonlinear_arith)
                    requires
                        sum_sq <= (k as int) * 0x4000_0000_0000_0000,
                        peak * peak <= 0x4000_0000_0000_0000,
                ;
                assert(((k + 1) as int) * 0x4000_0000_0000_0000 < u128::MAX) by (nonlinear_arith)
                    requires
                        k < frame_len <= usize::MAX,
                ;
            }
            sum_sq = sum_sq + (peak as u128) * (peak as u128);
            k += 1;
        }

        let max_rms: u32;
        if frame_len > 0 {
            let mean_sq: u128 = sum_sq / (frame_len as u128);
            proof {
                assert(sum_sq / (frame_len as u128) <= 0x4000_0000_0000_0000) by (nonlinear_arith)
                    requires
                        frame_len > 0,
                        sum_sq <= (frame_len as int) * 0x4000_0000_0000_0000,
                ;
            }
            let r = isqrt_u64(mean_sq as u64);
            proof {
                assert(r * r <= 0x4000_0000_0000_0000);
                assert(r <= 0x8000_0000) by (nonlinear_arith)
                    requires
                        (r as int) * (r as int) <= 0x4000_0000_0000_0000,
                        r >= 0,
                ;
            }
            max_rms = if r > 0xffff_fff0 {
                0xffff_fff0
            } else {
                r as u32
            };
            proof {
                assert(max_rms == spec_isqrt(
                    peak_sum_sq(orig, frame_len as nat) / frame_len as int,
                ));
                assert(max_rms == linked_rms(orig));
            }
        } else {
            max_rms = 0;
            proof {
                assert(linked_rms(orig) == 0);
            }
        }

        // Gain decision.
        if max_rms > SILENCE_RMS {
            let error: u64 = (self.target_level as u64) * (GAIN_UNIT as u64) / (max_rms as u64);
            proof {
                assert((self.target_level as int) * (GAIN_UNIT as int) / (max_rms as int)
                    >= 0);
            }
            let target_gain: u32 = if error < GAIN_UNIT as u64 {
                error as u32
            } else if error < MAX_GAIN as u64 {
                error as u32
            } else {
                MAX_GAIN
            };
            let g: i64 = self.current_gain as i64;
            let tg: i64 = target_gain as i64;
            let step: i64 = if tg < g {
                div_i64(tg - g, ATTACK_DIV)
            } else {
                div_i64(tg - g, RELEASE_DIV)
            };
            proof {
                crate::num::lemma_sdiv_bounds(tg - g, ATTACK_DIV as int);
                crate::num::lemma_sdiv_bounds(tg - g, RELEASE_DIV as int);
            }
            let updated: i64 = g + step;
            proof {
                assert(0 <= updated <= MAX_GAIN);
            }
            self.current_gain = updated as u32;
        } else if self.current_gain > GAIN_UNIT {
            self.current_gain = self.current_gain - IDLE_DECAY;
        }

        // Apply the gain and the final clamp to every channel.
        let g_now: i64 = self.current_gain as i64;
        proof {
            assert(0 <= g_now <= MAX_GAIN);
        }
        let mut i: usize = 0;
        while i < channels
            invariant
                i <= channels,
                channels == frames@.len(),
                orig.len() == channels,
                g_now == self.current_gain,
                0 <= g_now <= MAX_GAIN,
                forall|ci: int| 0 <= ci < channels ==> (#[trigger] orig[ci].len()) == frame_len,
                forall|ci: int|
                    i <= ci < channels ==> (#[trigger] frames@[ci]@) == orig[ci],
                forall|ci: int|
                    0 <= ci < i ==> (#[trigger] frames@[ci]@).len() == orig[ci].len(),
                forall|ci: int, j: int|
                    0 <= ci < i && 0 <= j < orig[ci].len() ==> (#[trigger] frames@[ci]@[j])
                        == limited(orig[ci][j] as int, g_now as int),
            decreases channels - i,
        {
            let mut j: usize = 0;
            while j < frame_len
                invariant
                    j <= frame_len,
                    i < channels,
                    channels == frames@.len(),
                    orig.len() == channels,
                    g_now == self.current_gain,
                    0 <= g_now <= MAX_GAIN,
                    orig[i as int].len() == frame_len,
                    frames@[i as int]@.len() == frame_len,
                    forall|ci: int| 0 <= ci < channels ==> (#[trigger] orig[ci].len()) == frame_len,
                    forall|ci: int|
                        i < ci < channels ==> (#[trigger] frames@[ci]@) == orig[ci],
                    forall|ci: int|
                        0 <= ci < i ==> (#[trigger] frames@[ci]@).len() == orig[ci].len(),
                    forall|ci: int, jj: int|
                        0 <= ci < i && 0 <= jj < orig[ci].len() ==> (#[trigger] frames@[ci]@[jj])
                            == limited(orig[ci][jj] as int, g_now as int),
                    forall|jj: int|
                        0 <= jj < j ==> (#[trigger] frames@[i as int]@[jj]) == limited(
                            orig[i as int][jj] as int,
                            g_now as int,
                        ),
                    forall|jj: int|
                        j <= jj < frame_len ==> (#[trigger] frames@[i as int]@[jj])
                            == orig[i as int][jj],
                decreases frame_len - j,
            {
                let s: i64 = frames[i][j] as i64;
                proof {
                    assert(-0x2000_0000_0000_0000 <= s * g_now <= 0x2000_0000_0000_0000)
                        by (nonlinear_arith)
                        requires
                            -0x8000_0000 <= s <= 0x8000_0000,
                            0 <= g_now <= 3000000,
                    ;
                }
                let scaled: i64 = div_i64(s * g_now, GAIN_UNIT as i64);
                let clamped: i64 = clamp_i64(scaled, -CLIP_LIMIT, CLIP_LIMIT);
                let out: i32 = clamped as i32;
                let row = &mut frames[i];
                row.set(j, out);
                j += 1;
            }
            i += 1;
        }
        proof {
            assert(frames@.map_values(|v: Vec<i32>| v@) =~= frames@.map_values(|v: Vec<i32>| v@));
        }
    }
}

} // verus!
