//! Bypass state machine and the click-free crossfade between the processed
//! and the raw signal.
//!
//! Bypass is never an instant flip: a request moves the machine through a
//! fading state whose blend runs over one 480-sample window with equal-power
//! gain curves, and only then into the terminal state. Fully bypassed output
//! is a bit-exact copy of the raw input.

use vstd::prelude::*;

use crate::num::clamp_i64;
use crate::num::div_i64;
use crate::num::sdiv;
use crate::num::spec_clamp;
use crate::num::spec_isqrt;
use crate::num::isqrt_u64;

verus! {

/// Length of the crossfade window in samples (10 ms).
pub const CROSSFADE_LEN: u32 = 480;

/// Square of a full-scale gain: the crossfade curves are square roots of
/// linear ramps up to this, so the two squared gains always sum to full power.
pub const GAIN_SQ_UNIT: u64 = 1000000000000;

/// Where the processor stands between full processing and raw passthrough.
#[derive(Clone, Copy, Debug, PartialEq, Eq, Structural)]
pub enum BypassState {
    /// Fully processed signal.
    Active,
    /// Raw passthrough, no analysis cost.
    Bypassed,
    /// Blending from processed toward raw.
    FadingOut,
    /// Blending from raw back toward processed.
    FadingIn,
}

/// State change a control-side bypass request causes between frames: only an
/// illegal instant flip is ruled out, every transition passes through a fade.
pub open spec fn request_step(s: BypassState, requested: bool) -> BypassState {
    match s {
        BypassState::Active => if requested {
            BypassState::FadingOut
        } else {
            s
        },
        BypassState::Bypassed => if !requested {
            BypassState::FadingIn
        } else {
            s
        },
        _ => s,
    }
}

/// The crossfade position after a request: reset at the start of a new fade.
pub open spec fn request_pos(s: BypassState, requested: bool, pos: u32) -> u32 {
    if request_step(s, requested) != s {
        0
    } else {
        pos
    }
}

/// State change one processed frame causes: a fade always spans exactly one
/// frame, so a fading state reaches its terminal state with the frame.
pub open spec fn frame_step(s: BypassState) -> BypassState {
    match s {
        BypassState::FadingOut => BypassState::Bypassed,
        BypassState::FadingIn => BypassState::Active,
        _ => s,
    }
}

/// Gain (micro-units) of the source being faded in at window position `t`:
/// the square root of a linear power ramp, 0 at the start, full scale at the
/// end of the window.
pub open spec fn rising_gain(t: int) -> int {
    spec_isqrt((t * GAIN_SQ_UNIT) / (CROSSFADE_LEN as int))
}

/// Gain (micro-units) of the source being faded out at window position `t`.
pub open spec fn falling_gain(t: int) -> int {
    spec_isqrt(((CROSSFADE_LEN - t) * GAIN_SQ_UNIT) / (CROSSFADE_LEN as int))
}

/// One crossfaded sample: wet and dry scaled by their gains, summed, and
/// saturated into the sample type's range.
pub open spec fn crossfaded(wet: int, dry: int, g_wet: int, g_dry: int) -> int {
    spec_clamp(
        sdiv(wet * g_wet + dry * g_dry, 1000000),
        i32::MIN as int,
        i32::MAX as int,
    )
}

/// Executable gain of the source fading in, at window position `t`.
pub fn rising_gain_at(t: u32) -> (r: u32)
    requires
        t <= CROSSFADE_LEN,
    ensures
        r == rising_gain(t as int),
        r <= 1000000,
{
    let r = isqrt_u64((t as u64 * GAIN_SQ_UNIT) / (CROSSFADE_LEN as u64));
    proof {
        assert((t as int * GAIN_SQ_UNIT) / (CROSSFADE_LEN as int) <= GAIN_SQ_UNIT)
            by (nonlinear_arith)
            requires
                0 <= t <= CROSSFADE_LEN,
        ;
        assert(r * r <= GAIN_SQ_UNIT);
        assert(r <= 1000000) by (nonlinear_arith)
            requires
                (r as int) * (r as int) <= 1000000000000,
                r >= 0,
        ;
    }
    r as u32
}

/// Executable gain of the source fading out, at window position `t`.
pub fn falling_gain_at(t: u32) -> (r: u32)
    requires
        t <= CROSSFADE_LEN,
    ensures
        r == falling_gain(t as int),
        r <= 1000000,
{
    let r = isqrt_u64(((CROSSFADE_LEN - t) as u64 * GAIN_SQ_UNIT) / (CROSSFADE_LEN as u64));
    proof {
        assert(((CROSSFADE_LEN - t) as int * GAIN_SQ_UNIT) / (CROSSFADE_LEN as int)
            <= GAIN_SQ_UNIT) by (nonlinear_arith)
            requires
                0 <= t <= CROSSFADE_LEN,
        ;
        assert(r * r <= GAIN_SQ_UNIT);
        assert(r <= 1000000) by (nonlinear_arith)
            requires
                (r as int) * (r as int) <= 1000000000000,
                r >= 0,
        ;
    }
    r as u32
}

/// The two crossfade gains are equal-power: their squares sum to full power,
/// up to the rounding of the integer square root (at most five millionths of
/// full power).
pub proof fn lemma_equal_power(t: int)
    requires
        0 <= t <= CROSSFADE_LEN,
    ensures
        rising_gain(t) * rising_gain(t) + falling_gain(t) * falling_gain(t) <= GAIN_SQ_UNIT,
        rising_gain(t) * rising_gain(t) + falling_gain(t) * falling_gain(t) > GAIN_SQ_UNIT
            - 5000000,
{
    let k = GAIN_SQ_UNIT as int;
    let n = CROSSFADE_LEN as int;
    let a = (t * k) / n;
    let b = ((n - t) * k) / n;
    let ga = spec_isqrt(a);
    let gb = spec_isqrt(b);
    assert(0 <= t * k <= n * k && 0 <= (n - t) * k <= n * k) by (nonlinear_arith)
        requires
            0 <= t <= n,
            k > 0,
    ;
    assert(a <= k && b <= k) by {
        vstd::arithmetic::div_mod::lemma_div_is_ordered(t * k, n * k, n);
        vstd::arithmetic::div_mod::lemma_div_is_ordered((n - t) * k, n * k, n);
        assert((n * k) / n == k) by (nonlinear_arith)
            requires
                n > 0,
        ;
    }
    assert(0 <= a && 0 <= b);
    assert(crate::num::is_sqrt(a, ga)) by {
        crate::num::lemma_isqrt_exists(a);
    }
    assert(crate::num::is_sqrt(b, gb)) by {
        crate::num::lemma_isqrt_exists(b);
    }
    assert(ga <= 1000000) by (nonlinear_arith)
        requires
            ga * ga <= a,
            a <= 1000000000000,
            ga >= 0,
    ;
    assert(gb <= 1000000) by (nonlinear_arith)
        requires
            gb * gb <= b,
            b <= 1000000000000,
            gb >= 0,
    ;
    // The two ramps cover the whole power budget up to division rounding.
    assert(t * k + (n - t) * k == n * k) by (nonlinear_arith);
    assert(a + b <= k && a + b >= k - 2) by (nonlinear_arith)
        requires
            a == (t * k) / n,
            b == ((n - t) * k) / n,
            t * k + (n - t) * k == n * k,
            n == 480,
            k == 1000000000000,
            t * k >= 0,
            (n - t) * k >= 0,
    ;
    // Each square root loses at most 2 * g + 1 of its ramp value.
    assert(ga * ga > a - 2 * ga - 1) by (nonlinear_arith)
        requires
            a < (ga + 1) * (ga + 1),
    ;
    assert(gb * gb > b - 2 * gb - 1) by (nonlinear_arith)
        requires
            b < (gb + 1) * (gb + 1),
    ;
}

/// A held bypass request reaches full raw passthrough within two
/// reconcile-and-process cycles, from any starting state; once there, every
/// processed frame is a bit-exact copy of the raw input.
pub proof fn lemma_bypass_engages(s: BypassState)
    ensures
        frame_step(request_step(frame_step(request_step(s, true)), true)) == BypassState::Bypassed,
{
}

/// Releasing the bypass request restores full processing within two
/// reconcile-and-process cycles, from any starting state.
pub proof fn lemma_bypass_disengages(s: BypassState)
    ensures
        frame_step(request_step(frame_step(request_step(s, false)), false)) == BypassState::Active,
{
}

/// Applies the crossfade window starting at `pos` to one frame: each output
/// sample becomes the blend of the processed (`wet`, in place) and the raw
/// (`dry`) sample at matching position. Returns the advanced position.
/// `fading_out` selects which of the two sources is on the rising curve.
pub fn apply_crossfade(
    wet: &mut Vec<Vec<i32>>,
    dry: &Vec<Vec<i32>>,
    pos: u32,
    fading_out: bool,
) -> (r: u32)
    requires
        pos <= CROSSFADE_LEN,
        old(wet)@.len() == dry@.len(),
        forall|i: int|
            0 <= i < old(wet)@.len() ==> (#[trigger] old(wet)@[i]@.len()) == dry@[i]@.len(),
        forall|i: int|
            0 <= i < old(wet)@.len() ==> (#[trigger] old(wet)@[i]@.len()) == old(wet)@[0]@.len(),
    ensures
        final(wet)@.len() == old(wet)@.len(),
        forall|i: int|
            0 <= i < old(wet)@.len() ==> (#[trigger] final(wet)@[i]@.len()) == old(wet)@[i]@.len(),
        forall|i: int, j: int|
            0 <= i < old(wet)@.len() && 0 <= j < old(wet)@[i]@.len()
                ==> (#[trigger] final(wet)@[i]@[j]) == {
                let t = if pos + j < CROSSFADE_LEN {
                    pos + j
                } else {
                    CROSSFADE_LEN as int
                };
                let g_r = rising_gain(t);
                let g_f = falling_gain(t);
                if fading_out {
                    crossfaded(old(wet)@[i]@[j] as int, dry@[i]@[j] as int, g_f, g_r)
                } else {
                    crossfaded(old(wet)@[i]@[j] as int, dry@[i]@[j] as int, g_r, g_f)
                }
            },
        r == if old(wet)@.len() == 0 || old(wet)@[0]@.len() == 0 {
            pos as int
        } else if pos + old(wet)@[0]@.len() < CROSSFADE_LEN {
            pos + old(wet)@[0]@.len()
        } else {
            CROSSFADE_LEN as int
        },
{
    let ghost worig: Seq<Seq<i32>> = wet@.map_values(|v: Vec<i32>| v@);
    let channels = wet.len();
    if channels == 0 {
        return pos;
    }
    let len = wet[0].len();
    let mut j: usize = 0;
    while j < len
        invariant
            j <= len,
            channels == wet@.len() == worig.len() == dry@.len(),
            channels > 0,
            pos <= CROSSFADE_LEN,
            forall|i: int| 0 <= i < channels ==> (#[trigger] worig[i].len()) == dry@[i]@.len(),
            worig[0].len() == len,
            forall|i: int| 0 <= i < channels ==> (#[trigger] worig[i].len()) == len,
            forall|i: int| 0 <= i < channels ==> (#[trigger] wet@[i]@.len()) == worig[i].len(),
            forall|i: int, t: int|
                0 <= i < channels && j <= t < worig[i].len() ==> (#[trigger] wet@[i]@[t])
                    == worig[i][t],
            forall|i: int, t: int|
                0 <= i < channels && 0 <= t < j && t < worig[i].len() ==> (#[trigger] wet@[i]@[t])
                    == {
                    let tt = if pos + t < CROSSFADE_LEN {
                        pos + t
                    } else {
                        CROSSFADE_LEN as int
                    };
                    if fading_out {
                        crossfaded(worig[i][t] as int, dry@[i]@[t] as int, falling_gain(tt), rising_gain(tt))
                    } else {
                        crossfaded(worig[i][t] as int, dry@[i]@[t] as int, rising_gain(tt), falling_gain(tt))
                    }
                },
        decreases len - j,
    {
        let t: u32 = if j < CROSSFADE_LEN as usize {
            let tj = pos + j as u32;
            if tj < CROSSFADE_LEN {
                tj
            } else {
                CROSSFADE_LEN
            }
        } else {
            CROSSFADE_LEN
        };
        let g_rise: u32 = rising_gain_at(t);
        let g_fall: u32 = falling_gain_at(t);
        let g_wet: i64 = if fading_out {
            g_fall as i64
        } else {
            g_rise as i64
        };
        let g_dry: i64 = if fading_out {
            g_rise as i64
        } else {
            g_fall as i64
        };
        let mut i: usize = 0;
        while i < channels
            invariant
                i <= channels,
                j < len,
                channels == wet@.len() == worig.len() == dry@.len(),
                pos <= CROSSFADE_LEN,
                0 <= g_wet <= 1000000,
                0 <= g_dry <= 1000000,
                ({
                    let tt = if pos + j < CROSSFADE_LEN {
                        pos + j
                    } else {
                        CROSSFADE_LEN as int
                    };
                    if fading_out {
                        g_wet == falling_gain(tt) && g_dry == rising_gain(tt)
                    } else {
                        g_wet == rising_gain(tt) && g_dry == falling_gain(tt)
                    }
                }),
                forall|ii: int| 0 <= ii < channels ==> (#[trigger] worig[ii].len()) == dry@[ii]@.len(),
                forall|ii: int| 0 <= ii < channels ==> (#[trigger] worig[ii].len()) == len,
                forall|ii: int| 0 <= ii < channels ==> (#[trigger] wet@[ii]@.len()) == worig[ii].len(),
                forall|ii: int, t: int|
                    0 <= ii < channels && j < t < worig[ii].len() ==> (#[trigger] wet@[ii]@[t])
                        == worig[ii][t],
                forall|ii: int, t: int|
                    i <= ii < channels && j <= t < worig[ii].len() ==> (#[trigger] wet@[ii]@[t])
                        == worig[ii][t],
                forall|ii: int, t: int|
                    0 <= ii < channels && 0 <= t < j && t < worig[ii].len() ==> (
                    #[trigger] wet@[ii]@[t]) == {
                        let tt = if pos + t < CROSSFADE_LEN {
                            pos + t
                        } else {
                            CROSSFADE_LEN as int
                        };
                        if fading_out {
                            crossfaded(worig[ii][t] as int, dry@[ii]@[t] as int, falling_gain(tt), rising_gain(tt))
                        } else {
                            crossfaded(worig[ii][t] as int, dry@[ii]@[t] as int, rising_gain(tt), falling_gain(tt))
                        }
                    },
                forall|ii: int, t: int|
                    0 <= ii < i && t == j && t < worig[ii].len() ==> (#[trigger] wet@[ii]@[t]) == {
                        let tt = if pos + t < CROSSFADE_LEN {
                            pos + t
                        } else {
                            CROSSFADE_LEN as int
                        };
                        if fading_out {
                            crossfaded(worig[ii][t] as int, dry@[ii]@[t] as int, falling_gain(tt), rising_gain(tt))
                        } else {
                            crossfaded(worig[ii][t] as int, dry@[ii]@[t] as int, rising_gain(tt), falling_gain(tt))
                        }
                    },
            decreases channels - i,
        {
            {
                let w: i64 = wet[i][j] as i64;
                let d: i64 = dry[i][j] as i64;
                proof {
                    assert(-0x0010_0000_0000_0000 <= w * g_wet <= 0x0010_0000_0000_0000)
                        by (nonlinear_arith)
                        requires
                            -0x8000_0000 <= w <= 0x8000_0000,
                            0 <= g_wet <= 1000000,
                    ;
                    assert(-0x0010_0000_0000_0000 <= d * g_dry <= 0x0010_0000_0000_0000)
                        by (nonlinear_arith)
                        requires
                            -0x8000_0000 <= d <= 0x8000_0000,
                            0 <= g_dry <= 1000000,
                    ;
                }
                let mixed: i64 = div_i64(w * g_wet + d * g_dry, 1000000);
                let out: i64 = clamp_i64(mixed, i32::MIN as i64, i32::MAX as i64);
                let row = &mut wet[i];
                row.set(j, out as i32);
            }
            i += 1;
        }
        j += 1;
    }
    if len == 0 {
        pos
    } else if len < CROSSFADE_LEN as usize {
        let adv = pos + len as u32;
        if adv < CROSSFADE_LEN {
            adv
        } else {
            CROSSFADE_LEN
        }
    } else {
        CROSSFADE_LEN
    }
}

} // verus!
