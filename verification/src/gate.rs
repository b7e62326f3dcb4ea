//! Noise gate: open/close decision with attack and release debouncing, and
//! the linear fade-to-zero applied while the noise gate is closing.
//!
//! The noise gate opens only after signal has stayed above the threshold (or speech
//! has been detected) for the attack duration, and closes only after silence
//! has persisted for the release duration, so natural speech pauses do not
//! make it chatter. Closing is a 10 ms linear fade, not an instant cut.

use vstd::prelude::*;

use crate::num::sdiv;

verus! {

/// Samples per frame (10 ms at 48 kHz).
pub const GATE_FRAME: u32 = 480;

/// Attack: sustained excess needed before the noise gate opens (5 ms).
pub const ATTACK_SAMPLES: u32 = 240;

/// Release: sustained silence needed before the noise gate closes (200 ms).
pub const RELEASE_SAMPLES: u32 = 9600;

/// Fade-out length while closing (10 ms).
pub const FADE_SAMPLES: u32 = 480;

/// Gate state carried from frame to frame.
///
/// The counters saturate just past the thresholds they are compared against,
/// which leaves every decision unchanged and keeps them from overflowing.
#[derive(Clone, Copy, Debug, PartialEq, Eq, Structural)]
pub struct GateState {
    /// Whether the noise gate currently lets signal through.
    pub is_open: bool,
    /// Samples of above-threshold signal accumulated while deciding to open.
    pub since_close: u32,
    /// Samples of below-threshold signal accumulated while open.
    pub since_open: u32,
    /// How far the closing fade has progressed, in samples (at most 480).
    pub fade_position: u32,
}

/// The state every processor starts from: closed, with the closing fade
/// about to run from the top.
pub open spec fn initial_gate() -> GateState {
    GateState { is_open: false, since_close: 0, since_open: 0, fade_position: 0 }
}

/// One frame's gate decision. `loud` is true when the frame's RMS exceeded
/// the effective threshold or the voice detector reported speech.
pub open spec fn gate_step(g: GateState, loud: bool) -> GateState {
    if loud {
        let ssc = if g.since_close + GATE_FRAME < ATTACK_SAMPLES {
            (g.since_close + GATE_FRAME) as u32
        } else {
            ATTACK_SAMPLES
        };
        if ssc >= ATTACK_SAMPLES {
            GateState { is_open: true, since_close: ssc, since_open: 0, fade_position: 0 }
        } else {
            GateState { is_open: g.is_open, since_close: ssc, ..g }
        }
    } else {
        if g.is_open {
            let sso = if g.since_open + GATE_FRAME < RELEASE_SAMPLES + GATE_FRAME {
                (g.since_open + GATE_FRAME) as u32
            } else {
                (RELEASE_SAMPLES + GATE_FRAME) as u32
            };
            GateState {
                is_open: sso <= RELEASE_SAMPLES,
                since_close: 0,
                since_open: sso,
                fade_position: g.fade_position,
            }
        } else {
            GateState { since_close: 0, ..g }
        }
    }
}

/// Executable twin of `gate_step`.
pub fn step(g: GateState, loud: bool) -> (r: GateState)
    ensures
        r == gate_step(g, loud),
{
    if loud {
        let ssc = if g.since_close < ATTACK_SAMPLES && g.since_close + GATE_FRAME < ATTACK_SAMPLES {
            g.since_close + GATE_FRAME
        } else {
            ATTACK_SAMPLES
        };
        if ssc >= ATTACK_SAMPLES {
            GateState { is_open: true, since_close: ssc, since_open: 0, fade_position: 0 }
        } else {
            GateState { is_open: g.is_open, since_close: ssc, since_open: g.since_open, fade_position: g.fade_position }
        }
    } else {
        if g.is_open {
            let sso = if g.since_open <= RELEASE_SAMPLES && g.since_open + GATE_FRAME
                < RELEASE_SAMPLES + GATE_FRAME {
                g.since_open + GATE_FRAME
            } else {
                RELEASE_SAMPLES + GATE_FRAME
            };
            GateState {
                is_open: sso <= RELEASE_SAMPLES,
                since_close: 0,
                since_open: sso,
                fade_position: g.fade_position,
            }
        } else {
            GateState {
                is_open: g.is_open,
                since_close: 0,
                since_open: g.since_open,
                fade_position: g.fade_position,
            }
        }
    }
}

/// A sample under the closing fade: scaled by the remaining fraction of the
/// fade window, silence once the fade is exhausted.
pub open spec fn faded_sample(s: int, pos: int) -> int {
    if pos < FADE_SAMPLES {
        sdiv(s * (FADE_SAMPLES - pos), FADE_SAMPLES as int)
    } else {
        0
    }
}

/// Applies the closing fade to one channel in place, starting at fade
/// position `fp`; returns the fade position after the frame. Every output
/// sample is no larger in magnitude than its input; once the fade is
/// exhausted the output is exact silence.
pub fn apply_fade(samples: &mut Vec<i32>, fp: u32) -> (r: u32)
    requires
        fp <= FADE_SAMPLES,
    ensures
        final(samples)@.len() == old(samples)@.len(),
        forall|j: int|
            0 <= j < old(samples)@.len() ==> (#[trigger] final(samples)@[j]) == faded_sample(
                old(samples)@[j] as int,
                fp + j,
            ),
        r == if old(samples)@.len() == 0 {
            fp as int
        } else if fp + old(samples)@.len() < FADE_SAMPLES {
            fp + old(samples)@.len()
        } else {
            FADE_SAMPLES as int
        },
{
    let ghost orig = samples@;
    let len = samples.len();
    let mut local_fade: u32 = fp;
    let mut j: usize = 0;
    while j < len
        invariant
            j <= len,
            samples@.len() == len == orig.len(),
            local_fade == if fp + j < FADE_SAMPLES {
                fp + j
            } else {
                FADE_SAMPLES as int
            },
            forall|t: int| j <= t < len ==> (#[trigger] samples@[t]) == orig[t],
            forall|t: int|
                0 <= t < j ==> (#[trigger] samples@[t]) == faded_sample(orig[t] as int, fp + t),
        decreases len - j,
    {
        if local_fade < FADE_SAMPLES {
            let s: i64 = samples[j] as i64;
            let f: i64 = (FADE_SAMPLES - local_fade) as i64;
            proof {
                assert(-0x7_0000_0000_0000 <= s * f <= 0x7_0000_0000_0000) by (nonlinear_arith)
                    requires
                        -0x8000_0000 <= s <= 0x8000_0000,
                        0 <= f <= 480,
                ;
                crate::num::lemma_scale_bound(s as int, f as int, FADE_SAMPLES as int);
            }
            let scaled: i64 = crate::num::div_i64(s * f, FADE_SAMPLES as i64);
            samples.set(j, scaled as i32);
            local_fade = local_fade + 1;
        } else {
            samples.set(j, 0);
        }
        j += 1;
    }
    local_fade
}

/// Quiet run: the noise gate state after `n` consecutive below-threshold,
/// speech-free frames.
pub open spec fn run_quiet(g: GateState, n: nat) -> GateState
    decreases n,
{
    if n == 0 {
        g
    } else {
        gate_step(run_quiet(g, (n - 1) as nat), false)
    }
}

/// Gate hysteresis: once opened, the noise gate stays open until sub-threshold
/// signal has persisted for the full release duration. In particular a
/// single quiet frame after loud frames cannot close it.
pub proof fn lemma_gate_hysteresis(g: GateState, n: nat)
    requires
        g.is_open,
        g.since_open == 0,
        n * GATE_FRAME <= RELEASE_SAMPLES,
    ensures
        run_quiet(g, n).is_open,
        run_quiet(g, n).since_open == n * GATE_FRAME,
    decreases n,
{
    if n > 0 {
        lemma_gate_hysteresis(g, (n - 1) as nat);
    }
}

/// Sustained silence closes the noise gate: after release duration plus one frame
/// of quiet input the noise gate is closed, from any starting state.
pub proof fn lemma_gate_silence_closes(g: GateState, n: nat)
    requires
        g.since_open <= RELEASE_SAMPLES + GATE_FRAME,
        n >= 21,
    ensures
        !run_quiet(g, n).is_open,
    decreases n,
{
    lemma_quiet_progress(g, n);
}

/// Helper: under quiet input an open gate's release counter reaches past the
/// release threshold within 21 frames, and a closed gate stays closed.
proof fn lemma_quiet_progress(g: GateState, n: nat)
    requires
        n >= 1,
    ensures
        !run_quiet(g, n).is_open || run_quiet(g, n).since_open >= n * GATE_FRAME || run_quiet(
            g,
            n,
        ).since_open == RELEASE_SAMPLES + GATE_FRAME,
        run_quiet(g, n).since_open > RELEASE_SAMPLES ==> !run_quiet(g, n).is_open,
        !run_quiet(g, n).is_open ==> !run_quiet(g, (n + 1) as nat).is_open,
        n >= 21 ==> !run_quiet(g, n).is_open,
    decreases n,
{
    if n == 1 {
    } else {
        lemma_quiet_progress(g, (n - 1) as nat);
        assert(run_quiet(g, n) == gate_step(run_quiet(g, (n - 1) as nat), false));
    }
}

} // verus!
