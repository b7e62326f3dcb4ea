//! Rolling estimate of the ambient noise level.
//!
//! The tracker keeps the last 300 per-frame RMS readings (about three seconds
//! of audio) in a ring and blends the minimum of the most recent 30 readings
//! into a slowly moving floor. Readings at or near zero (at most
//! `SILENCE_CUTOFF` micro-units) are ignored so that plain silence cannot drag
//! the floor down and make the noise gate hypersensitive.

use vstd::prelude::*;

use crate::num::abs;

verus! {

/// Ring capacity: 3 s of frames at 100 frames per second.
pub const WINDOW_LEN: usize = 300;

/// Number of recent readings the minimum is taken over (about 300 ms).
pub const RECENT_LEN: usize = 30;

/// Readings at or below this level (micro-units) are treated as silence.
pub const SILENCE_CUTOFF: u32 = 100;

/// Floor value a fresh tracker starts from (0.01 full scale).
pub const INITIAL_FLOOR: u32 = 10000;

/// Minimum of the `n` ring entries starting at `start`, ignoring entries at
/// or below `SILENCE_CUTOFF`; `None` when every entry in range is silence.
pub open spec fn windowed_min(w: Seq<u32>, start: int, n: nat) -> Option<u32>
    recommends
        w.len() == WINDOW_LEN,
        0 <= start < WINDOW_LEN,
    decreases n,
{
    if n == 0 {
        None
    } else {
        let prev = windowed_min(w, start, (n - 1) as nat);
        let v = w[(start + n - 1) % (WINDOW_LEN as int)];
        if v > SILENCE_CUTOFF && (prev is None || v < prev->0) {
            Some(v)
        } else {
            prev
        }
    }
}

/// One smoothing step: 95 % of the old floor, 5 % of the new minimum.
pub open spec fn smooth(floor: int, m: int) -> int {
    (floor * 95 + m * 5) / 100
}

/// Exactly the effect of one `update` call: the reading written into the
/// ring, the indices advanced, the floor smoothed.
pub open spec fn updated_from(post: NoiseFloorTracker, pre: NoiseFloorTracker, rms: u32) -> bool {
    &&& post.window_spec() == pre.window_spec().update(pre.write_idx_spec(), rms)
    &&& post.write_idx_spec() == (pre.write_idx_spec() + 1) % (WINDOW_LEN as int)
    &&& post.count_spec() == if pre.count_spec() < WINDOW_LEN {
        pre.count_spec() + 1
    } else {
        pre.count_spec()
    }
    &&& post.floor_spec() == NoiseFloorTracker::next_floor(
        pre.floor_spec(),
        post.window_spec(),
        post.write_idx_spec(),
        post.count_spec(),
    )
}

/// Tracks the minimum RMS over a sliding window to estimate the noise floor.
pub struct NoiseFloorTracker {
    window: Vec<u32>,
    write_idx: usize,
    count: usize,
    current_floor: u32,
}

impl NoiseFloorTracker {
    /// Structural invariant: full ring allocation and in-range indices.
    pub closed spec fn wf(&self) -> bool {
        &&& self.window@.len() == WINDOW_LEN
        &&& self.write_idx < WINDOW_LEN
        &&& self.count <= WINDOW_LEN
    }

    pub closed spec fn floor_spec(&self) -> u32 {
        self.current_floor
    }

    pub closed spec fn window_spec(&self) -> Seq<u32> {
        self.window@
    }

    pub closed spec fn count_spec(&self) -> int {
        self.count as int
    }

    pub closed spec fn write_idx_spec(&self) -> int {
        self.write_idx as int
    }

    /// Start of the range the minimum is taken over, given the ring state
    /// after a write: the most recent `RECENT_LEN` entries once that many
    /// exist, everything from slot zero before that.
    pub open spec fn min_start(write_idx: int, count: int) -> int {
        if count >= RECENT_LEN {
            (write_idx + WINDOW_LEN - RECENT_LEN) % (WINDOW_LEN as int)
        } else {
            0
        }
    }

    /// Number of entries the minimum is taken over.
    pub open spec fn min_len(count: int) -> nat {
        if count >= RECENT_LEN {
            RECENT_LEN as nat
        } else {
            count as nat
        }
    }

    /// The floor after one update: unchanged until ten readings exist or when
    /// the recent window holds nothing but silence, otherwise smoothed toward
    /// the windowed minimum.
    pub open spec fn next_floor(floor: u32, w: Seq<u32>, write_idx: int, count: int) -> int {
        if count >= 10 {
            match windowed_min(w, Self::min_start(write_idx, count), Self::min_len(count)) {
                Some(m) => smooth(floor as int, m as int),
                None => floor as int,
            }
        } else {
            floor as int
        }
    }

    pub fn new() -> (r: Self)
        ensures
            r.wf(),
            r.floor_spec() == INITIAL_FLOOR,
            r.count_spec() == 0,
            r.write_idx_spec() == 0,
            forall|i: int| 0 <= i < WINDOW_LEN ==> r.window_spec()[i] == 0u32,
    {
        let mut window: Vec<u32> = Vec::new();
        let mut i: usize = 0;
        while i < WINDOW_LEN
            invariant
                i <= WINDOW_LEN,
                window@.len() == i,
                forall|j: int| 0 <= j < i ==> window@[j] == 0u32,
            decreases WINDOW_LEN - i,
        {
            window.push(0);
            i += 1;
        }
        NoiseFloorTracker { window, write_idx: 0, count: 0, current_floor: INITIAL_FLOOR }
    }

    /// Ingests one frame's RMS reading (micro-units).
    pub fn update(&mut self, rms: u32)
        requires
            old(self).wf(),
        ensures
            final(self).wf(),
            updated_from(*final(self), *old(self), rms),
    {
        self.window.set(self.write_idx, rms);
        self.write_idx = (self.write_idx + 1) % WINDOW_LEN;
        if self.count < WINDOW_LEN {
            self.count = self.count + 1;
        }
        if self.count >= 10 {
            let start: usize = if self.count >= RECENT_LEN {
                (self.write_idx + WINDOW_LEN - RECENT_LEN) % WINDOW_LEN
            } else {
                0
            };
            let n: usize = if self.count >= RECENT_LEN {
                RECENT_LEN
            } else {
                self.count
            };
            let mut best: Option<u32> = None;
            let mut i: usize = 0;
            while i < n
                invariant
                    i <= n,
                    n <= RECENT_LEN,
                    start < WINDOW_LEN,
                    self.window@.len() == WINDOW_LEN,
                    best == windowed_min(self.window@, start as int, i as nat),
                decreases n - i,
            {
                let idx = (start + i) % WINDOW_LEN;
                let v = self.window[idx];
                let better = v > SILENCE_CUTOFF && (match best {
                    Option::None => true,
                    Option::Some(b) => v < b,
                });
                if better {
                    best = Some(v);
                }
                i += 1;
            }
            if let Some(m) = best {
                let blended: u64 = ((self.current_floor as u64) * 95 + (m as u64) * 5) / 100;
                proof {
                    assert(blended <= u32::MAX) by (nonlinear_arith)
                        requires
                            blended == ((self.current_floor as int) * 95 + (m as int) * 5) / 100,
                            self.current_floor <= u32::MAX,
                            m <= u32::MAX,
                    ;
                }
                self.current_floor = blended as u32;
            }
        }
    }

    /// Current noise-floor estimate (micro-units).
    pub fn floor(&self) -> (r: u32)
        ensures
            r == self.floor_spec(),
    {
        self.current_floor
    }
}

impl Default for NoiseFloorTracker {
    fn default() -> (r: Self)
        ensures
            r.wf(),
            r.floor_spec() == INITIAL_FLOOR,
    {
        Self::new()
    }
}

/// One smoothing step keeps the floor between the old floor and the new
/// minimum: silence-adjacent minima can pull it down only as far as the
/// smallest audible reading in the window, never to zero.
pub proof fn lemma_smooth_bounds(floor: int, m: int)
    requires
        floor >= 0,
        m >= 0,
    ensures
        smooth(floor, m) >= if floor <= m {
            floor
        } else {
            m
        },
        smooth(floor, m) <= if floor >= m {
            floor
        } else {
            m
        },
{
    let lo = if floor <= m { floor } else { m };
    let hi = if floor >= m { floor } else { m };
    assert(floor * 95 + m * 5 >= lo * 100) by (nonlinear_arith)
        requires
            lo <= floor,
            lo <= m,
    ;
    assert(floor * 95 + m * 5 <= hi * 100) by (nonlinear_arith)
        requires
            floor <= hi,
            m <= hi,
    ;
    assert(smooth(floor, m) >= (lo * 100) / 100);
    assert(smooth(floor, m) <= (hi * 100) / 100);
}

/// Feeding a constant audible level contracts the distance between the floor
/// and that level: while the distance exceeds 20 micro-units it shrinks by at
/// least one with every smoothing step, so the floor converges to within 20
/// micro-units of a sustained constant reading.
pub proof fn lemma_smooth_converges(floor: int, v: int)
    requires
        floor >= 0,
        v >= 0,
    ensures
        abs(smooth(floor, v) - v) <= if abs(floor - v) > 20 {
            abs(floor - v) - 1
        } else {
            20
        },
{
    let d = abs(floor - v);
    let s = smooth(floor, v);
    assert(floor * 95 + v * 5 == v * 100 + (floor - v) * 95) by (nonlinear_arith);
    // s == v + floor-div of ((floor - v) * 95) by 100, shifted into place.
    if floor >= v {
        lemma_smooth_bounds(floor, v);
        assert(s - v <= ((floor - v) * 95 + 99) / 100);
        assert(95 * d + 99 < 100 * d || d <= 20) by (nonlinear_arith)
            requires
                d >= 0,
        ;
    } else {
        lemma_smooth_bounds(floor, v);
        assert(v - s <= (v - floor));
        assert(v * 100 - (floor * 95 + v * 5) == (v - floor) * 95) by (nonlinear_arith);
        assert(v - s <= ((v - floor) * 95) / 100 + 1);
        assert(95 * d + 100 <= 100 * d || d <= 20) by (nonlinear_arith)
            requires
                d >= 0,
        ;
    }
}

} // verus!
