//! One-shot gate-threshold calibration.
//!
//! While calibration mode is on, the processor hands every frame's RMS here;
//! once three seconds of readings (300 frames) have accumulated, the largest
//! reading times 1.2, floored at 0.005 full scale, becomes the suggested gate
//! threshold and the buffer is cleared for the next run.

use vstd::prelude::*;

verus! {

/// Frames one calibration run measures: 3 s at 100 frames per second.
pub const CALIBRATION_FRAMES: usize = 300;

/// Smallest threshold a calibration run may suggest (0.005 full scale).
pub const MIN_SUGGESTED: u32 = 5000;

/// Headroom bound on readings so the 1.2x scaling stays in 32 bits.
pub const MAX_READING: u32 = 64000000;

/// Largest reading of a run.
pub open spec fn max_reading(s: Seq<u32>, n: nat) -> int
    decreases n,
{
    if n == 0 {
        0
    } else {
        let prev = max_reading(s, (n - 1) as nat);
        if s[n - 1] > prev {
            s[n - 1] as int
        } else {
            prev
        }
    }
}

/// The threshold a finished run suggests: the peak RMS with 20 % headroom,
/// never below `MIN_SUGGESTED`.
pub open spec fn suggested(s: Seq<u32>) -> int {
    let scaled = (max_reading(s, s.len()) * 6) / 5;
    if scaled > MIN_SUGGESTED {
        scaled
    } else {
        MIN_SUGGESTED as int
    }
}

/// Collects RMS readings while calibration mode is active.
pub struct Calibrator {
    samples: Vec<u32>,
}

impl Calibrator {
    pub closed spec fn readings(&self) -> Seq<u32> {
        self.samples@
    }

    pub closed spec fn wf(&self) -> bool {
        &&& self.samples@.len() < CALIBRATION_FRAMES
        &&& forall|i: int|
            0 <= i < self.samples@.len() ==> (#[trigger] self.samples@[i]) <= MAX_READING
    }

    pub fn new() -> (r: Self)
        ensures
            r.wf(),
            r.readings().len() == 0,
    {
        Calibrator { samples: Vec::new() }
    }

    /// Number of readings collected so far in the current run.
    pub fn len(&self) -> (r: usize)
        ensures
            r == self.readings().len(),
    {
        self.samples.len()
    }

    /// Ingests one reading. Returns the suggested threshold and clears the
    /// buffer when this reading completes the run, `None` before that.
    pub fn ingest(&mut self, rms: u32) -> (r: Option<u32>)
        requires
            old(self).wf(),
            rms <= MAX_READING,
        ensures
            final(self).wf(),
            old(self).readings().len() + 1 <= CALIBRATION_FRAMES,
            old(self).readings().len() + 1 < CALIBRATION_FRAMES ==> {
                &&& r is None
                &&& final(self).readings() == old(self).readings().push(rms)
            },
            old(self).readings().len() + 1 == CALIBRATION_FRAMES ==> {
                &&& r == Some(suggested(old(self).readings().push(rms)) as u32)
                &&& final(self).readings().len() == 0
            },
    {
        self.samples.push(rms);
        if self.samples.len() >= CALIBRATION_FRAMES {
            let mut peak: u32 = 0;
            let mut i: usize = 0;
            while i < self.samples.len()
                invariant
                    i <= self.samples@.len(),
                    peak == max_reading(self.samples@, i as nat),
                    peak <= MAX_READING,
                    forall|t: int|
                        0 <= t < self.samples@.len() ==> (#[trigger] self.samples@[t])
                            <= MAX_READING,
                decreases self.samples@.len() - i,
            {
                let v = self.samples[i];
                if v > peak {
                    peak = v;
                }
                i += 1;
            }
            let scaled: u32 = ((peak as u64) * 6 / 5) as u32;
            let result: u32 = if scaled > MIN_SUGGESTED {
                scaled
            } else {
                MIN_SUGGESTED
            };
            self.samples.clear();
            Some(result)
        } else {
            None
        }
    }
}

/// A run fed one constant reading suggests that reading plus 20 % headroom
/// (floored at `MIN_SUGGESTED`): calibration round-trips a steady signal.
pub proof fn lemma_constant_run(s: Seq<u32>, v: u32)
    requires
        s.len() > 0,
        forall|i: int| 0 <= i < s.len() ==> (#[trigger] s[i]) == v,
    ensures
        suggested(s) == if (v * 6) / 5 > MIN_SUGGESTED {
            (v * 6) / 5
        } else {
            MIN_SUGGESTED as int
        },
{
    lemma_constant_max(s, v, s.len());
}

proof fn lemma_constant_max(s: Seq<u32>, v: u32, n: nat)
    requires
        n <= s.len(),
        n > 0,
        forall|i: int| 0 <= i < s.len() ==> (#[trigger] s[i]) == v,
    ensures
        max_reading(s, n) == v,
    decreases n,
{
    assert(s[n - 1] == v);
    if n > 1 {
        lemma_constant_max(s, v, (n - 1) as nat);
    } else {
        assert(max_reading(s, 0) == 0);
    }
}

} // verus!
