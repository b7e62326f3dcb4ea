//! The shared control block: every live-tunable parameter as one atomic cell.
//!
//! One clone of this block goes to the control surface (GUI, plugin
//! parameters, CLI), the other stays with the processor. Every cell has a
//! single designated writer per direction: the audio thread alone writes the
//! volume, jitter and calibration-result cells, the control surface alone
//! writes the rest. That discipline is a documented contract between the two
//! sides, not something the cells themselves can enforce, and readers may see
//! a value up to one frame stale. Nothing is assumed about a loaded value:
//! the processor validates every reading before acting on it.

use vstd::prelude::*;

use core::sync::atomic::AtomicBool;
use core::sync::atomic::AtomicI32;
use core::sync::atomic::AtomicU32;
use core::sync::atomic::Ordering;
use std::sync::Arc;

verus! {

/// One step of the scheduling-jitter metric: an exponentially weighted
/// moving average that keeps nine tenths of the old value and takes one
/// tenth of the new measurement (microseconds). The audio loop reports the
/// result through the jitter cell every few dozen frames.
pub fn jitter_ewma_step(ewma_us: u32, jitter_us: u32) -> (r: u32)
    ensures
        r == ((ewma_us * 9) as int + jitter_us) / 10,
{
    (((ewma_us as u64) * 9 + (jitter_us as u64)) / 10) as u32
}

/// Shared, atomically accessed control cells. Levels are micro-units
/// (1_000_000 = full scale), equalizer gains are milli-decibels.
#[derive(Clone)]
pub struct Controls {
    /// Live RMS reading, written by the audio thread every frame.
    pub volume_level: Arc<AtomicU32>,
    /// One-shot calibration mode; the audio thread clears it when done.
    pub calibration_mode: Arc<AtomicBool>,
    /// Suggested gate threshold a calibration run produced.
    pub calibration_result: Arc<AtomicU32>,
    /// Voice-detector aggressiveness, 0 to 3.
    pub vad_sensitivity: Arc<AtomicU32>,
    /// Low-shelf gain, milli-decibels.
    pub eq_low_gain: Arc<AtomicI32>,
    /// Peaking-band gain, milli-decibels.
    pub eq_mid_gain: Arc<AtomicI32>,
    /// High-shelf gain, milli-decibels.
    pub eq_high_gain: Arc<AtomicI32>,
    pub eq_enabled: Arc<AtomicBool>,
    pub agc_enabled: Arc<AtomicBool>,
    /// Level the automatic gain control pushes toward.
    pub agc_target: Arc<AtomicU32>,
    pub bypass_enabled: Arc<AtomicBool>,
    /// Scheduling-jitter metric, microseconds, written by the audio thread.
    pub jitter_ewma_us: Arc<AtomicU32>,
    /// Fixed gate threshold used while dynamic thresholding is off.
    pub gate_threshold: Arc<AtomicU32>,
    /// Denoise/raw blend, 0 (raw) to 1_000_000 (fully denoised).
    pub suppression_strength: Arc<AtomicU32>,
    pub dynamic_threshold_enabled: Arc<AtomicBool>,
}

impl Controls {
    /// Fresh control block with the given starting values; everything else
    /// starts at the engine defaults (gate threshold 0.015, full suppression,
    /// equalizer on, gain control off, bypass off).
    pub fn new(vad_sensitivity: u32, eq_low: i32, eq_mid: i32, eq_high: i32, agc_target: u32) -> (r:
        Self) {
        Controls {
            volume_level: Arc::new(AtomicU32::new(0)),
            calibration_mode: Arc::new(AtomicBool::new(false)),
            calibration_result: Arc::new(AtomicU32::new(0)),
            vad_sensitivity: Arc::new(AtomicU32::new(vad_sensitivity)),
            eq_low_gain: Arc::new(AtomicI32::new(eq_low)),
            eq_mid_gain: Arc::new(AtomicI32::new(eq_mid)),
            eq_high_gain: Arc::new(AtomicI32::new(eq_high)),
            eq_enabled: Arc::new(AtomicBool::new(true)),
            agc_enabled: Arc::new(AtomicBool::new(false)),
            agc_target: Arc::new(AtomicU32::new(agc_target)),
            bypass_enabled: Arc::new(AtomicBool::new(false)),
            jitter_ewma_us: Arc::new(AtomicU32::new(0)),
            gate_threshold: Arc::new(AtomicU32::new(15000)),
            suppression_strength: Arc::new(AtomicU32::new(1000000)),
            dynamic_threshold_enabled: Arc::new(AtomicBool::new(false)),
        }
    }

    /// Most recent RMS reading, micro-units.
    pub fn volume(&self) -> u32 {
        self.volume_level.load(Ordering::Relaxed)
    }

    /// Starts a calibration run.
    pub fn set_calibration_mode(&self, on: bool) {
        self.calibration_mode.store(on, Ordering::Relaxed);
    }

    pub fn calibration_mode_on(&self) -> bool {
        self.calibration_mode.load(Ordering::Relaxed)
    }

    /// Threshold suggested by the last completed calibration run.
    pub fn calibration_result_value(&self) -> u32 {
        self.calibration_result.load(Ordering::Relaxed)
    }

    pub fn set_vad_sensitivity(&self, mode: u32) {
        self.vad_sensitivity.store(mode, Ordering::Relaxed);
    }

    pub fn set_eq_gains(&self, low_mdb: i32, mid_mdb: i32, high_mdb: i32) {
        self.eq_low_gain.store(low_mdb, Ordering::Relaxed);
        self.eq_mid_gain.store(mid_mdb, Ordering::Relaxed);
        self.eq_high_gain.store(high_mdb, Ordering::Relaxed);
    }

    pub fn set_eq_enabled(&self, on: bool) {
        self.eq_enabled.store(on, Ordering::Relaxed);
    }

    pub fn set_agc_enabled(&self, on: bool) {
        self.agc_enabled.store(on, Ordering::Relaxed);
    }

    pub fn set_agc_target(&self, level: u32) {
        self.agc_target.store(level, Ordering::Relaxed);
    }

    pub fn set_bypass_enabled(&self, on: bool) {
        self.bypass_enabled.store(on, Ordering::Relaxed);
    }

    pub fn jitter(&self) -> u32 {
        self.jitter_ewma_us.load(Ordering::Relaxed)
    }

    pub fn set_gate_threshold(&self, micro: u32) {
        self.gate_threshold.store(micro, Ordering::Relaxed);
    }

    pub fn gate_threshold_value(&self) -> u32 {
        self.gate_threshold.load(Ordering::Relaxed)
    }

    pub fn set_suppression_strength(&self, micro: u32) {
        self.suppression_strength.store(micro, Ordering::Relaxed);
    }

    pub fn suppression_strength_value(&self) -> u32 {
        self.suppression_strength.load(Ordering::Relaxed)
    }

    pub fn set_dynamic_threshold_enabled(&self, on: bool) {
        self.dynamic_threshold_enabled.store(on, Ordering::Relaxed);
    }

    pub fn dynamic_threshold_on(&self) -> bool {
        self.dynamic_threshold_enabled.load(Ordering::Relaxed)
    }
}

} // verus!
