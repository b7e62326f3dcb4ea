//! The frame-processing orchestrator.
//!
//! Per frame and per channel: echo-cancel against a reference frame, denoise,
//! blend raw and denoised signal by the suppression strength; mix everything
//! down to mono for analysis; publish the RMS, feed calibration, derive the
//! effective gate threshold, run voice detection and the noise gate with its
//! attack/release debouncing and closing fade; equalize and apply linked gain
//! control; and blend processed against raw signal while a bypass transition
//! is in flight. Stage order is fixed: later stages read earlier stages'
//! output.
//!
//! The suppression blend always mixes the denoised signal against the
//! echo-cancelled (not the pre-cancellation) signal.

use vstd::prelude::*;

use crate::bypass;
use crate::bypass::BypassState;
use crate::calibration::Calibrator;
use crate::controls::Controls;
use crate::engine::FrameEngine;
use crate::frame;
use crate::gate;
use crate::gate::GateState;
use crate::limiter::LookaheadLimiter;
use crate::noise_floor::NoiseFloorTracker;
use crate::num::abs;
use crate::num::spec_clamp;
use crate::vad;
use crate::FRAME_SIZE;

verus! {

/// Most channels a processor can be configured for: keeps every mixdown sum
/// inside 64-bit arithmetic.
pub const MAX_CHANNELS: usize = 64;

/// Dynamic threshold: the noise floor, half again, plus a small margin.
pub const DYN_MARGIN: u32 = 3000;

/// Dynamic threshold lower clamp (0.005 full scale).
pub const DYN_MIN: u32 = 5000;

/// Dynamic threshold upper clamp (0.08 full scale).
pub const DYN_MAX: u32 = 80000;

/// Spectrum snapshots go out every fourth frame.
pub const SPECTRUM_EVERY: u32 = 4;

/// One reading of every control cell the reconciliation step looks at.
#[derive(Clone, Copy, Debug, PartialEq, Eq, Structural)]
pub struct ControlSnapshot {
    pub vad_sensitivity: u32,
    pub eq_low: i32,
    pub eq_mid: i32,
    pub eq_high: i32,
    pub eq_enabled: bool,
    pub agc_enabled: bool,
    pub agc_target: u32,
    pub bypass_requested: bool,
}

/// The processor's locally cached control values, refreshed once per frame
/// cycle so the per-sample code never touches an atomic.
#[derive(Clone, Copy, Debug, PartialEq, Eq, Structural)]
pub struct ControlCache {
    pub vad_mode: u32,
    pub eq_low: i32,
    pub eq_mid: i32,
    pub eq_high: i32,
    pub eq_enabled: bool,
    pub agc_enabled: bool,
    pub agc_target: u32,
}

/// How one reconciliation step folds a snapshot into the cache: the detector
/// mode is clamped to the four variants that exist, equalizer gains are
/// re-derived only on a change above 0.01 dB, the gain-control target only on
/// a change above 0.01 full scale.
pub open spec fn reconcile_cache(c: ControlCache, snap: ControlSnapshot, eq_available: bool)
    -> ControlCache {
    let vm = if snap.vad_sensitivity > 3 {
        3u32
    } else {
        snap.vad_sensitivity
    };
    let eq_changed = eq_available && (abs(snap.eq_low - c.eq_low) > 10 || abs(
        snap.eq_mid - c.eq_mid,
    ) > 10 || abs(snap.eq_high - c.eq_high) > 10);
    let at = if abs(snap.agc_target - c.agc_target) > 10000 {
        snap.agc_target
    } else {
        c.agc_target
    };
    ControlCache {
        vad_mode: vm,
        eq_low: if eq_changed {
            snap.eq_low
        } else {
            c.eq_low
        },
        eq_mid: if eq_changed {
            snap.eq_mid
        } else {
            c.eq_mid
        },
        eq_high: if eq_changed {
            snap.eq_high
        } else {
            c.eq_high
        },
        eq_enabled: snap.eq_enabled,
        agc_enabled: snap.agc_enabled,
        agc_target: at,
    }
}

/// The suppression strength a frame actually applies: the argument clamped
/// to at most one full scale.
pub open spec fn strength_used(s: u32) -> int {
    if s > frame::BLEND_UNIT {
        frame::BLEND_UNIT as int
    } else {
        s as int
    }
}

/// Frame shape the processor accepts: the configured channel count on both
/// sides, every buffer one full frame long.
pub open spec fn shape_ok(channels: int, ins: Seq<Vec<i32>>, outs: Seq<Vec<i32>>) -> bool {
    &&& ins.len() == channels
    &&& outs.len() == channels
    &&& forall|i: int| 0 <= i < ins.len() ==> (#[trigger] ins[i]@.len()) == FRAME_SIZE
    &&& forall|i: int| 0 <= i < outs.len() ==> (#[trigger] outs[i]@.len()) == FRAME_SIZE
}

/// The noise gate state a frame leaves behind: the step decision, with the fade
/// fully run (a frame is as long as the fade window) or reset by an open gate.
pub open spec fn gate_after_frame(g: GateState, loud: bool) -> GateState {
    let g1 = gate::gate_step(g, loud);
    GateState {
        fade_position: if g1.is_open {
            0u32
        } else {
            gate::FADE_SAMPLES
        },
        ..g1
    }
}

/// The noise-gate state after `n` consecutive quiet, speech-free frames have been
/// processed.
pub open spec fn run_quiet_frames(g: GateState, n: nat) -> GateState
    decreases n,
{
    if n == 0 {
        g
    } else {
        gate_after_frame(run_quiet_frames(g, (n - 1) as nat), false)
    }
}

/// Silence converges to exact silence: from any reachable gate state,
/// twenty-one quiet, speech-free frames (the 200 ms release plus one frame)
/// leave the noise gate closed with its fade exhausted — and in that state
/// `process_frame`'s contract makes every further quiet frame's output
/// exactly zero (with the processor active and the equalizer stage out of
/// the way).
pub proof fn lemma_silence_converges(g: GateState, n: nat)
    requires
        g.since_open <= gate::RELEASE_SAMPLES + gate::GATE_FRAME,
        n >= 21,
    ensures
        !run_quiet_frames(g, n).is_open,
        run_quiet_frames(g, n).fade_position == gate::FADE_SAMPLES,
        !gate::gate_step(run_quiet_frames(g, n), false).is_open,
        gate::gate_step(run_quiet_frames(g, n), false).fade_position == gate::FADE_SAMPLES,
    decreases n,
{
    lemma_quiet_frames_progress(g, n);
}

/// Helper: under quiet frames the release counter climbs by one frame each
/// step until the noise gate is closed, and a closed gate stays closed with
/// a finished fade.
proof fn lemma_quiet_frames_progress(g: GateState, n: nat)
    requires
        g.since_open <= gate::RELEASE_SAMPLES + gate::GATE_FRAME,
        n >= 1,
    ensures
        run_quiet_frames(g, n).since_open <= gate::RELEASE_SAMPLES + gate::GATE_FRAME,
        run_quiet_frames(g, n).is_open ==> run_quiet_frames(g, n).since_open >= n
            * gate::GATE_FRAME,
        !run_quiet_frames(g, n).is_open ==> run_quiet_frames(g, n).fade_position
            == gate::FADE_SAMPLES,
        n >= 21 ==> !run_quiet_frames(g, n).is_open,
    decreases n,
{
    if n == 1 {
    } else {
        lemma_quiet_frames_progress(g, (n - 1) as nat);
        assert(run_quiet_frames(g, n) == gate_after_frame(
            run_quiet_frames(g, (n - 1) as nat),
            false,
        ));
    }
}

/// All-zero input measures as exact silence: with echo cancellation out and
/// the suppression dial at zero, the analyzed mix `process_frame` records is
/// the saturated input mix, so its RMS (the published volume) is zero — below
/// any positive gate threshold. Together with `lemma_silence_converges`,
/// sustained silent input closes the noise gate and the output goes to exact
/// zero, provided the voice detector reports no speech on silence.
pub proof fn lemma_silent_input_measures_zero(inputs: Seq<Vec<i32>>, channels: int)
    requires
        1 <= channels,
        inputs.len() == channels,
        forall|c: int| 0 <= c < channels ==> (#[trigger] inputs[c]@.len()) == FRAME_SIZE,
        forall|c: int, j: int|
            0 <= c < channels && 0 <= j < FRAME_SIZE ==> (#[trigger] inputs[c]@[j]) == 0i32,
    ensures
        frame::rms_of(
            frame::mono_of(
                Seq::new(channels as nat, |c: int| frame::saturated_seq(inputs[c]@)),
            ),
        ) == 0,
{
    let sat = Seq::new(channels as nat, |c: int| frame::saturated_seq(inputs[c]@));
    assert forall|c: int, j: int| 0 <= c < channels && 0 <= j < FRAME_SIZE implies (
    #[trigger] sat[c][j]) == 0i32 by {
        assert(inputs[c]@[j] == 0i32);
    }
    let mix = frame::mono_of(sat);
    assert forall|j: int| 0 <= j < FRAME_SIZE implies (#[trigger] mix[j]) == 0i32 by {
        lemma_zero_channel_sum(sat, j, channels as nat);
    }
    lemma_zero_sum_sq(mix, FRAME_SIZE as nat);
    crate::num::lemma_isqrt_unique(0, 0);
}

/// Summing zeros across channels gives zero.
proof fn lemma_zero_channel_sum(frames: Seq<Seq<i32>>, j: int, c: nat)
    requires
        c <= frames.len(),
        forall|t: int| 0 <= t < frames.len() ==> (#[trigger] frames[t])[j] == 0i32,
    ensures
        frame::channel_sum(frames, j, c) == 0,
    decreases c,
{
    if c > 0 {
        lemma_zero_channel_sum(frames, j, (c - 1) as nat);
    }
}

/// The sum of squares of zeros is zero.
proof fn lemma_zero_sum_sq(s: Seq<i32>, n: nat)
    requires
        n <= s.len(),
        forall|j: int| 0 <= j < s.len() ==> (#[trigger] s[j]) == 0i32,
    ensures
        frame::sum_sq(s, n) == 0,
    decreases n,
{
    if n > 0 {
        lemma_zero_sum_sq(s, (n - 1) as nat);
    }
}

/// Reconciling the same snapshot twice is the same as reconciling it once:
/// repeated `process_updates` calls under unchanged control values leave the
/// cache and the bypass machine exactly where the first call put them.
pub proof fn lemma_updates_idempotent(
    c: ControlCache,
    snap: ControlSnapshot,
    eq_available: bool,
    b: BypassState,
    pos: u32,
)
    ensures
        reconcile_cache(reconcile_cache(c, snap, eq_available), snap, eq_available)
            == reconcile_cache(c, snap, eq_available),
        bypass::request_step(bypass::request_step(b, snap.bypass_requested), snap.bypass_requested)
            == bypass::request_step(b, snap.bypass_requested),
        bypass::request_pos(
            bypass::request_step(b, snap.bypass_requested),
            snap.bypass_requested,
            bypass::request_pos(b, snap.bypass_requested, pos),
        ) == bypass::request_pos(b, snap.bypass_requested, pos),
{
}

/// The orchestrator: one per capture session, driven from a single audio
/// thread, with every tunable shared through the control block.
pub struct VoidProcessor<E: FrameEngine> {
    engine: E,
    channels: usize,
    echo_enabled: bool,
    eq_available: bool,
    vads: Vec<webrtc_vad::Vad>,
    limiter: LookaheadLimiter,
    tracker: NoiseFloorTracker,
    gate: GateState,
    bypass_state: BypassState,
    crossfade_pos: u32,
    calibrator: Calibrator,
    cache: ControlCache,
    last_speech: bool,
    last_rms: u32,
    last_threshold: u32,
    last_calibrating: bool,
    analyzed: Ghost<Seq<i32>>,
    mic_frames: Ghost<Seq<Seq<i32>>>,
    den_frames: Ghost<Seq<Seq<i32>>>,
    spectrum_counter: u32,
    spectrum_active: bool,
    /// Shared control cells; clone this out to the control surface.
    pub controls: Controls,
}

impl<E: FrameEngine> VoidProcessor<E> {
    pub closed spec fn channels_spec(&self) -> int {
        self.channels as int
    }

    pub closed spec fn gate_spec(&self) -> GateState {
        self.gate
    }

    pub closed spec fn bypass_spec(&self) -> BypassState {
        self.bypass_state
    }

    pub closed spec fn pos_spec(&self) -> u32 {
        self.crossfade_pos
    }

    pub closed spec fn cache_spec(&self) -> ControlCache {
        self.cache
    }

    pub closed spec fn eq_available_spec(&self) -> bool {
        self.eq_available
    }

    pub closed spec fn noise_floor_spec(&self) -> u32 {
        self.tracker.floor_spec()
    }

    pub closed spec fn tracker_spec(&self) -> NoiseFloorTracker {
        self.tracker
    }

    pub closed spec fn calibrator_spec(&self) -> Calibrator {
        self.calibrator
    }

    pub closed spec fn last_rms_spec(&self) -> u32 {
        self.last_rms
    }

    pub closed spec fn last_threshold_spec(&self) -> u32 {
        self.last_threshold
    }

    pub closed spec fn last_speech_spec(&self) -> bool {
        self.last_speech
    }

    /// Whether the last analyzed frame counted as loud: above the effective
    /// threshold, or carrying detected speech.
    pub open spec fn heard_loud(&self) -> bool {
        self.last_rms_spec() > self.last_threshold_spec() || self.last_speech_spec()
    }

    /// Whether the last analyzed frame found calibration mode switched on.
    pub closed spec fn calibrating_spec(&self) -> bool {
        self.last_calibrating
    }

    pub closed spec fn echo_enabled_spec(&self) -> bool {
        self.echo_enabled
    }

    /// The mono mix the last frame analyzed (the published volume is its RMS).
    pub closed spec fn mix_spec(&self) -> Seq<i32> {
        self.analyzed@
    }

    /// Per channel, the validated post-cancellation signal of the last frame:
    /// with echo cancellation off this is exactly the saturated input.
    pub closed spec fn mic_frames_spec(&self) -> Seq<Seq<i32>> {
        self.mic_frames@
    }

    /// Per channel, the validated denoiser output of the last frame.
    pub closed spec fn den_frames_spec(&self) -> Seq<Seq<i32>> {
        self.den_frames@
    }

    pub closed spec fn spectrum_counter_spec(&self) -> u32 {
        self.spectrum_counter
    }

    pub closed spec fn spectrum_active_spec(&self) -> bool {
        self.spectrum_active
    }

    /// Everything except the engine agrees between two processor values:
    /// loops that only drive the engine leave the rest of the state alone.
    spec fn same_but_engine(a: Self, b: Self) -> bool {
        &&& a.channels == b.channels
        &&& a.echo_enabled == b.echo_enabled
        &&& a.eq_available == b.eq_available
        &&& a.vads@.len() == b.vads@.len()
        &&& a.limiter == b.limiter
        &&& a.tracker == b.tracker
        &&& a.gate == b.gate
        &&& a.bypass_state == b.bypass_state
        &&& a.crossfade_pos == b.crossfade_pos
        &&& a.calibrator == b.calibrator
        &&& a.cache == b.cache
        &&& a.last_speech == b.last_speech
        &&& a.last_rms == b.last_rms
        &&& a.last_threshold == b.last_threshold
        &&& a.last_calibrating == b.last_calibrating
        &&& a.analyzed == b.analyzed
        &&& a.mic_frames == b.mic_frames
        &&& a.den_frames == b.den_frames
        &&& a.spectrum_counter == b.spectrum_counter
        &&& a.spectrum_active == b.spectrum_active
        &&& a.controls == b.controls
    }

    pub closed spec fn wf(&self) -> bool {
        &&& 1 <= self.channels <= MAX_CHANNELS
        &&& self.gate.fade_position <= gate::FADE_SAMPLES
        &&& self.crossfade_pos <= bypass::CROSSFADE_LEN
        &&& self.limiter.wf()
        &&& self.tracker.wf()
        &&& self.calibrator.wf()
        &&& self.cache.vad_mode <= 3
        &&& self.cache.agc_target == self.limiter.target_spec()
        &&& self.vads@.len() == 4
        &&& self.spectrum_counter < SPECTRUM_EVERY
    }

    /// Whether the noise gate currently lets signal through.
    pub fn gate_is_open(&self) -> (r: bool)
        ensures
            r == self.gate_spec().is_open,
    {
        self.gate.is_open
    }

    /// Where the bypass machine currently stands.
    pub fn bypass_state(&self) -> (r: BypassState)
        ensures
            r == self.bypass_spec(),
    {
        self.bypass_state
    }

    /// RMS of the last analyzed frame, micro-units.
    pub fn last_rms(&self) -> (r: u32)
        ensures
            r == self.last_rms_spec(),
    {
        self.last_rms
    }

    /// Builds a processor for a fixed channel count. Equalizer gains are
    /// milli-decibels, the gain-control target is micro-units. A failed
    /// equalizer construction leaves that stage out rather than failing the
    /// session.
    pub fn new(
        engine: E,
        channels: usize,
        vad_sensitivity: u32,
        eq_gains: (i32, i32, i32),
        agc_target: u32,
        echo_cancel_enabled: bool,
    ) -> (r: Self)
        requires
            1 <= channels <= MAX_CHANNELS,
        ensures
            r.wf(),
            r.channels_spec() == channels,
            r.gate_spec() == gate::initial_gate(),
            r.bypass_spec() == BypassState::Active,
            r.pos_spec() == 0,
            r.cache_spec().vad_mode <= 3,
            r.cache_spec().eq_enabled,
            !r.cache_spec().agc_enabled,
            r.cache_spec().agc_target == agc_target,
            r.calibrator_spec().readings().len() == 0,
    {
        let mut engine = engine;
        let (eq_low, eq_mid, eq_high) = eq_gains;
        let eq_available = engine.update_eq(eq_low, eq_mid, eq_high);
        let mut vads: Vec<webrtc_vad::Vad> = Vec::new();
        vads.push(vad::new_detector(0));
        vads.push(vad::new_detector(1));
        vads.push(vad::new_detector(2));
        vads.push(vad::new_detector(3));
        let vm = if vad_sensitivity > 3 {
            3
        } else {
            vad_sensitivity
        };
        VoidProcessor {
            engine,
            channels,
            echo_enabled: echo_cancel_enabled,
            eq_available,
            vads,
            limiter: LookaheadLimiter::new(agc_target),
            tracker: NoiseFloorTracker::new(),
            gate: GateState {
                is_open: false,
                since_close: 0,
                since_open: 0,
                fade_position: 0,
            },
            bypass_state: BypassState::Active,
            crossfade_pos: 0,
            calibrator: Calibrator::new(),
            cache: ControlCache {
                vad_mode: vm,
                eq_low,
                eq_mid,
                eq_high,
                eq_enabled: true,
                agc_enabled: false,
                agc_target,
            },
            last_speech: false,
            last_rms: 0,
            last_threshold: 0,
            last_calibrating: false,
            analyzed: Ghost(Seq::empty()),
            mic_frames: Ghost(Seq::empty()),
            den_frames: Ghost(Seq::empty()),
            spectrum_counter: 0,
            spectrum_active: false,
            controls: Controls::new(vad_sensitivity, eq_low, eq_mid, eq_high, agc_target),
        }
    }

    /// Folds one control snapshot into the cached values and the bypass
    /// machine. Everything the snapshot does not mention stays put.
    pub fn reconcile(&mut self, snap: ControlSnapshot)
        requires
            old(self).wf(),
        ensures
            final(self).wf(),
            final(self).cache_spec() == reconcile_cache(
                old(self).cache_spec(),
                snap,
                old(self).eq_available_spec(),
            ),
            final(self).bypass_spec() == bypass::request_step(
                old(self).bypass_spec(),
                snap.bypass_requested,
            ),
            final(self).pos_spec() == bypass::request_pos(
                old(self).bypass_spec(),
                snap.bypass_requested,
                old(self).pos_spec(),
            ),
            final(self).gate_spec() == old(self).gate_spec(),
            final(self).channels_spec() == old(self).channels_spec(),
            final(self).eq_available_spec() == old(self).eq_available_spec(),
            final(self).tracker_spec() == old(self).tracker_spec(),
            final(self).calibrator_spec() == old(self).calibrator_spec(),
            final(self).last_rms_spec() == old(self).last_rms_spec(),
            final(self).spectrum_active_spec() == old(self).spectrum_active_spec(),
    {
        let c = self.cache;
        // Detector mode.
        let vm = if snap.vad_sensitivity > 3 {
            3
        } else {
            snap.vad_sensitivity
        };
        // Equalizer gains: re-derive filters only on a real change.
        let dl: i64 = snap.eq_low as i64 - c.eq_low as i64;
        let dm: i64 = snap.eq_mid as i64 - c.eq_mid as i64;
        let dh: i64 = snap.eq_high as i64 - c.eq_high as i64;
        let eq_changed = self.eq_available && (dl > 10 || dl < -10 || dm > 10 || dm < -10 || dh
            > 10 || dh < -10);
        let (lo, mi, hi) = if eq_changed {
            let _ = self.engine.update_eq(snap.eq_low, snap.eq_mid, snap.eq_high);
            (snap.eq_low, snap.eq_mid, snap.eq_high)
        } else {
            (c.eq_low, c.eq_mid, c.eq_high)
        };
        // Gain-control target.
        let dt: i64 = snap.agc_target as i64 - c.agc_target as i64;
        let at = if dt > 10000 || dt < -10000 {
            snap.agc_target
        } else {
            c.agc_target
        };
        self.limiter.set_target(at);
        self.cache = ControlCache {
            vad_mode: vm,
            eq_low: lo,
            eq_mid: mi,
            eq_high: hi,
            eq_enabled: snap.eq_enabled,
            agc_enabled: snap.agc_enabled,
            agc_target: at,
        };
        // Bypass request: transitions always pass through a fade.
        match self.bypass_state {
            BypassState::Active => {
                if snap.bypass_requested {
                    self.bypass_state = BypassState::FadingOut;
                    self.crossfade_pos = 0;
                }
            },
            BypassState::Bypassed => {
                if !snap.bypass_requested {
                    self.bypass_state = BypassState::FadingIn;
                    self.crossfade_pos = 0;
                }
            },
            _ => {},
        }
    }

    /// Reads every control cell once and reconciles the cached copies; to be
    /// called once per frame cycle, before `process_frame`. The values read
    /// are whatever the control surface last wrote, so the contract promises
    /// exactly the reconciliation of some snapshot; with unchanged cells a
    /// second call changes nothing (`lemma_updates_idempotent`).
    pub fn process_updates(&mut self)
        requires
            old(self).wf(),
        ensures
            final(self).wf(),
            exists|snap: ControlSnapshot|
                {
                    &&& final(self).cache_spec() == reconcile_cache(
                        old(self).cache_spec(),
                        snap,
                        old(self).eq_available_spec(),
                    )
                    &&& final(self).bypass_spec() == bypass::request_step(
                        old(self).bypass_spec(),
                        snap.bypass_requested,
                    )
                    &&& final(self).pos_spec() == bypass::request_pos(
                        old(self).bypass_spec(),
                        snap.bypass_requested,
                        old(self).pos_spec(),
                    )
                },
            final(self).gate_spec() == old(self).gate_spec(),
            final(self).channels_spec() == old(self).channels_spec(),
            final(self).eq_available_spec() == old(self).eq_available_spec(),
            final(self).tracker_spec() == old(self).tracker_spec(),
            final(self).calibrator_spec() == old(self).calibrator_spec(),
    {
        let snap = ControlSnapshot {
            vad_sensitivity: self.controls.vad_sensitivity.load(
                core::sync::atomic::Ordering::Relaxed,
            ),
            eq_low: self.controls.eq_low_gain.load(core::sync::atomic::Ordering::Relaxed),
            eq_mid: self.controls.eq_mid_gain.load(core::sync::atomic::Ordering::Relaxed),
            eq_high: self.controls.eq_high_gain.load(core::sync::atomic::Ordering::Relaxed),
            eq_enabled: self.controls.eq_enabled.load(core::sync::atomic::Ordering::Relaxed),
            agc_enabled: self.controls.agc_enabled.load(core::sync::atomic::Ordering::Relaxed),
            agc_target: self.controls.agc_target.load(core::sync::atomic::Ordering::Relaxed),
            bypass_requested: self.controls.bypass_enabled.load(
                core::sync::atomic::Ordering::Relaxed,
            ),
        };
        self.reconcile(snap);
        proof {
            assert(self.cache_spec() == reconcile_cache(
                old(self).cache_spec(),
                snap,
                old(self).eq_available_spec(),
            ));
        }
    }

    /// Turns spectrum emission on or off; it also turns itself off for good
    /// once the receiving end is gone.
    pub fn set_spectrum_enabled(&mut self, on: bool)
        requires
            old(self).wf(),
        ensures
            final(self).wf(),
            final(self).spectrum_active_spec() == on,
            final(self).gate_spec() == old(self).gate_spec(),
            final(self).bypass_spec() == old(self).bypass_spec(),
            final(self).cache_spec() == old(self).cache_spec(),
            final(self).channels_spec() == old(self).channels_spec(),
    {
        self.spectrum_active = on;
    }

    /// Processes one frame: per-channel echo cancellation, denoising and
    /// suppression blending, mono analysis with gate, equalizer and linked
    /// gain control, and the bypass crossfade.
    ///
    /// A shape mismatch (wrong channel count on either side, or any buffer
    /// that is not exactly one frame long) yields all-silent output and
    /// leaves every piece of state untouched; it never panics. Fully
    /// bypassed, the output is a bit-exact copy of the raw input. Once the
    /// gate has fully closed (and the equalizer stage is not in the way) the
    /// output is exact silence. With gain control on and no bypass
    /// transition in flight, no output sample exceeds 0.99 full scale.
    #[verifier::rlimit(100)]
    #[verifier::spinoff_prover]
    pub fn process_frame(
        &mut self,
        input_frames: &Vec<Vec<i32>>,
        output_frames: &mut Vec<Vec<i32>>,
        ref_frames: Option<&Vec<Vec<i32>>>,
        suppression_strength: u32,
        gate_threshold: u32,
        dynamic_threshold_enabled: bool,
    )
        requires
            old(self).wf(),
        ensures
            final(self).wf(),
            final(self).channels_spec() == old(self).channels_spec(),
            final(self).eq_available_spec() == old(self).eq_available_spec(),
            final(self).cache_spec() == old(self).cache_spec(),
            final(output_frames)@.len() == old(output_frames)@.len(),
            forall|i: int|
                0 <= i < old(output_frames)@.len() ==> (#[trigger] final(output_frames)@[i]@.len())
                    == old(output_frames)@[i]@.len(),
            !shape_ok(old(self).channels_spec(), input_frames@, old(output_frames)@) ==> forall|
                i: int,
                j: int,
            |
                0 <= i < final(output_frames)@.len() && 0 <= j < final(output_frames)@[i]@.len()
                    ==> (#[trigger] final(output_frames)@[i]@[j]) == 0i32,
            !shape_ok(old(self).channels_spec(), input_frames@, old(output_frames)@) ==> final(self).gate_spec() == old(self).gate_spec() && final(self).bypass_spec() == old(self).bypass_spec() && final(self).pos_spec() == old(self).pos_spec(),
            !shape_ok(old(self).channels_spec(), input_frames@, old(output_frames)@) ==> final(self).tracker_spec() == old(self).tracker_spec() && final(self).calibrator_spec() == old(self).calibrator_spec() && final(self).last_rms_spec() == old(self).last_rms_spec()
                && final(self).last_threshold_spec() == old(self).last_threshold_spec() && final(self).spectrum_counter_spec() == old(self).spectrum_counter_spec(),
            shape_ok(old(self).channels_spec(), input_frames@, old(output_frames)@) ==> final(self).bypass_spec() == bypass::frame_step(old(self).bypass_spec()),
            shape_ok(old(self).channels_spec(), input_frames@, old(output_frames)@) ==> final(self).pos_spec() == if old(self).bypass_spec() == BypassState::FadingOut || old(self).bypass_spec() == BypassState::FadingIn {
                bypass::CROSSFADE_LEN
            } else {
                old(self).pos_spec()
            },
            shape_ok(old(self).channels_spec(), input_frames@, old(output_frames)@) && old(self).bypass_spec() == BypassState::Bypassed ==> forall|i: int|
                0 <= i < final(output_frames)@.len() ==> (#[trigger] final(output_frames)@[i]@)
                    == input_frames@[i]@,
            shape_ok(old(self).channels_spec(), input_frames@, old(output_frames)@) && old(self).bypass_spec() == BypassState::Bypassed ==> final(self).gate_spec() == old(self).gate_spec() && final(self).tracker_spec() == old(self).tracker_spec() && final(self).calibrator_spec() == old(self).calibrator_spec() && final(self).last_rms_spec()
                == old(self).last_rms_spec(),
            shape_ok(old(self).channels_spec(), input_frames@, old(output_frames)@) && old(self).bypass_spec() != BypassState::Bypassed ==> final(self).gate_spec()
                == gate_after_frame(old(self).gate_spec(), final(self).heard_loud()),
            shape_ok(old(self).channels_spec(), input_frames@, old(output_frames)@) && old(self).bypass_spec() != BypassState::Bypassed && !dynamic_threshold_enabled ==> final(self).last_threshold_spec() == gate_threshold && final(self).tracker_spec() == old(self).tracker_spec(),
            shape_ok(old(self).channels_spec(), input_frames@, old(output_frames)@) && old(self).bypass_spec() != BypassState::Bypassed && dynamic_threshold_enabled ==> final(self).last_threshold_spec() == spec_clamp(
                (final(self).noise_floor_spec() as int) * 3 / 2 + DYN_MARGIN,
                DYN_MIN as int,
                DYN_MAX as int,
            ),
            shape_ok(old(self).channels_spec(), input_frames@, old(output_frames)@) && old(self).bypass_spec() != BypassState::Bypassed && dynamic_threshold_enabled
                ==> crate::noise_floor::updated_from(
                final(self).tracker_spec(),
                old(self).tracker_spec(),
                final(self).last_rms_spec(),
            ),
            shape_ok(old(self).channels_spec(), input_frames@, old(output_frames)@) && old(self).bypass_spec() != BypassState::Bypassed && final(self).calibrating_spec() ==> if old(self).calibrator_spec().readings().len() + 1 < crate::calibration::CALIBRATION_FRAMES {
                final(self).calibrator_spec().readings() == old(self).calibrator_spec().readings().push(final(self).last_rms_spec())
            } else {
                final(self).calibrator_spec().readings().len() == 0
            },
            shape_ok(old(self).channels_spec(), input_frames@, old(output_frames)@) && old(self).bypass_spec() != BypassState::Bypassed && !final(self).calibrating_spec() ==> final(self).calibrator_spec() == old(self).calibrator_spec(),
            shape_ok(old(self).channels_spec(), input_frames@, old(output_frames)@) && old(self).bypass_spec() != BypassState::Bypassed ==> final(self).mix_spec().len() == FRAME_SIZE
                && final(self).last_rms_spec() == frame::rms_of(final(self).mix_spec()),
            shape_ok(old(self).channels_spec(), input_frames@, old(output_frames)@) && old(self).bypass_spec() != BypassState::Bypassed ==> final(self).mic_frames_spec().len() == old(self).channels_spec() && final(self).den_frames_spec().len() == old(self).channels_spec()
                && (forall|c: int|
                0 <= c < old(self).channels_spec() ==> (#[trigger] final(self).mic_frames_spec()[c]).len() == FRAME_SIZE && final(self).den_frames_spec()[c].len()
                    == FRAME_SIZE),
            shape_ok(old(self).channels_spec(), input_frames@, old(output_frames)@) && old(self).bypass_spec() != BypassState::Bypassed && !old(self).echo_enabled_spec() ==> forall|
                c: int,
            |
                0 <= c < old(self).channels_spec() ==> (#[trigger] final(self).mic_frames_spec()[c])
                    == frame::saturated_seq(input_frames@[c]@),
            shape_ok(old(self).channels_spec(), input_frames@, old(output_frames)@) && old(self).bypass_spec() != BypassState::Bypassed ==> final(self).mix_spec() == frame::mono_of(
                Seq::new(
                    old(self).channels_spec() as nat,
                    |c: int|
                        frame::blended_seq(
                            final(self).mic_frames_spec()[c],
                            final(self).den_frames_spec()[c],
                            strength_used(suppression_strength),
                        ),
                ),
            ),
            shape_ok(old(self).channels_spec(), input_frames@, old(output_frames)@) && old(self).bypass_spec() != BypassState::Bypassed && !old(self).echo_enabled_spec()
                && suppression_strength == 0 ==> final(self).mix_spec() == frame::mono_of(
                Seq::new(
                    old(self).channels_spec() as nat,
                    |c: int| frame::saturated_seq(input_frames@[c]@),
                ),
            ),
            shape_ok(old(self).channels_spec(), input_frames@, old(output_frames)@) && old(self).bypass_spec() == BypassState::Active && !old(self).echo_enabled_spec()
                && suppression_strength == 0 && !(old(self).cache_spec().eq_enabled && old(self).eq_available_spec()) && !old(self).cache_spec().agc_enabled && gate::gate_step(
                old(self).gate_spec(),
                final(self).heard_loud(),
            ).is_open ==> forall|c: int|
                0 <= c < final(output_frames)@.len() ==> (#[trigger] final(output_frames)@[c]@)
                    == frame::saturated_seq(input_frames@[c]@),
            shape_ok(old(self).channels_spec(), input_frames@, old(output_frames)@) && old(self).bypass_spec() == BypassState::Active && !gate::gate_step(
                old(self).gate_spec(),
                final(self).heard_loud(),
            ).is_open && gate::gate_step(
                old(self).gate_spec(),
                final(self).heard_loud(),
            ).fade_position >= gate::FADE_SAMPLES && !(old(self).cache_spec().eq_enabled && old(self).eq_available_spec()) ==> forall|i: int, j: int|
                0 <= i < final(output_frames)@.len() && 0 <= j < final(output_frames)@[i]@.len()
                    ==> (#[trigger] final(output_frames)@[i]@[j]) == 0i32,
            shape_ok(old(self).channels_spec(), input_frames@, old(output_frames)@) && old(self).bypass_spec() == BypassState::Active && old(self).cache_spec().agc_enabled ==> forall|
                i: int,
                j: int,
            |
                0 <= i < final(output_frames)@.len() && 0 <= j < final(output_frames)@[i]@.len()
                    ==> -crate::limiter::CLIP_LIMIT <= (#[trigger] final(output_frames)@[i]@[j])
                    <= crate::limiter::CLIP_LIMIT,
    {
        let channels = self.channels;
        proof {
            assert(old(self).wf());
        }

        // Shape validation: mismatched calls yield silence, never a panic.
        let counts_ok = input_frames.len() == channels && output_frames.len() == channels;
        let mut lens_ok = true;
        if counts_ok {
            let mut i: usize = 0;
            while i < channels
                invariant
                    i <= channels,
                    input_frames@.len() == channels,
                    output_frames@.len() == channels,
                    output_frames@ == old(output_frames)@,
                    lens_ok <==> (forall|t: int|
                        0 <= t < i ==> (#[trigger] input_frames@[t]@.len()) == FRAME_SIZE
                            && output_frames@[t]@.len() == FRAME_SIZE),
                decreases channels - i,
            {
                let ghost was = lens_ok;
                let bad = input_frames[i].len() != FRAME_SIZE || output_frames[i].len()
                    != FRAME_SIZE;
                if bad {
                    lens_ok = false;
                }
                proof {
                    if was && !bad {
                        assert forall|t: int| 0 <= t < i + 1 implies (
                        #[trigger] input_frames@[t]@.len()) == FRAME_SIZE
                            && output_frames@[t]@.len() == FRAME_SIZE by {
                            if t < i {
                            }
                        }
                    }
                }
                i += 1;
            }
            proof {
                assert(i == channels);
                if lens_ok {
                    assert forall|t: int| 0 <= t < channels implies (
                    #[trigger] input_frames@[t]@.len()) == FRAME_SIZE by {
                        assert(output_frames@[t]@ == old(output_frames)@[t]@);
                    }
                    assert forall|t: int| 0 <= t < channels implies (
                    #[trigger] old(output_frames)@[t]@.len()) == FRAME_SIZE by {
                        assert(input_frames@[t]@.len() == FRAME_SIZE);
                        assert(output_frames@[t]@ == old(output_frames)@[t]@);
                    }
                    assert(shape_ok(channels as int, input_frames@, old(output_frames)@));
                } else {
                    let t = choose|t: int|
                        !(0 <= t < channels ==> (#[trigger] input_frames@[t]@.len()) == FRAME_SIZE
                            && output_frames@[t]@.len() == FRAME_SIZE);
                    assert(!shape_ok(channels as int, input_frames@, old(output_frames)@));
                }
            }
        }
        let ok = counts_ok && lens_ok;
        proof {
            if !counts_ok {
                assert(!shape_ok(channels as int, input_frames@, old(output_frames)@));
            }
            assert(ok == shape_ok(channels as int, input_frames@, old(output_frames)@));
        }
        if !ok {
            let mut i: usize = 0;
            while i < output_frames.len()
                invariant
                    i <= output_frames@.len(),
                    output_frames@.len() == old(output_frames)@.len(),
                    forall|t: int|
                        i <= t < output_frames@.len() ==> (#[trigger] output_frames@[t]@) == old(output_frames)@[t]@,
                    forall|t: int|
                        0 <= t < i ==> (#[trigger] output_frames@[t]@.len()) == old(output_frames)@[t]@.len() && forall|j: int|
                            0 <= j < output_frames@[t]@.len() ==> output_frames@[t]@[j] == 0i32,
                decreases output_frames@.len() - i,
            {
                let len_i = output_frames[i].len();
                output_frames.set(i, frame::zero_frame(len_i));
                i += 1;
            }
            return ;
        }

        // Stage 1, per channel: echo-cancel, denoise, blend. Every engine
        // result is validated and saturated before it is trusted with
        // anything.
        let sup = if suppression_strength > frame::BLEND_UNIT {
            frame::BLEND_UNIT
        } else {
            suppression_strength
        };
        let mut work: Vec<Vec<i32>> = Vec::new();
        let ghost pre1: Self = *self;
        let ghost mut gmics: Seq<Seq<i32>> = Seq::empty();
        let ghost mut gdens: Seq<Seq<i32>> = Seq::empty();
        let mut i: usize = 0;
        while i < channels
            invariant
                Self::same_but_engine(*self, pre1),
                pre1 == *old(self),
                self.wf(),
                i <= channels,
                1 <= channels <= MAX_CHANNELS,
                input_frames@.len() == channels,
                forall|t: int|
                    0 <= t < channels ==> (#[trigger] input_frames@[t]@.len()) == FRAME_SIZE,
                work@.len() == i,
                gmics.len() == i,
                gdens.len() == i,
                forall|t: int| 0 <= t < i ==> (#[trigger] work@[t]@.len()) == FRAME_SIZE,
                forall|t: int| 0 <= t < i ==> (#[trigger] gmics[t]).len() == FRAME_SIZE,
                forall|t: int| 0 <= t < i ==> (#[trigger] gdens[t]).len() == FRAME_SIZE,
                forall|t: int, j: int|
                    0 <= t < i && 0 <= j < FRAME_SIZE ==> abs(#[trigger] work@[t]@[j] as int)
                        <= frame::SAMPLE_LIMIT,
                !pre1.echo_enabled ==> forall|t: int|
                    0 <= t < i ==> (#[trigger] gmics[t]) == frame::saturated_seq(
                        input_frames@[t]@,
                    ),
                forall|t: int|
                    0 <= t < i ==> (#[trigger] work@[t]@) == frame::blended_seq(
                        gmics[t],
                        gdens[t],
                        sup as int,
                    ),
                sup <= frame::BLEND_UNIT,
            decreases channels - i,
        {
            let raw_sat = frame::saturate_frame(&input_frames[i]);
            let mic: Vec<i32> = if self.echo_enabled {
                if let Some(refs) = ref_frames {
                    if refs.len() > 0 {
                        let ridx = if i < refs.len() {
                            i
                        } else {
                            0
                        };
                        if refs[ridx].len() == FRAME_SIZE {
                            match self.engine.echo_cancel(i, &raw_sat, &refs[ridx]) {
                                Some(c) => if c.len() == FRAME_SIZE {
                                    frame::saturate_frame(&c)
                                } else {
                                    raw_sat
                                },
                                None => raw_sat,
                            }
                        } else {
                            raw_sat
                        }
                    } else {
                        raw_sat
                    }
                } else {
                    raw_sat
                }
            } else {
                raw_sat
            };
            proof {
                if !pre1.echo_enabled {
                    assert(mic@ =~= frame::saturated_seq(input_frames@[i as int]@));
                }
            }
            let den = self.engine.denoise(i, &mic);
            let den_sat = if den.len() == FRAME_SIZE {
                frame::saturate_frame(&den)
            } else {
                frame::copy_frame(&mic)
            };
            let blendv = frame::blend_frame(&mic, &den_sat, sup);
            proof {
                assert(blendv@ =~= frame::blended_seq(mic@, den_sat@, sup as int));
                gmics = gmics.push(mic@);
                gdens = gdens.push(den_sat@);
            }
            work.push(blendv);
            i += 1;
        }

        // Stage 2: normalized mono mix for analysis.
        let mix = frame::mix_mono(&work, FRAME_SIZE);

        if self.bypass_state == BypassState::Bypassed {
            // Stage 3, short-circuit: raw passthrough, zero analysis cost.
            let mut i: usize = 0;
            while i < channels
                invariant
                    i <= channels,
                    input_frames@.len() == channels,
                    output_frames@.len() == channels,
                    forall|t: int|
                        i <= t < channels ==> (#[trigger] output_frames@[t]@) == old(output_frames)@[t]@,
                    forall|t: int|
                        0 <= t < i ==> (#[trigger] output_frames@[t]@) == input_frames@[t]@,
                decreases channels - i,
            {
                output_frames.set(i, frame::copy_frame(&input_frames[i]));
                i += 1;
            }
        } else {
            // Stage 4: analysis on the mono mix.
            let rms = frame::frame_rms(&mix);
            self.last_rms = rms;
            self.analyzed = Ghost(mix@);
            self.mic_frames = Ghost(gmics);
            self.den_frames = Ghost(gdens);
            proof {
                let target = Seq::new(
                    channels as nat,
                    |c: int| frame::blended_seq(gmics[c], gdens[c], sup as int),
                );
                let wv = work@.map_values(|v: Vec<i32>| v@);
                assert forall|c: int| 0 <= c < channels implies (#[trigger] wv[c]) == target[c] by {
                    assert(wv[c] == work@[c]@);
                }
                assert(wv =~= target);
                assert(mix@ =~= frame::mono_of(target));
                if !pre1.echo_enabled && suppression_strength == 0 {
                    assert(sup == 0);
                    let sat = Seq::new(
                        channels as nat,
                        |c: int| frame::saturated_seq(input_frames@[c]@),
                    );
                    assert forall|c: int| 0 <= c < channels implies (#[trigger] target[c])
                        == sat[c] by {
                        assert(gmics[c] == frame::saturated_seq(input_frames@[c]@));
                        assert forall|j: int| 0 <= j < FRAME_SIZE implies (
                        #[trigger] frame::blended_seq(gmics[c], gdens[c], 0)[j]) == gmics[c][j] by {
                            frame::lemma_blend_zero(gmics[c][j] as int, gdens[c][j] as int);
                        }
                        assert(frame::blended_seq(gmics[c], gdens[c], 0) =~= gmics[c]);
                    }
                    assert(target =~= sat);
                    assert(mix@ =~= frame::mono_of(sat));
                }
            }
            self.controls.volume_level.store(rms, core::sync::atomic::Ordering::Relaxed);
            let calibrating = self.controls.calibration_mode.load(
                core::sync::atomic::Ordering::Relaxed,
            );
            self.last_calibrating = calibrating;
            if calibrating {
                match self.calibrator.ingest(rms) {
                    Some(threshold) => {
                        self.controls.calibration_result.store(
                            threshold,
                            core::sync::atomic::Ordering::Relaxed,
                        );
                        self.controls.calibration_mode.store(
                            false,
                            core::sync::atomic::Ordering::Relaxed,
                        );
                    },
                    None => {},
                }
            }

            // Stage 5: gate decision.
            let thr: u32 = if dynamic_threshold_enabled {
                self.tracker.update(rms);
                let f = self.tracker.floor();
                let d: u64 = (f as u64) * 3 / 2 + DYN_MARGIN as u64;
                if d < DYN_MIN as u64 {
                    DYN_MIN
                } else if d > DYN_MAX as u64 {
                    DYN_MAX
                } else {
                    d as u32
                }
            } else {
                gate_threshold
            };
            self.last_threshold = thr;
            let pcm = frame::to_pcm16(&mix);
            let mode = self.cache.vad_mode as usize;
            let speech = vad::detect_voice_at(&mut self.vads, mode, &pcm);
            self.last_speech = speech;
            let loud = rms > thr || speech;
            self.gate = gate::step(self.gate, loud);

            // Stage 6: gate fade and equalizer per channel.
            let eq_on = self.cache.eq_enabled && self.eq_available;
            proof {
                assert(self.gate.fade_position <= gate::FADE_SAMPLES);
            }
            let fp0 = self.gate.fade_position;
            let gate_open_now = self.gate.is_open;
            let mut staged: Vec<Vec<i32>> = Vec::new();
            let ghost pre6: Self = *self;
            let mut i: usize = 0;
            while i < channels
                invariant
                    Self::same_but_engine(*self, pre6),
                    self.wf(),
                    fp0 == self.gate.fade_position || gate_open_now,
                    i <= channels,
                    1 <= channels <= MAX_CHANNELS,
                    work@.len() == channels,
                    fp0 <= gate::FADE_SAMPLES,
                    forall|t: int| 0 <= t < channels ==> (#[trigger] work@[t]@.len()) == FRAME_SIZE,
                    forall|t: int, j: int|
                        0 <= t < channels && 0 <= j < FRAME_SIZE ==> abs(
                            #[trigger] work@[t]@[j] as int,
                        ) <= frame::SAMPLE_LIMIT,
                    staged@.len() == i,
                    forall|t: int| 0 <= t < i ==> (#[trigger] staged@[t]@.len()) == FRAME_SIZE,
                    forall|t: int, j: int|
                        0 <= t < i && 0 <= j < FRAME_SIZE ==> abs(#[trigger] staged@[t]@[j] as int)
                            <= frame::SAMPLE_LIMIT,
                    gate_open_now && !eq_on ==> forall|t: int|
                        0 <= t < i ==> (#[trigger] staged@[t]@) == work@[t]@,
                    !gate_open_now && fp0 >= gate::FADE_SAMPLES && !eq_on ==> forall|
                        t: int,
                        j: int,
                    |
                        0 <= t < i && 0 <= j < FRAME_SIZE ==> (#[trigger] staged@[t]@[j]) == 0i32,
                decreases channels - i,
            {
                let mut row = frame::copy_frame(&work[i]);
                if !gate_open_now {
                    gate::apply_fade(&mut row, fp0);
                    proof {
                        assert forall|j: int| 0 <= j < FRAME_SIZE implies abs(
                            #[trigger] row@[j] as int,
                        ) <= frame::SAMPLE_LIMIT by {
                            crate::num::lemma_scale_bound(
                                work@[i as int]@[j] as int,
                                if fp0 + j < gate::FADE_SAMPLES {
                                    (gate::FADE_SAMPLES - fp0 - j) as int
                                } else {
                                    0
                                },
                                gate::FADE_SAMPLES as int,
                            );
                        }
                    }
                }
                if eq_on {
                    let e = self.engine.equalize(i, &row);
                    if e.len() == FRAME_SIZE {
                        row = frame::saturate_frame(&e);
                    }
                }
                staged.push(row);
                i += 1;
            }
            if !gate_open_now {
                self.gate.fade_position = gate::FADE_SAMPLES;
            } else {
                self.gate.fade_position = 0;
            }

            // Stage 7: linked gain control.
            if self.cache.agc_enabled {
                self.limiter.process_frame(&mut staged);
            }

            // Write the processed frame out.
            let ghost staged_view: Seq<Seq<i32>> = staged@.map_values(|v: Vec<i32>| v@);
            let mut i: usize = 0;
            while i < channels
                invariant
                    i <= channels,
                    staged@.len() == channels,
                    output_frames@.len() == channels,
                    staged_view == staged@.map_values(|v: Vec<i32>| v@),
                    staged_view.len() == channels,
                    forall|t: int|
                        i <= t < channels ==> (#[trigger] output_frames@[t]@) == old(output_frames)@[t]@,
                    forall|t: int|
                        0 <= t < i ==> (#[trigger] output_frames@[t]@) == staged_view[t],
                decreases channels - i,
            {
                output_frames.set(i, frame::copy_frame(&staged[i]));
                i += 1;
            }
            proof {
                if pre1.bypass_state == BypassState::Active && !pre1.echo_enabled
                    && suppression_strength == 0 && !eq_on && !pre1.cache.agc_enabled
                    && gate_open_now {
                    assert forall|c: int| 0 <= c < channels implies (
                    #[trigger] output_frames@[c]@) == frame::saturated_seq(
                        input_frames@[c]@,
                    ) by {
                        assert(output_frames@[c]@ == staged_view[c]);
                        assert(staged_view[c] == staged@[c]@);
                        assert(staged@[c]@ == work@[c]@);
                        assert(work@[c]@ == frame::blended_seq(gmics[c], gdens[c], 0));
                        assert forall|j: int| 0 <= j < FRAME_SIZE implies (
                        #[trigger] frame::blended_seq(gmics[c], gdens[c], 0)[j])
                            == gmics[c][j] by {
                            frame::lemma_blend_zero(gmics[c][j] as int, gdens[c][j] as int);
                        }
                        assert(frame::blended_seq(gmics[c], gdens[c], 0) =~= gmics[c]);
                        assert(gmics[c] == frame::saturated_seq(input_frames@[c]@));
                    }
                }
            }
        }

        // Stage 8: bypass crossfade and state advance.
        match self.bypass_state {
            BypassState::FadingOut => {
                let p = bypass::apply_crossfade(output_frames, input_frames, self.crossfade_pos, true);
                self.crossfade_pos = p;
                if p >= bypass::CROSSFADE_LEN {
                    self.bypass_state = BypassState::Bypassed;
                }
            },
            BypassState::FadingIn => {
                let p = bypass::apply_crossfade(output_frames, input_frames, self.crossfade_pos, false);
                self.crossfade_pos = p;
                if p >= bypass::CROSSFADE_LEN {
                    self.bypass_state = BypassState::Active;
                }
            },
            _ => {},
        }

        // Stage 9: throttled spectrum emission.
        proof {
            assert(self.spectrum_counter < SPECTRUM_EVERY);
        }
        self.spectrum_counter = self.spectrum_counter + 1;
        if self.spectrum_counter >= SPECTRUM_EVERY {
            self.spectrum_counter = 0;
        }
        if self.spectrum_counter == 0 && self.spectrum_active {
            let mut sat_in: Vec<Vec<i32>> = Vec::new();
            let mut i: usize = 0;
            while i < channels
                invariant
                    i <= channels,
                    1 <= channels <= MAX_CHANNELS,
                    input_frames@.len() == channels,
                    forall|t: int|
                        0 <= t < channels ==> (#[trigger] input_frames@[t]@.len()) == FRAME_SIZE,
                    sat_in@.len() == i,
                    forall|t: int| 0 <= t < i ==> (#[trigger] sat_in@[t]@.len()) == FRAME_SIZE,
                    forall|t: int, j: int|
                        0 <= t < i && 0 <= j < FRAME_SIZE ==> abs(#[trigger] sat_in@[t]@[j] as int)
                            <= frame::SAMPLE_LIMIT,
                decreases channels - i,
            {
                sat_in.push(frame::saturate_frame(&input_frames[i]));
                i += 1;
            }
            let input_mono = frame::mix_mono(&sat_in, FRAME_SIZE);
            let keep = self.engine.emit_spectrum(&input_mono, &mix);
            if !keep {
                self.spectrum_active = false;
            }
        }
    }
}

} // verus!
