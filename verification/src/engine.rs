//! Hooks for the per-channel signal engines the processor drives.
//!
//! The echo canceller, the denoiser, the equalizer filters and the spectrum
//! path are floating-point engines living outside this crate; the processor
//! only decides when to call them and what to do with what comes back. Every
//! result is treated as arbitrary: the pipeline around the hooks clamps,
//! falls back and degrades gracefully whatever an engine returns.

use vstd::prelude::*;

verus! {

/// The engines one processing session drives, one implementation per host.
pub trait FrameEngine {
    /// Echo-cancels one channel's frame against a reference frame; `None`
    /// means the engine failed and the caller must fall back to the plain
    /// microphone signal.
    fn echo_cancel(&mut self, channel: usize, mic: &Vec<i32>, reference: &Vec<i32>) -> Option<
        Vec<i32>,
    >;

    /// Denoises one channel's frame.
    fn denoise(&mut self, channel: usize, input: &Vec<i32>) -> Vec<i32>;

    /// Rebuilds the equalizer filters for new band gains (milli-decibels);
    /// `false` means coefficient derivation failed and the equalizer stage
    /// is to be left out rather than the session aborted.
    fn update_eq(&mut self, low_mdb: i32, mid_mdb: i32, high_mdb: i32) -> bool;

    /// Runs one channel's frame through the equalizer filters.
    fn equalize(&mut self, channel: usize, samples: &Vec<i32>) -> Vec<i32>;

    /// Emits one spectrum snapshot pair; `false` means the receiving end is
    /// gone and no further snapshots should be offered.
    fn emit_spectrum(&mut self, input_mono: &Vec<i32>, output_mono: &Vec<i32>) -> bool;
}

/// Engine that changes nothing: no echo cancellation, identity denoiser and
/// equalizer, no spectrum consumer.
pub struct PassthroughEngine {
}

impl PassthroughEngine {
    pub fn new() -> (r: Self) {
        PassthroughEngine {  }
    }
}

impl FrameEngine for PassthroughEngine {
    fn echo_cancel(&mut self, channel: usize, mic: &Vec<i32>, reference: &Vec<i32>) -> Option<
        Vec<i32>,
    > {
        None
    }

    fn denoise(&mut self, channel: usize, input: &Vec<i32>) -> Vec<i32> {
        input.clone()
    }

    fn update_eq(&mut self, low_mdb: i32, mid_mdb: i32, high_mdb: i32) -> bool {
        true
    }

    fn equalize(&mut self, channel: usize, samples: &Vec<i32>) -> Vec<i32> {
        samples.clone()
    }

    fn emit_spectrum(&mut self, input_mono: &Vec<i32>, output_mono: &Vec<i32>) -> bool {
        true
    }
}

} // verus!
