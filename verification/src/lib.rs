//! Real-time microphone-signal conditioning engine.
//!
//! Audio frames are processed in fixed-point arithmetic: every amplitude and
//! level is an `i32`/`u32` number of micro-units, where 1_000_000 stands for
//! full scale (1.0). Hosts convert their native sample format at the boundary.

use vstd::prelude::*;

pub mod bypass;
pub mod calibration;
pub mod controls;
pub mod defaults;
pub mod device;
pub mod engine;
pub mod frame;
pub mod frame_adapter;
pub mod gate;
pub mod limiter;
pub mod noise_floor;
pub mod num;
pub mod processor;
pub mod pulse_info;
pub mod queue;
pub mod updater;
mod vad;

pub use bypass::BypassState;
pub use calibration::Calibrator;
pub use controls::Controls;
pub use controls::jitter_ewma_step;
pub use defaults::default_agc_target;
pub use defaults::default_dark_mode;
pub use defaults::default_first_run;
pub use defaults::default_gate_threshold;
pub use defaults::default_preset;
pub use defaults::default_suppression_strength;
pub use defaults::default_toggle_hotkey;
pub use defaults::default_vad_sensitivity;
pub use device::VIRTUAL_SINK_NAME;
pub use device::VirtualDevice;
pub use device::get_monitor_source_name;
pub use engine::FrameEngine;
pub use engine::PassthroughEngine;
pub use frame_adapter::FrameAdapter;
pub use gate::GateState;
pub use limiter::LookaheadLimiter;
pub use noise_floor::NoiseFloorTracker;
pub use processor::ControlSnapshot;
pub use pulse_info::ConnectedApp;
pub use pulse_info::parse_source_outputs;
pub use num::isqrt_u64;
pub use processor::VoidProcessor;
pub use updater::UpdateInfo;

verus! {

/// Samples per processing frame: 10 ms at 48 kHz.
pub const FRAME_SIZE: usize = 480;

/// Sample rate the engine is fixed to, in Hz.
pub const SAMPLE_RATE: u32 = 48000;

/// One full-scale unit: all amplitudes and levels count micro-units of it.
pub const UNIT: u32 = 1000000;

} // verus!
