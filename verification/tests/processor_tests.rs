//! The frame processor and the frame-size adapter, driven with the
//! passthrough engine. Amplitudes are micro-units: 1_000_000 is full scale.

use voidmic_core::BypassState;
use voidmic_core::FrameAdapter;
use voidmic_core::PassthroughEngine;
use voidmic_core::VoidProcessor;
use voidmic_core::FRAME_SIZE;

fn new_processor(channels: usize) -> VoidProcessor<PassthroughEngine> {
    VoidProcessor::new(PassthroughEngine::new(), channels, 2, (0, 0, 0), 700000, false)
}

#[test]
fn test_processor_creation() {
    let _p1 = new_processor(1);
    let _p2 = VoidProcessor::new(PassthroughEngine::new(), 2, 0, (-3000, 0, 3000), 500000, false);
}

#[test]
fn test_silence_produces_silence() {
    let mut processor = new_processor(1);
    let input = vec![vec![0i32; FRAME_SIZE]];
    let mut output = vec![vec![0i32; FRAME_SIZE]];

    // Process enough frames for the noise gate to fully close
    for _ in 0..100 {
        processor.process_frame(&input, &mut output, None, 1000000, 15000, false);
    }

    // After many silent frames, output should be all zeros
    let max = output[0].iter().map(|s| s.abs()).max().unwrap();
    assert!(max < 1000, "Silent input should produce silent output: max={}", max);
}

#[test]
fn test_bypass_passes_through() {
    let mut processor = new_processor(1);
    processor.controls.set_bypass_enabled(true);
    processor.process_updates();

    // Generate a non-zero signal
    let mut input = vec![vec![0i32; FRAME_SIZE]];
    for (i, s) in input[0].iter_mut().enumerate() {
        *s = (i as i64 * 500000 / FRAME_SIZE as i64) as i32;
    }
    let mut output = vec![vec![0i32; FRAME_SIZE]];

    // Process enough frames for bypass crossfade to complete
    for _ in 0..20 {
        processor.process_frame(&input, &mut output, None, 1000000, 15000, false);
    }

    // After crossfade settles, output should match input
    for i in 0..FRAME_SIZE {
        assert!(
            (output[0][i] - input[0][i]).abs() < 10000,
            "Bypass should pass through: sample {} expected {} got {}",
            i,
            input[0][i],
            output[0][i]
        );
    }
    assert_eq!(processor.bypass_state(), BypassState::Bypassed);
}

#[test]
fn test_gate_closes_on_silence() {
    let mut processor = new_processor(1);

    // First, feed loud audio to open the noise gate
    let loud = vec![vec![300000i32; FRAME_SIZE]];
    let mut output = vec![vec![0i32; FRAME_SIZE]];
    for _ in 0..10 {
        processor.process_frame(&loud, &mut output, None, 1000000, 15000, false);
    }
    assert!(processor.gate_is_open());

    // Now feed silence - gate should close after release period
    let silence = vec![vec![0i32; FRAME_SIZE]];
    for _ in 0..200 {
        processor.process_frame(&silence, &mut output, None, 1000000, 15000, false);
    }

    let max = output[0].iter().map(|s| s.abs()).max().unwrap();
    assert!(max < 1000, "Gate should close after silence: max={}", max);
    assert!(!processor.gate_is_open());
}

#[test]
fn test_channel_mismatch_does_not_panic() {
    let mut processor = new_processor(2);
    let input = vec![vec![500000i32; FRAME_SIZE]];
    let mut output = vec![vec![500000i32; FRAME_SIZE]];

    // Pass 1 channel to a 2-channel processor: should not panic
    processor.process_frame(&input, &mut output, None, 1000000, 15000, false);

    // Output should be zeroed (silence fallback)
    assert_eq!(output[0][0], 0, "Mismatch should produce silence");
    assert!(output[0].iter().all(|s| *s == 0));
}

#[test]
fn test_process_updates_does_not_panic() {
    let mut processor = new_processor(1);
    // Call process_updates multiple times with no changes: should be safe
    for _ in 0..10 {
        processor.process_updates();
    }
}

#[test]
fn gate_hysteresis_survives_one_quiet_frame() {
    let mut processor = new_processor(1);
    let loud = vec![vec![300000i32; FRAME_SIZE]];
    let quiet = vec![vec![0i32; FRAME_SIZE]];
    let mut output = vec![vec![0i32; FRAME_SIZE]];
    for _ in 0..10 {
        processor.process_frame(&loud, &mut output, None, 1000000, 15000, false);
    }
    assert!(processor.gate_is_open());
    // A single quiet frame, far shorter than the 200 ms release, keeps it open
    processor.process_frame(&quiet, &mut output, None, 1000000, 15000, false);
    assert!(processor.gate_is_open());
    // Even 19 more quiet frames (200 ms total not yet exceeded) keep it open
    for _ in 0..19 {
        processor.process_frame(&quiet, &mut output, None, 1000000, 15000, false);
    }
    assert!(processor.gate_is_open());
}

#[test]
fn calibration_round_trip_through_processor() {
    let mut processor = new_processor(1);
    processor.controls.set_calibration_mode(true);
    let input = vec![vec![100000i32; FRAME_SIZE]];
    let mut output = vec![vec![0i32; FRAME_SIZE]];
    for _ in 0..300 {
        processor.process_frame(&input, &mut output, None, 1000000, 15000, false);
    }
    // Constant amplitude has that amplitude as RMS; suggestion adds 20 %.
    assert_eq!(processor.controls.calibration_result_value(), 120000);
    // Calibration mode switched itself off
    assert!(!processor.controls.calibration_mode_on());
}

#[test]
fn volume_reading_tracks_input_level() {
    let mut processor = new_processor(1);
    let input = vec![vec![250000i32; FRAME_SIZE]];
    let mut output = vec![vec![0i32; FRAME_SIZE]];
    processor.process_frame(&input, &mut output, None, 1000000, 15000, false);
    assert_eq!(processor.controls.volume(), 250000);
    assert_eq!(processor.last_rms(), 250000);
}

#[test]
fn agc_keeps_processed_output_inside_the_clip_limit() {
    let mut processor = new_processor(1);
    processor.controls.set_agc_enabled(true);
    processor.process_updates();
    let input = vec![vec![1000000i32; FRAME_SIZE]];
    let mut output = vec![vec![0i32; FRAME_SIZE]];
    for _ in 0..100 {
        processor.process_frame(&input, &mut output, None, 1000000, 15000, false);
        for s in output[0].iter() {
            assert!(-990000 <= *s && *s <= 990000, "sample exceeded the clip limit: {}", s);
        }
    }
}

#[test]
fn test_push_pop_roundtrip() {
    let mut adapter = FrameAdapter::new();
    let mut processor = new_processor(2);

    // Push a full stereo frame
    let left = vec![0i32; FRAME_SIZE];
    let right = vec![0i32; FRAME_SIZE];
    adapter.push_stereo_interleaved(&left, &right);

    // Process it
    adapter.process_available(&mut processor, 1000000, 15000, false);

    // Pop it back
    let mut out_l = vec![0i32; FRAME_SIZE];
    let mut out_r = vec![0i32; FRAME_SIZE];
    let count = adapter.pop_stereo(&mut out_l, &mut out_r);
    assert_eq!(count, FRAME_SIZE);
}

#[test]
fn test_mono_duplication() {
    let mut adapter = FrameAdapter::new();
    let mono = vec![500000i32; 4];
    adapter.push_mono(&mono);
    // Should have 8 samples queued (4 pairs)
    assert_eq!(adapter.input_len(), 8);
}

#[test]
fn test_partial_frame_does_not_process() {
    let mut adapter = FrameAdapter::new();
    let mut processor = new_processor(2);

    // Push less than a full frame
    let partial = vec![100000i32; FRAME_SIZE / 2];
    adapter.push_stereo_interleaved(&partial, &partial);

    // Process: should not produce output since not enough for a frame
    adapter.process_available(&mut processor, 1000000, 15000, false);
    assert_eq!(adapter.output_len(), 0);
}

#[test]
fn adapter_carries_bypassed_audio_through_in_order() {
    let mut adapter = FrameAdapter::new();
    let mut processor = new_processor(2);
    processor.controls.set_bypass_enabled(true);
    processor.process_updates();

    // Two frames: the first absorbs the crossfade, the second is a bit-exact copy.
    let left: Vec<i32> = (0..2 * FRAME_SIZE as i32).collect();
    let right: Vec<i32> = (0..2 * FRAME_SIZE as i32).map(|v| v + 100000).collect();
    adapter.push_stereo_interleaved(&left, &right);
    adapter.process_available(&mut processor, 1000000, 15000, false);

    let mut out_l = vec![0i32; 2 * FRAME_SIZE];
    let mut out_r = vec![0i32; 2 * FRAME_SIZE];
    let count = adapter.pop_stereo(&mut out_l, &mut out_r);
    assert_eq!(count, 2 * FRAME_SIZE);
    // Second frame passed through untouched, in order.
    for i in FRAME_SIZE..2 * FRAME_SIZE {
        assert_eq!(out_l[i], left[i], "left sample {} out of order", i);
        assert_eq!(out_r[i], right[i], "right sample {} out of order", i);
    }
}

#[test]
fn pop_mono_averages_the_two_channels() {
    let mut adapter = FrameAdapter::new();
    let mut processor = new_processor(2);
    processor.controls.set_bypass_enabled(true);
    processor.process_updates();

    let left = vec![100000i32; 2 * FRAME_SIZE];
    let right = vec![300000i32; 2 * FRAME_SIZE];
    adapter.push_stereo_interleaved(&left, &right);
    adapter.process_available(&mut processor, 1000000, 15000, false);

    let mut mono = vec![0i32; 2 * FRAME_SIZE];
    let count = adapter.pop_mono(&mut mono);
    assert_eq!(count, 2 * FRAME_SIZE);
    // Second frame is raw passthrough; its mono reading is the average.
    assert_eq!(mono[2 * FRAME_SIZE - 1], 200000);
}

#[test]
fn pop_zero_fills_on_underrun() {
    let mut adapter = FrameAdapter::new();
    let mut out_l = vec![7i32; 8];
    let mut out_r = vec![7i32; 8];
    let count = adapter.pop_stereo(&mut out_l, &mut out_r);
    assert_eq!(count, 0);
    assert!(out_l.iter().all(|s| *s == 0));
    assert!(out_r.iter().all(|s| *s == 0));
}

#[test]
fn suppression_strength_zero_keeps_raw_signal_while_gate_is_open() {
    let mut processor = new_processor(1);
    let input = vec![vec![300000i32; FRAME_SIZE]];
    let mut output = vec![vec![0i32; FRAME_SIZE]];
    // With the passthrough engine the blend cannot change anything, but the
    // call must behave identically with the dial at either end.
    for _ in 0..5 {
        processor.process_frame(&input, &mut output, None, 0, 15000, false);
    }
    assert!(processor.gate_is_open());
    assert_eq!(output[0][0], 300000);
}
