//! The noise-floor tracker, the limiter and the calibrator, exercised on
//! concrete values. Amplitudes and levels are micro-units: 1_000_000 is full
//! scale, so 0.05 full scale is written 50_000.

use voidmic_core::Calibrator;
use voidmic_core::LookaheadLimiter;
use voidmic_core::NoiseFloorTracker;
use voidmic_core::FRAME_SIZE;

#[test]
fn test_initial_floor() {
    let tracker = NoiseFloorTracker::new();
    assert_eq!(tracker.floor(), 10000);
}

#[test]
fn test_floor_converges_to_minimum() {
    let mut tracker = NoiseFloorTracker::new();
    // Feed a constant RMS for many frames
    for _ in 0..500 {
        tracker.update(50000);
    }
    // Floor should converge toward 0.05 full scale
    assert!(
        tracker.floor() > 20000,
        "Floor should converge upward: got {}",
        tracker.floor()
    );
}

#[test]
fn test_floor_ignores_near_zero() {
    let mut tracker = NoiseFloorTracker::new();
    // Pre-fill with a known value
    for _ in 0..100 {
        tracker.update(30000);
    }
    let floor_before = tracker.floor();
    // Feed near-zero values (at the silence cutoff)
    for _ in 0..50 {
        tracker.update(10);
    }
    // Floor should not have dropped significantly from the near-zero values
    assert!(
        tracker.floor() > floor_before / 2,
        "Floor should not be dragged down by near-zero: got {}",
        tracker.floor()
    );
}

#[test]
fn test_floor_updates_with_new_minimum() {
    let mut tracker = NoiseFloorTracker::new();
    for _ in 0..100 {
        tracker.update(100000);
    }
    let high_floor = tracker.floor();
    // Now feed lower values
    for _ in 0..200 {
        tracker.update(5000);
    }
    assert!(
        tracker.floor() < high_floor,
        "Floor should track downward: {} should be < {}",
        tracker.floor(),
        high_floor
    );
}

#[test]
fn test_ring_buffer_wraps() {
    let mut tracker = NoiseFloorTracker::new();
    // Feed more than 300 samples (the ring buffer size)
    for i in 0..600u32 {
        tracker.update(10000 + i * 100);
    }
    // Should not panic, and floor should be reasonable
    assert!(tracker.floor() > 0);
}

#[test]
fn test_quiet_signal_gains_up() {
    let mut limiter = LookaheadLimiter::new(700000);
    let mut frames: Vec<Vec<i32>> = vec![vec![100000; FRAME_SIZE]];
    // Process several frames to let gain ramp up
    for _ in 0..50 {
        limiter.process_frame(&mut frames);
    }
    // After many frames, samples should be boosted above the input level
    assert!(
        frames[0][0].abs() > 100000,
        "Quiet signal should be boosted: got {}",
        frames[0][0]
    );
}

#[test]
fn test_loud_signal_gains_down() {
    let mut limiter = LookaheadLimiter::new(300000);
    let mut frames: Vec<Vec<i32>> = vec![vec![900000; FRAME_SIZE]];
    for _ in 0..50 {
        limiter.process_frame(&mut frames);
    }
    // After many frames, samples should be reduced below the input level
    assert!(
        frames[0][0].abs() < 900000,
        "Loud signal should be attenuated: got {}",
        frames[0][0]
    );
}

#[test]
fn test_output_never_clips() {
    let mut limiter = LookaheadLimiter::new(700000);
    let mut frames: Vec<Vec<i32>> = vec![vec![980000; FRAME_SIZE]];
    for _ in 0..100 {
        limiter.process_frame(&mut frames);
    }
    for sample in frames[0].iter() {
        assert!(
            sample.abs() <= 990000,
            "Output must not exceed 0.99 full scale: got {}",
            sample
        );
    }
}

#[test]
fn test_empty_frames_no_panic() {
    let mut limiter = LookaheadLimiter::new(700000);
    let mut frames: Vec<Vec<i32>> = vec![];
    limiter.process_frame(&mut frames); // Should not panic
}

#[test]
fn limiter_output_clips_even_huge_input() {
    let mut limiter = LookaheadLimiter::new(700000);
    let mut frames: Vec<Vec<i32>> = vec![vec![i32::MAX; 16], vec![i32::MIN; 16]];
    limiter.process_frame(&mut frames);
    for ch in frames.iter() {
        for s in ch.iter() {
            assert!(-990000 <= *s && *s <= 990000);
        }
    }
}

#[test]
fn calibrator_suggests_peak_with_headroom() {
    let mut calib = Calibrator::new();
    let mut result = None;
    for _ in 0..300 {
        if let Some(t) = calib.ingest(100000) {
            result = Some(t);
        }
    }
    // 1.2 times the constant reading
    assert_eq!(result, Some(120000));
    assert_eq!(calib.len(), 0);
}

#[test]
fn calibrator_floors_tiny_readings() {
    let mut calib = Calibrator::new();
    let mut result = None;
    for _ in 0..300 {
        if let Some(t) = calib.ingest(100) {
            result = Some(t);
        }
    }
    // 1.2 x 100 is far below the floor of 0.005 full scale
    assert_eq!(result, Some(5000));
}

#[test]
fn calibrator_reports_nothing_before_the_window_fills() {
    let mut calib = Calibrator::new();
    for _ in 0..299 {
        assert_eq!(calib.ingest(42), None);
    }
    assert_eq!(calib.len(), 299);
}

#[test]
fn jitter_average_moves_a_tenth_of_the_way() {
    // From a steady 0 toward a 1000 us measurement: one tenth per step.
    assert_eq!(voidmic_core::jitter_ewma_step(0, 1000), 100);
    assert_eq!(voidmic_core::jitter_ewma_step(100, 1000), 190);
    // A steady measurement is a fixed point.
    assert_eq!(voidmic_core::jitter_ewma_step(1000, 1000), 1000);
}
