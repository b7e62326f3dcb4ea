//! Voice activity detection through the WebRTC detector.
//!
//! One detector instance exists per aggressiveness mode, built once at
//! startup so that changing the sensitivity live never allocates on the
//! audio thread. The detector's verdict depends on its internal state and is
//! promised nothing about; the noise gate logic holds for either answer.

use vstd::prelude::*;

verus! {

#[verifier::external_type_specification]
#[verifier::external_body]
pub struct ExVad(webrtc_vad::Vad);

/// Relies on `webrtc_vad::Vad::new_with_rate_and_mode`: builds a 48 kHz
/// detector in the given aggressiveness mode (0 quality through 3 very
/// aggressive; larger values fall back to 3). It panics only when the
/// underlying allocation fails.
#[verifier::external_body]
pub(crate) fn new_detector(mode: u32) -> (r: webrtc_vad::Vad) {
    let m = match mode {
        0 => webrtc_vad::VadMode::Quality,
        1 => webrtc_vad::VadMode::LowBitrate,
        2 => webrtc_vad::VadMode::Aggressive,
        _ => webrtc_vad::VadMode::VeryAggressive,
    };
    webrtc_vad::Vad::new_with_rate_and_mode(webrtc_vad::SampleRate::Rate48kHz, m)
}

/// Relies on `webrtc_vad::Vad::is_voice_segment`: 480 samples are a valid
/// 10 ms frame at 48 kHz, so the call itself cannot reject the buffer, and a
/// nonempty buffer keeps its first-element access in bounds. The verdict
/// depends on the detector's state; an error is treated as no speech.
#[verifier::external_body]
pub(crate) fn detect_voice_at(vads: &mut Vec<webrtc_vad::Vad>, idx: usize, pcm: &Vec<i16>) -> (r:
    bool)
    requires
        idx < old(vads)@.len(),
        pcm@.len() == 480,
    ensures
        final(vads)@.len() == old(vads)@.len(),
{
    vads[idx].is_voice_segment(pcm.as_slice()).unwrap_or(false)
}

} // verus!
