//! Default control values a fresh session starts from.

use vstd::prelude::*;

verus! {

/// Default voice-detector aggressiveness (0 quality .. 3 very aggressive).
pub fn default_vad_sensitivity() -> (r: u32)
    ensures
        r == 2,
{
    2
}

/// A configuration that has never been saved counts as a first run.
pub fn default_first_run() -> (r: bool)
    ensures
        r,
{
    true
}

/// Default global hotkey that toggles processing.
pub fn default_toggle_hotkey() -> (r: String)
    ensures
        r@ == "Control+Shift+M"@,
{
    "Control+Shift+M".to_string()
}

/// Default processing preset name.
pub fn default_preset() -> (r: String)
    ensures
        r@ == "Standard"@,
{
    "Standard".to_string()
}

/// The interface starts dark.
pub fn default_dark_mode() -> (r: bool)
    ensures
        r,
{
    true
}

/// Default fixed gate threshold, micro-units (0.015 full scale).
pub fn default_gate_threshold() -> (r: u32)
    ensures
        r == 15000,
{
    15000
}

/// Default suppression strength: fully denoised.
pub fn default_suppression_strength() -> (r: u32)
    ensures
        r == 1000000,
{
    1000000
}

/// Default gain-control target level, micro-units (0.7 full scale).
pub fn default_agc_target() -> (r: u32)
    ensures
        r == 700000,
{
    700000
}

} // verus!
