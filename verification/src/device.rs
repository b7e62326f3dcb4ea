//! Names and descriptions of the virtual audio device the engine feeds.
//!
//! Creating and destroying the device is shell plumbing and lives with the
//! host program; this module holds the values that plumbing and the engine
//! agree on.

use vstd::prelude::*;

verus! {

/// Name of the virtual sink the engine's output feeds.
pub const VIRTUAL_SINK_NAME: &'static str = "VoidMic_Clean";

/// A virtual sink created for the engine's output.
#[derive(Debug, Clone)]
pub struct VirtualDevice {
    /// Module id the sound server returned, 0 when unknown.
    pub module_id: u32,
    /// Name the sink was registered under.
    pub sink_name: String,
}

/// Monitor-source name applications select as their microphone input:
/// the virtual sink's name with the `.monitor` suffix.
pub fn get_monitor_source_name() -> (r: String)
    ensures
        r@ == "VoidMic_Clean.monitor"@,
{
    "VoidMic_Clean.monitor".to_string()
}

} // verus!
