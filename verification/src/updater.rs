//! What an update check reports.
//!
//! Talking to a release feed is network plumbing and lives with the host
//! program; this type is the value it hands back.

use vstd::prelude::*;

verus! {

/// An available newer release.
#[derive(Debug, Clone)]
pub struct UpdateInfo {
    /// Version tag of the release.
    pub version: String,
    /// Where a person can fetch it.
    pub download_url: String,
}

} // verus!
