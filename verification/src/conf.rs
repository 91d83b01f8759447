//! Detection settings.
use vstd::prelude::*;
use crate::ratio::Ratio;

verus! {

/// Settings of the scanner and of the two probes.
pub struct PeerBanConfig {
    /// Seconds between scans.
    pub scan_time: u64,
    /// Seconds a ban lasts.
    pub block_time: u64,
    /// Progress fallback detection: the peer claims less progress than we sent it.
    pub block_progress_fallback: bool,
    pub block_progress_fallback_threshold: Ratio,
    /// Excessive download detection: the peer takes more than the torrent's size.
    pub block_excessive_clients: bool,
    pub block_excessive_clients_threshold: Ratio,
}

impl Default for PeerBanConfig {
    /// Scan every 3 s, ban for a day, both probes on with thresholds 0.08 and 1.5.
    fn default() -> (r: Self)
        ensures
            r.scan_time == 3,
            r.block_time == 24 * 60 * 60,
            r.block_progress_fallback,
            r.block_progress_fallback_threshold == (Ratio { num: 8, den: 100 }),
            r.block_excessive_clients,
            r.block_excessive_clients_threshold == (Ratio { num: 15, den: 10 }),
    {
        PeerBanConfig {
            scan_time: 3,
            block_time: 24 * 60 * 60,
            block_progress_fallback: true,
            block_progress_fallback_threshold: Ratio { num: 8, den: 100 },
            block_excessive_clients: true,
            block_excessive_clients_threshold: Ratio { num: 15, den: 10 },
        }
    }
}

} // verus!
