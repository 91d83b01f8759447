//! A torrent as the client reports it.
use vstd::prelude::*;

verus! {

/// A torrent that is being seeded or downloaded.
#[derive(Debug, Clone)]
pub struct Torrent {
    pub name: String,
    pub hash: String,
    /// Size in bytes.
    pub size: u64,
    /// Announce URL of the current tracker.
    pub tracker: String,
}

} // verus!
