//! Peers of a torrent and the record kept of a banned peer.
use vstd::prelude::*;
use std::time::Instant;
use crate::rules::RuleType;
use crate::torrent::Torrent;

verus! {

#[verifier::external_type_specification]
#[verifier::external_body]
pub struct ExInstant(Instant);

/// A peer connected to one of our torrents.
#[derive(Debug)]
pub struct Peer {
    /// `ip:port`, which identifies the peer.
    pub address: String,
    /// Client tag from the peer id (such as `-qB4250-`).
    pub id: String,
    /// Client name the peer announces.
    pub name: String,
    pub download_speed: u64,
    /// Bytes the peer has sent us.
    pub downloaded: u64,
    pub upload_speed: u64,
    /// Bytes we have sent the peer.
    pub uploaded: u64,
    /// How much of the torrent the peer reports to hold, in millionths
    /// (`crate::ratio::PROGRESS_SCALE` is all of it).
    pub progress: u32,
}

/// A peer that was banned, with the rule that caught it.
pub struct BannedPeer {
    pub rule: RuleType,
    pub peer: Peer,
    pub time: Instant,
    /// The torrent the peer was seen on when it was banned.
    pub torrent: Torrent,
}

/// Two peers are the same peer when they have the same address.
impl PartialEq for Peer {
    fn eq(&self, other: &Self) -> (r: bool) {
        self.address == other.address
    }
}

impl vstd::std_specs::cmp::PartialEqSpecImpl for Peer {
    open spec fn obeys_eq_spec() -> bool {
        true
    }

    open spec fn eq_spec(&self, other: &Self) -> bool {
        self.address@ == other.address@
    }
}

/// Two ban records are equal when they are about the same peer.
impl PartialEq for BannedPeer {
    fn eq(&self, other: &Self) -> (r: bool) {
        self.peer == other.peer
    }
}

impl vstd::std_specs::cmp::PartialEqSpecImpl for BannedPeer {
    open spec fn obeys_eq_spec() -> bool {
        true
    }

    open spec fn eq_spec(&self, other: &Self) -> bool {
        self.peer.address@ == other.peer.address@
    }
}

} // verus!
