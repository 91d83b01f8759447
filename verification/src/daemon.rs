//! The ban decisions of the scanning daemon: which torrents to look at, what
//! to do with each peer, and the list of peers banned so far.
use vstd::prelude::*;
use std::time::Instant;
use crate::peer::{BannedPeer, Peer};
use crate::rules::{rule_matches, Rule};
use crate::rules::preload::{predefined_rules, predefined_spec_texts, usable_rules};
use crate::torrent::Torrent;
use crate::utils::{is_tracker_pt, tracker_is_pt};

verus! {

/// What the daemon does with a peer it sees.
#[derive(Debug, Clone, Copy, PartialEq, Eq, Structural)]
pub enum PeerVerdict {
    /// The peer is banned already: leave it.
    AlreadyBanned,
    /// Ban the peer under the rule at this index of the daemon's rules.
    Ban(usize),
    /// No rule catches the peer.
    Clean,
}

/// Some record of `banned` is about `peer` (same address).
pub open spec fn banned_in(banned: Seq<BannedPeer>, peer: Peer) -> bool {
    exists|j: int| 0 <= j < banned.len() && (#[trigger] banned[j]).peer.address@ == peer.address@
}

/// No peer is recorded twice.
pub open spec fn distinct_peers(banned: Seq<BannedPeer>) -> bool {
    forall|i: int, j: int|
        0 <= i < j < banned.len() ==> (#[trigger] banned[i]).peer.address@
            != (#[trigger] banned[j]).peer.address@
}

/// Adding the record of a peer that is not banned yet keeps every address
/// recorded at most once.
pub proof fn lemma_push_keeps_distinct(banned: Seq<BannedPeer>, record: BannedPeer)
    requires
        distinct_peers(banned),
        !banned_in(banned, record.peer),
    ensures
        distinct_peers(banned.push(record)),
{
    let after = banned.push(record);
    assert forall|i: int, j: int| 0 <= i < j < after.len() implies (#[trigger] after[i]).peer.address@
        != (#[trigger] after[j]).peer.address@ by {
        assert(after[i] == banned[i]);
        if j < banned.len() {
            assert(after[j] == banned[j]);
        } else {
            assert(after[j] == record);
        }
    }
}

/// Index of the first rule of `rules` that catches `peer`, if any.
pub open spec fn first_match(rules: Seq<Rule>, peer: Peer, torrent_size: u64) -> Option<int>
    decreases rules.len(),
{
    if rules.len() == 0 {
        None
    } else {
        match first_match(rules.drop_last(), peer, torrent_size) {
            Some(i) => Some(i),
            None => if rule_matches(rules.last(), peer, torrent_size) {
                Some(rules.len() - 1)
            } else {
                None
            },
        }
    }
}

/// The verdict on `peer`, seen on a torrent of `torrent_size` bytes, given
/// the records `banned` and the rules `rules`.
pub open spec fn verdict(
    banned: Seq<BannedPeer>,
    rules: Seq<Rule>,
    peer: Peer,
    torrent_size: u64,
) -> PeerVerdict {
    if banned_in(banned, peer) {
        PeerVerdict::AlreadyBanned
    } else {
        match first_match(rules, peer, torrent_size) {
            Some(i) => PeerVerdict::Ban(i as usize),
            None => PeerVerdict::Clean,
        }
    }
}

/// `first_match` is the least index of a rule that catches the peer.
pub proof fn lemma_first_match(rules: Seq<Rule>, peer: Peer, torrent_size: u64)
    ensures
        match first_match(rules, peer, torrent_size) {
            Some(i) => 0 <= i < rules.len() && rule_matches(rules[i], peer, torrent_size)
                && forall|k: int| 0 <= k < i ==> !rule_matches(#[trigger] rules[k], peer, torrent_size),
            None => forall|k: int|
                0 <= k < rules.len() ==> !rule_matches(#[trigger] rules[k], peer, torrent_size),
        },
    decreases rules.len(),
{
    if rules.len() > 0 {
        let front = rules.drop_last();
        lemma_first_match(front, peer, torrent_size);
        assert forall|k: int| 0 <= k < front.len() implies front[k] == rules[k] by {}
    }
}

/// The daemon's state between scans.
pub struct Daemon {
    banned: Vec<BannedPeer>,
    rules: Vec<Rule>,
    scan_time: u64,
    pt: bool,
    clear: bool,
}

impl Daemon {
    /// Every rule can be evaluated, and no peer is recorded twice.
    #[verifier::type_invariant]
    spec fn well_formed(&self) -> bool {
        &&& forall|i: int| 0 <= i < self.rules@.len() ==> (#[trigger] self.rules@[i]).matchable()
        &&& distinct_peers(self.banned@)
    }

    /// The ban records, oldest first.
    pub closed spec fn banned_peers(&self) -> Seq<BannedPeer> {
        self.banned@
    }

    /// The rules, in the order they are tried.
    pub closed spec fn rule_list(&self) -> Seq<Rule> {
        self.rules@
    }

    pub closed spec fn scan_seconds(&self) -> u64 {
        self.scan_time
    }

    pub closed spec fn handles_pt(&self) -> bool {
        self.pt
    }

    pub closed spec fn clears_first(&self) -> bool {
        self.clear
    }

    /// `peer` is banned already.
    pub open spec fn is_banned(&self, peer: Peer) -> bool {
        banned_in(self.banned_peers(), peer)
    }

    /// A daemon with the predefined rules and no bans, scanning every `scan`
    /// seconds; `pt` makes it look at torrents of private trackers too, and
    /// `clear` asks for the client's bans to be lifted before the first scan.
    pub fn new(scan: u64, pt: bool, clear: bool) -> (r: Self)
        ensures
            r.banned_peers().len() == 0,
            r.rule_list().len() == 34,
            r.rule_list().len() == usable_rules(predefined_spec_texts()).len(),
            forall|i: int|
                0 <= i < r.rule_list().len() ==> (#[trigger] r.rule_list()[i].class,
                r.rule_list()[i].value@) == usable_rules(predefined_spec_texts())[i],
            r.scan_seconds() == scan,
            r.handles_pt() == pt,
            r.clears_first() == clear,
            distinct_peers(r.banned_peers()),
    {
        let rules = predefined_rules();
        Daemon { banned: Vec::new(), rules, scan_time: scan, pt, clear }
    }

    pub fn scan_time(&self) -> (r: u64)
        ensures
            r == self.scan_seconds(),
    {
        self.scan_time
    }

    pub fn pt(&self) -> (r: bool)
        ensures
            r == self.handles_pt(),
    {
        self.pt
    }

    pub fn clear(&self) -> (r: bool)
        ensures
            r == self.clears_first(),
    {
        self.clear
    }

    pub fn rules(&self) -> (r: &Vec<Rule>)
        ensures
            r@ == self.rule_list(),
    {
        &self.rules
    }

    /// The ban records, oldest first; no address appears in two of them.
    pub fn banned(&self) -> (r: &Vec<BannedPeer>)
        ensures
            r@ == self.banned_peers(),
            distinct_peers(r@),
    {
        proof {
            use_type_invariant(self);
        }
        &self.banned
    }

    /// Whether the peers of `torrent` are to be examined: all torrents when
    /// private trackers are handled, else only those of public trackers.
    pub fn wants_torrent(&self, torrent: &Torrent) -> (r: bool)
        ensures
            r == (self.handles_pt() || !tracker_is_pt(torrent.tracker@)),
    {
        self.pt || !is_tracker_pt(torrent.tracker.as_str())
    }

    /// What to do with `peer`, seen on a torrent of `torrent_size` bytes:
    /// leave it if it is banned already, else ban it under the first rule
    /// that catches it, if any.
    pub fn judge(&self, peer: &Peer, torrent_size: u64) -> (r: PeerVerdict)
        ensures
            r == verdict(self.banned_peers(), self.rule_list(), *peer, torrent_size),
            distinct_peers(self.banned_peers()),
            (r == PeerVerdict::AlreadyBanned) == self.is_banned(*peer),
            r matches PeerVerdict::Ban(i) ==> {
                &&& i < self.rule_list().len()
                &&& rule_matches(self.rule_list()[i as int], *peer, torrent_size)
                &&& forall|k: int|
                    0 <= k < i ==> !rule_matches(#[trigger] self.rule_list()[k], *peer, torrent_size)
            },
            r == PeerVerdict::Clean ==> forall|k: int|
                0 <= k < self.rule_list().len() ==> !rule_matches(
                    #[trigger] self.rule_list()[k],
                    *peer,
                    torrent_size,
                ),
    {
        proof {
            use_type_invariant(self);
            lemma_first_match(self.rules@, *peer, torrent_size);
        }
        let mut j: usize = 0;
        while j < self.banned.len()
            invariant
                j <= self.banned@.len(),
                distinct_peers(self.banned@),
                forall|k: int|
                    0 <= k < j ==> (#[trigger] self.banned@[k]).peer.address@ != peer.address@,
            decreases self.banned@.len() - j,
        {
            if self.banned[j].peer == *peer {
                return PeerVerdict::AlreadyBanned;
            }
            j = j + 1;
        }
        let mut i: usize = 0;
        while i < self.rules.len()
            invariant
                i <= self.rules@.len(),
                !banned_in(self.banned@, *peer),
                distinct_peers(self.banned@),
                forall|k: int| 0 <= k < self.rules@.len() ==> (#[trigger] self.rules@[k]).matchable(),
                forall|k: int|
                    0 <= k < i ==> !rule_matches(#[trigger] self.rules@[k], *peer, torrent_size),
            decreases self.rules@.len() - i,
        {
            if self.rules[i].match_peer(peer, torrent_size) {
                proof {
                    // the first match cannot lie before `i`, nor after it
                    lemma_first_match(self.rules@, *peer, torrent_size);
                    let f = first_match(self.rules@, *peer, torrent_size);
                    match f {
                        Some(x) => {
                            assert(x >= i);
                            assert(x <= i);
                        },
                        None => {},
                    }
                }
                return PeerVerdict::Ban(i);
            }
            i = i + 1;
        }
        PeerVerdict::Clean
    }

    /// Records that `peer`, seen on `torrent`, was banned at `time` under the
    /// rule at `rule_index`.
    pub fn record_ban(&mut self, peer: Peer, rule_index: usize, torrent: Torrent, time: Instant)
        requires
            !old(self).is_banned(peer),
            rule_index < old(self).rule_list().len(),
        ensures
            final(self).banned_peers() == old(self).banned_peers().push(
                (BannedPeer {
                    rule: old(self).rule_list()[rule_index as int].class,
                    peer,
                    time,
                    torrent,
                }),
            ),
            final(self).is_banned(peer),
            distinct_peers(final(self).banned_peers()),
            final(self).rule_list() == old(self).rule_list(),
            final(self).scan_seconds() == old(self).scan_seconds(),
            final(self).handles_pt() == old(self).handles_pt(),
            final(self).clears_first() == old(self).clears_first(),
    {
        proof {
            use_type_invariant(&*self);
        }
        let rule = self.rules[rule_index].class;
        let ghost before = self.banned@;
        let ghost address = peer.address@;
        let mut banned: Vec<BannedPeer> = Vec::new();
        std::mem::swap(&mut banned, &mut self.banned);
        banned.push(BannedPeer { rule, peer, time, torrent });
        assert(banned@[before.len() as int].peer.address@ == address);
        self.banned = banned;
        proof {
            use_type_invariant(&*self);
        }
    }

    /// A ban is never forgotten, and once recorded the peer counts as banned,
    /// so `judge` answers `AlreadyBanned` for it from then on; no other peer
    /// becomes banned by it.
    pub proof fn lemma_ban_is_remembered(
        before: Daemon,
        after: Daemon,
        record: BannedPeer,
        other: Peer,
    )
        requires
            after.banned_peers() == before.banned_peers().push(record),
            after.rule_list() == before.rule_list(),
        ensures
            after.is_banned(record.peer),
            before.is_banned(other) ==> after.is_banned(other),
            !before.is_banned(other) && other.address@ != record.peer.address@ ==> !after.is_banned(
                other,
            ),
            forall|size: u64|
                verdict(after.banned_peers(), after.rule_list(), record.peer, size)
                    == PeerVerdict::AlreadyBanned,
    {
        let n = before.banned_peers().len();
        assert(after.banned_peers()[n as int] == record);
        if before.is_banned(other) {
            let j = choose|j: int|
                0 <= j < before.banned_peers().len() && (#[trigger] before.banned_peers()[j]).peer.address@
                    == other.address@;
            assert(after.banned_peers()[j] == before.banned_peers()[j]);
        }
        if !before.is_banned(other) && other.address@ != record.peer.address@ {
            assert forall|j: int|
                0 <= j < after.banned_peers().len() implies (#[trigger] after.banned_peers()[j]).peer.address@
                != other.address@ by {
                if j < n {
                    assert(after.banned_peers()[j] == before.banned_peers()[j]);
                }
            }
        }
    }
}

} // verus!
