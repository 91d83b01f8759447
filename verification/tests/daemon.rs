use std::time::Instant;

use peerban::daemon::{Daemon, PeerVerdict};
use peerban::peer::{BannedPeer, Peer};
use peerban::rules::RuleType;
use peerban::torrent::Torrent;

fn peer(address: &str, id: &str, name: &str, downloaded: u64, uploaded: u64, progress: u32) -> Peer {
    Peer {
        address: address.to_string(),
        id: id.to_string(),
        name: name.to_string(),
        download_speed: 0,
        downloaded,
        upload_speed: 0,
        uploaded,
        progress,
    }
}

fn torrent(tracker: &str) -> Torrent {
    Torrent { name: "linux.iso".to_string(), hash: "abcd".to_string(), size: 1000, tracker: tracker.to_string() }
}

#[test]
fn new_daemon() {
    let d = Daemon::new(5, false, true);
    assert_eq!(d.scan_time(), 5);
    assert!(!d.pt());
    assert!(d.clear());
    assert_eq!(d.rules().len(), 34);
    assert!(d.banned().is_empty());
}

#[test]
fn first_matching_rule_bans() {
    let d = Daemon::new(5, false, false);
    // caught by the first rule
    assert_eq!(d.judge(&peer("1.1.1.1:1", "-XL0012-aaaa", "Xunlei", 0, 0, 0), 1000), PeerVerdict::Ban(0));
    // the id rules pass, the name rule `nameContains@Xunlei` catches it
    assert_eq!(d.judge(&peer("1.1.1.1:1", "-qB4250-aaaa", "Xunlei 7", 0, 0, 0), 1000), PeerVerdict::Ban(17));
    // an honest peer
    assert_eq!(d.judge(&peer("1.1.1.1:1", "-qB4250-aaaa", "qBittorrent/4.6.0", 10, 100, 100_000), 1000), PeerVerdict::Clean);
    // progress fallback: sent 50 % and the peer claims nothing
    assert_eq!(d.judge(&peer("1.1.1.1:1", "-qB4250-aaaa", "qBittorrent/4.6.0", 0, 500, 0), 1000), PeerVerdict::Ban(32));
    // excessive download
    assert_eq!(d.judge(&peer("1.1.1.1:1", "-qB4250-aaaa", "qBittorrent/4.6.0", 1600, 0, 1_000_000), 1000), PeerVerdict::Ban(33));
}

#[test]
fn recorded_peer_stays_banned() {
    let mut d = Daemon::new(5, false, false);
    let p = peer("2.2.2.2:6881", "-SD0100-zzzz", "Thunder", 0, 0, 0);
    assert_eq!(d.judge(&p, 1000), PeerVerdict::Ban(1));
    d.record_ban(p, 1, torrent("udp://open/announce"), Instant::now());
    assert_eq!(d.banned().len(), 1);
    assert_eq!(d.banned()[0].rule, RuleType::IDPrefixMatch);
    assert_eq!(d.banned()[0].torrent.hash, "abcd");
    // same address, other client data: still the same peer
    let again = peer("2.2.2.2:6881", "-qB4250-aaaa", "qBittorrent", 0, 0, 0);
    assert_eq!(d.judge(&again, 1000), PeerVerdict::AlreadyBanned);
    // another address is judged on its own
    let other = peer("3.3.3.3:6881", "-SD0100-zzzz", "Thunder", 0, 0, 0);
    assert_eq!(d.judge(&other, 1000), PeerVerdict::Ban(1));
    d.record_ban(other, 1, torrent("udp://open/announce"), Instant::now());
    let addresses: Vec<&str> = d.banned().iter().map(|b| b.peer.address.as_str()).collect();
    assert_eq!(addresses, vec!["2.2.2.2:6881", "3.3.3.3:6881"]);
}

#[test]
fn private_torrents_are_skipped_unless_asked() {
    let public = torrent("udp://tracker.opentrackr.org:1337/announce");
    let private = torrent("https://pt.example.org/announce.php?passkey=0123");
    let d = Daemon::new(5, false, false);
    assert!(d.wants_torrent(&public));
    assert!(!d.wants_torrent(&private));
    let d = Daemon::new(5, true, false);
    assert!(d.wants_torrent(&public));
    assert!(d.wants_torrent(&private));
}

#[test]
fn peers_compare_by_address() {
    let a = peer("4.4.4.4:1", "x", "y", 1, 2, 3);
    let b = peer("4.4.4.4:1", "other", "other", 9, 9, 9);
    let c = peer("4.4.4.4:2", "x", "y", 1, 2, 3);
    assert!(a == b);
    assert!(a != c);
    let t = torrent("udp://t");
    let ba = BannedPeer { rule: RuleType::IDContains, peer: a, time: Instant::now(), torrent: t.clone() };
    let bb = BannedPeer { rule: RuleType::NameContains, peer: b, time: Instant::now(), torrent: t };
    assert!(ba == bb);
}
