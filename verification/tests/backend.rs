use peerban::backend::qb::{QBitBackend, UPLOADING_STATUS};
use peerban::conf::PeerBanConfig;
use peerban::ratio::Ratio;
use peerban::utils::{is_tracker_pt, judge_tracker};

#[test]
fn endpoint_and_credentials() {
    let qb = QBitBackend::new("http://127.0.0.1:8080///".to_string(), "admin:secret".to_string());
    assert_eq!(qb.endpoint(), "http://127.0.0.1:8080/api/v2");
    assert_eq!(qb.username(), "admin");
    assert_eq!(qb.password(), "secret");
    assert!(!qb.is_logged_in());
    assert_eq!(qb.cookie(), None);
    let qb = QBitBackend::new("https://seedbox".to_string(), ":".to_string());
    assert_eq!(qb.endpoint(), "https://seedbox/api/v2");
    assert_eq!(qb.username(), "");
    assert_eq!(qb.password(), "");
}

#[test]
fn accepted_settings() {
    assert!(QBitBackend::check_endpoint("http://127.0.0.1:8080"));
    assert!(QBitBackend::check_endpoint("https://example.org"));
    assert!(!QBitBackend::check_endpoint("127.0.0.1:8080"));
    assert!(!QBitBackend::check_endpoint("htt"));
    assert!(QBitBackend::check_auth("admin:admin"));
    assert!(!QBitBackend::check_auth("admin"));
    assert!(!QBitBackend::check_auth("a:b:c"));
}

#[test]
fn login_and_requests() {
    let mut qb = QBitBackend::new("http://localhost:8080/".to_string(), "admin:admin".to_string());
    qb.record_login("SID=abc123; HttpOnly; SameSite=Strict; path=/");
    assert!(qb.is_logged_in());
    assert_eq!(qb.cookie(), Some("SID=abc123".to_string()));
    qb.record_login("SID=plain");
    assert_eq!(qb.cookie(), Some("SID=plain".to_string()));
    assert_eq!(qb.api_url("/auth/login"), "http://localhost:8080/api/v2/auth/login");
    assert_eq!(qb.description("v4.6.0"), "QBittorrent: http://localhost:8080/api/v2 - v4.6.0");
    assert!(UPLOADING_STATUS.contains("uploading"));
}

#[test]
fn private_trackers() {
    assert!(is_tracker_pt("https://tracker.example.org/announce.php?passkey=abc"));
    assert!(is_tracker_pt("https://tracker.example.org/announce?AUTHKEY=1&x=2"));
    assert!(is_tracker_pt("https://Private.example.org/announce"));
    assert!(is_tracker_pt("https://pt.example.org/announce/0123456789abcdefABCDEF0123456789"));
    assert!(!is_tracker_pt("udp://tracker.opentrackr.org:1337/announce"));
    assert!(!is_tracker_pt("https://pt.example.org/announce/0123456789abcdef0123456789abcde"));
    assert!(!is_tracker_pt(""));
}

#[test]
fn tracker_case_and_surroundings() {
    assert!(is_tracker_pt("HTTP://T.ORG/A?PASSKEY=X"));
    assert!(is_tracker_pt("http://t.org/a?passkey=x"));
    assert!(is_tracker_pt("https://PT.example/ANNOUNCE/0123456789ABCDEF0123456789ABCDEF"));
    let private = "https://t.org/a?authkey=1";
    assert!(is_tracker_pt(&format!("{}{}{}", "xx ", private, " yy")));
    assert!(!is_tracker_pt("HTTP://OPEN.TRACKER/ANNOUNCE"));
}

#[test]
fn tracker_verdict_from_parts() {
    assert!(judge_tracker("https://x/announce", Some(true)));
    assert!(!judge_tracker("https://x/announce", Some(false)));
    assert!(!judge_tracker("https://x/announce", None));
    assert!(judge_tracker("https://x/announce?secure=1", None));
    assert!(judge_tracker("https://x/announce?credential=1", Some(false)));
}

#[test]
fn default_config() {
    let c = PeerBanConfig::default();
    assert_eq!(c.scan_time, 3);
    assert_eq!(c.block_time, 86400);
    assert!(c.block_progress_fallback);
    assert_eq!(c.block_progress_fallback_threshold, Ratio { num: 8, den: 100 });
    assert!(c.block_excessive_clients);
    assert_eq!(c.block_excessive_clients_threshold, Ratio { num: 15, den: 10 });
}
