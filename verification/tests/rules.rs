use peerban::peer::Peer;
use peerban::rules::preload::{predefined_rule_specs, predefined_rules, rules_from_specs};
use peerban::rules::{Rule, RuleType};

fn peer(id: &str, name: &str, downloaded: u64, uploaded: u64, progress: u32) -> Peer {
    Peer {
        address: "10.0.0.1:6881".to_string(),
        id: id.to_string(),
        name: name.to_string(),
        download_speed: 0,
        downloaded,
        upload_speed: 0,
        uploaded,
        progress,
    }
}

#[test]
fn rule_type_names() {
    assert_eq!(RuleType::parse("idStartsWith"), Some(RuleType::IDPrefixMatch));
    assert_eq!(RuleType::parse("idContains"), Some(RuleType::IDContains));
    assert_eq!(RuleType::parse("nameStartsWith"), Some(RuleType::NamePrefixMatch));
    assert_eq!(RuleType::parse("nameContains"), Some(RuleType::NameContains));
    assert_eq!(RuleType::parse("ipBlockMatch"), Some(RuleType::IPBlockMatch));
    assert_eq!(RuleType::parse("progressProbe"), Some(RuleType::ProgressProbe));
    assert_eq!(RuleType::parse("excessiveProbe"), Some(RuleType::ExcessiveProbe));
    assert_eq!(RuleType::parse("IdStartsWith"), None);
    assert_eq!(RuleType::parse(""), None);
    assert_eq!(RuleType::from("nameContains"), RuleType::NameContains);
}

#[test]
fn rule_strings() {
    let r = Rule::parse("idStartsWith@-XL").unwrap();
    assert_eq!(r.class, RuleType::IDPrefixMatch);
    assert_eq!(r.value, "-XL");
    let r = Rule::from("nameContains@github.com/anacrolix/torrent");
    assert_eq!(r.class, RuleType::NameContains);
    assert_eq!(r.value, "github.com/anacrolix/torrent");
    let r = Rule::parse("progressProbe@").unwrap();
    assert_eq!(r.value, "");
    assert!(Rule::parse("idStartsWith-XL").is_none());
    assert!(Rule::parse("idStartsWith@-XL@x").is_none());
    assert!(Rule::parse("unknown@x").is_none());
    assert!(Rule::parse("@x").is_none());
}

#[test]
fn matchable_rules() {
    assert!(Rule::from("idStartsWith@-XL").is_matchable());
    assert!(Rule::from("progressProbe@0.08").is_matchable());
    assert!(!Rule::from("progressProbe@abc").is_matchable());
    assert!(!Rule::from("ipBlockMatch@10.0.0.0/8").is_matchable());
}

#[test]
fn text_rules_match_peers() {
    let p = peer("-XL0012-abcdefgh", "Xunlei 0.0.1.2", 0, 0, 0);
    assert!(Rule::from("idStartsWith@-XL").match_peer(&p, 100));
    assert!(!Rule::from("idStartsWith@XL").match_peer(&p, 100));
    assert!(Rule::from("idContains@0012").match_peer(&p, 100));
    assert!(Rule::from("nameStartsWith@Xunlei").match_peer(&p, 100));
    assert!(!Rule::from("nameStartsWith@lei").match_peer(&p, 100));
    assert!(Rule::from("nameContains@lei").match_peer(&p, 100));
    assert!(!Rule::from("nameContains@cacao").match_peer(&p, 100));
}

#[test]
fn probes_match_peers() {
    let progress = Rule::from("progressProbe@0.08");
    let excessive = Rule::from("excessiveProbe@1.5");
    // we sent 50 of 100 bytes and the peer claims 10 %: gap 0.4
    assert!(progress.match_peer(&peer("-qB4250-", "qBittorrent", 0, 50, 100_000), 100));
    // the peer claims 50 %: gap 0
    assert!(!progress.match_peer(&peer("-qB4250-", "qBittorrent", 0, 50, 500_000), 100));
    // the peer sent us 160 of a 100-byte torrent
    assert!(excessive.match_peer(&peer("-qB4250-", "qBittorrent", 160, 0, 0), 100));
    assert!(!excessive.match_peer(&peer("-qB4250-", "qBittorrent", 150, 0, 0), 100));
    // an empty torrent: any traffic is excessive
    assert!(excessive.match_peer(&peer("-qB4250-", "qBittorrent", 1, 0, 0), 0));
    assert!(!excessive.match_peer(&peer("-qB4250-", "qBittorrent", 0, 0, 0), 0));
}

#[test]
fn predefined_rule_list() {
    assert_eq!(predefined_rule_specs().len(), 34);
    let rules = predefined_rules();
    assert_eq!(rules.len(), 34);
    assert_eq!(rules[0].class, RuleType::IDPrefixMatch);
    assert_eq!(rules[0].value, "-XL");
    assert_eq!(rules[15].class, RuleType::IDContains);
    assert_eq!(rules[15].value, "cacao");
    assert_eq!(rules[31].class, RuleType::NamePrefixMatch);
    assert_eq!(rules[31].value, "github.com/thank423/trafficConsume");
    assert_eq!(rules[32].class, RuleType::ProgressProbe);
    assert_eq!(rules[32].value, "0.08");
    assert_eq!(rules[33].class, RuleType::ExcessiveProbe);
    assert_eq!(rules[33].value, "1.5");
    assert!(rules.iter().all(|r| r.is_matchable()));
}

#[test]
fn rules_from_specs_skips_unusable() {
    let specs = vec!["idStartsWith@-XL", "bogus", "ipBlockMatch@1.2.3.4", "excessiveProbe@x", "nameContains@TuDou"];
    let rules = rules_from_specs(&specs);
    assert_eq!(rules.len(), 2);
    assert_eq!(rules[0].value, "-XL");
    assert_eq!(rules[1].class, RuleType::NameContains);
}
