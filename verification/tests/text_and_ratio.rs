use peerban::ratio::{exceeds_progress_gap, exceeds_ratio, parse_decimal, Ratio, PROGRESS_SCALE};
use peerban::text::{chars_of, same_text, str_contains, str_has_prefix};

#[test]
fn prefix_and_contains() {
    assert!(str_has_prefix("-XL0012-abcdef", "-XL"));
    assert!(!str_has_prefix("-X", "-XL"));
    assert!(str_has_prefix("anything", ""));
    assert!(str_contains("Xunlei 0.0.1", "lei"));
    assert!(!str_contains("qBittorrent/4.6.0", "Xunlei"));
    assert!(str_contains("", ""));
    assert!(!str_contains("", "a"));
    assert!(str_contains("abcabd", "abd"));
}

#[test]
fn same_text_compares_characters() {
    assert!(same_text("idContains", "idContains"));
    assert!(!same_text("idContains", "idcontains"));
    assert!(!same_text("id", "idContains"));
    assert_eq!(chars_of("añb"), vec!['a', 'ñ', 'b']);
}

#[test]
fn decimal_thresholds() {
    assert_eq!(parse_decimal("0.08"), Some(Ratio { num: 8, den: 100 }));
    assert_eq!(parse_decimal("1.5"), Some(Ratio { num: 15, den: 10 }));
    assert_eq!(parse_decimal("3"), Some(Ratio { num: 3, den: 1 }));
    assert_eq!(parse_decimal("007"), Some(Ratio { num: 7, den: 1 }));
    assert_eq!(parse_decimal("4294967295"), Some(Ratio { num: 4294967295, den: 1 }));
}

#[test]
fn decimal_rejects_other_forms() {
    assert_eq!(parse_decimal(""), None);
    assert_eq!(parse_decimal(".5"), None);
    assert_eq!(parse_decimal("1."), None);
    assert_eq!(parse_decimal("1.2.3"), None);
    assert_eq!(parse_decimal("-1"), None);
    assert_eq!(parse_decimal("1e3"), None);
    assert_eq!(parse_decimal("abc"), None);
    // too large for the numerator or the denominator
    assert_eq!(parse_decimal("4294967296"), None);
    assert_eq!(parse_decimal("0.0000000001"), None);
}

#[test]
fn ratio_comparison() {
    let t = Ratio { num: 15, den: 10 };
    assert!(exceeds_ratio(16, 10, t));
    assert!(!exceeds_ratio(15, 10, t));
    assert!(!exceeds_ratio(0, 10, t));
    assert!(exceeds_ratio(1, 0, t));
    assert!(!exceeds_ratio(0, 0, t));
    assert!(exceeds_ratio(u64::MAX, 1, Ratio { num: u32::MAX, den: 1 }));
}

#[test]
fn progress_gap_comparison() {
    let t = Ratio { num: 8, den: 100 };
    // sent half the torrent, peer claims 40 %: gap 0.10 > 0.08
    assert!(exceeds_progress_gap(50, 100, 400_000, t));
    // peer claims 45 %: gap 0.05
    assert!(!exceeds_progress_gap(50, 100, 450_000, t));
    // gap exactly 0.08 is not more than 0.08
    assert!(!exceeds_progress_gap(50, 100, 420_000, t));
    assert!(exceeds_progress_gap(1, 0, PROGRESS_SCALE, t));
    assert!(!exceeds_progress_gap(0, 0, 0, t));
    assert!(!exceeds_progress_gap(u64::MAX, u64::MAX, u32::MAX, Ratio { num: u32::MAX, den: u32::MAX }));
}
