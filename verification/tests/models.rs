use relay_viewer::npub::shorten_npub;
use relay_viewer::kinds::kind_name;
use relay_viewer::npub::truncated_npub;
use relay_viewer::time::{relative_time, relative_time_at};

fn unix_now() -> i64 {
    std::time::SystemTime::now()
        .duration_since(std::time::UNIX_EPOCH)
        .unwrap()
        .as_secs() as i64
}

#[test]
fn test_kind_name_known() {
    assert_eq!(kind_name(0), "Metadata");
    assert_eq!(kind_name(1), "Text Note");
    assert_eq!(kind_name(7), "Reaction");
    assert_eq!(kind_name(9735), "Zap");
}

#[test]
fn test_kind_name_unknown() {
    assert_eq!(kind_name(42), "Kind 42");
    assert_eq!(kind_name(10002), "Kind 10002");
}

#[test]
fn test_relative_time_just_now() {
    let now = unix_now();
    assert_eq!(relative_time(now), "just now");
}

#[test]
fn test_relative_time_minutes() {
    let now = unix_now();
    assert_eq!(relative_time(now - 300), "5m ago");
}

#[test]
fn test_relative_time_hours() {
    let now = unix_now();
    assert_eq!(relative_time(now - 7200), "2h ago");
}

#[test]
fn test_truncated_npub_invalid() {
    assert_eq!(truncated_npub("deadbeef"), "deadbeef...");
}

#[test]
fn kind_name_whole_table() {
    assert_eq!(kind_name(3), "Contact List");
    assert_eq!(kind_name(4), "DM");
    assert_eq!(kind_name(5), "Delete");
    assert_eq!(kind_name(6), "Repost");
    assert_eq!(kind_name(30023), "Long-form");
    assert_eq!(kind_name(2), "Kind 2");
    assert_eq!(kind_name(10), "Kind 10");
    assert_eq!(kind_name(u32::MAX), "Kind 4294967295");
}

#[test]
fn kind_names_differ_for_different_kinds() {
    let kinds = [0u32, 1, 2, 3, 4, 5, 6, 7, 8, 9735, 30023, 42, 10002];
    for (i, a) in kinds.iter().enumerate() {
        for b in kinds.iter().skip(i + 1) {
            assert_ne!(kind_name(*a), kind_name(*b));
        }
    }
}

#[test]
fn relative_time_bands() {
    let now = 1_700_000_000i64;
    assert_eq!(relative_time_at(now, now + 100), "just now");
    assert_eq!(relative_time_at(now, now), "just now");
    assert_eq!(relative_time_at(now, now - 59), "just now");
    assert_eq!(relative_time_at(now, now - 60), "1m ago");
    assert_eq!(relative_time_at(now, now - 3599), "59m ago");
    assert_eq!(relative_time_at(now, now - 3600), "1h ago");
    assert_eq!(relative_time_at(now, now - 86399), "23h ago");
    assert_eq!(relative_time_at(now, now - 86400), "1d ago");
    assert_eq!(relative_time_at(now, now - 29 * 86400), "29d ago");
    assert_eq!(relative_time_at(now, now - 30 * 86400), "1mo ago");
    assert_eq!(relative_time_at(now, now - 359 * 86400), "11mo ago");
    assert_eq!(relative_time_at(now, now - 360 * 86400), "0y ago");
    assert_eq!(relative_time_at(now, now - 365 * 86400), "1y ago");
    assert_eq!(relative_time_at(now, now - 3 * 365 * 86400), "3y ago");
}

#[test]
fn relative_time_depends_on_difference_only() {
    assert_eq!(relative_time_at(7300, 100), relative_time_at(7200, 0));
    assert_eq!(relative_time_at(7200, 0), "2h ago");
}

#[test]
fn relative_time_far_future_and_past() {
    assert_eq!(relative_time(i64::MAX), "just now");
    assert_eq!(relative_time(i64::MIN), format!("{}y ago", i64::MAX / 60 / 60 / 24 / 365));
}

#[test]
fn truncated_npub_of_a_valid_key() {
    let hex = "aa4fc8665f5696e33db7e1a572e3b0f5b3d615837b0f362dcb1c8068b098c7b4";
    // npub14f8usejl26twx0dhuxjh9cas7keav9vr0v8nvtwtrjqx3vycc76qqh9nsy
    assert_eq!(truncated_npub(hex), "npub14f8us...9nsy");
    assert_eq!(truncated_npub(&hex.to_uppercase()), "npub14f8us...9nsy");
}

#[test]
fn truncated_npub_of_text_that_is_no_key() {
    assert_eq!(truncated_npub(""), "...");
    assert_eq!(truncated_npub("0123456789abcdef"), "0123456789ab...");
    // 64 characters, but not all hexadecimal digits
    let bad = "zz4fc8665f5696e33db7e1a572e3b0f5b3d615837b0f362dcb1c8068b098c7b4";
    assert_eq!(truncated_npub(bad), "zz4fc8665f56...");
    // 63 hexadecimal digits
    assert_eq!(truncated_npub(&bad[1..].replace('z', "a")), "a4fc8665f569...");
    // multi-byte characters cut on a character boundary
    assert_eq!(truncated_npub("ééééééé"), "éééééé...");
}

#[test]
fn shorten_npub_cuts_long_texts_only() {
    assert_eq!(
        shorten_npub("npub14f8usejl26twx0dhuxjh9cas7keav9vr0v8nvtwtrjqx3vycc76qqh9nsy"),
        "npub14f8us...9nsy"
    );
    assert_eq!(shorten_npub("npub1abcdefghijk"), "npub1abcdefghijk");
    assert_eq!(shorten_npub("npub1abcdefghijkl"), "npub1abcde...ijkl");
    assert_eq!(shorten_npub("npub1abcdefghijklm"), "npub1abcde...jklm");
    assert_eq!(shorten_npub(""), "");
}

#[test]
fn relative_time_at_clamps_out_of_range_differences() {
    assert_eq!(relative_time_at(i64::MIN, i64::MAX), "just now");
    assert_eq!(
        relative_time_at(i64::MAX, i64::MIN),
        format!("{}y ago", i64::MAX / 60 / 60 / 24 / 365)
    );
    assert_eq!(relative_time_at(i64::MAX, -1), relative_time_at(i64::MAX, 0));
}

#[test]
fn older_timestamps_never_read_younger() {
    let now = 1_700_000_000i64;
    let ages = [0i64, 59, 60, 61, 3599, 3600, 86399, 86400, 2591999, 2592000, 31103999, 31104000, 31535999, 31536000, 99999999];
    let rank = |s: &str| -> (u32, i64) {
        if s == "just now" {
            return (0, 0);
        }
        let digits: String = s.chars().take_while(|c| c.is_ascii_digit()).collect();
        let unit = &s[digits.len()..];
        let band = match unit { "m ago" => 1, "h ago" => 2, "d ago" => 3, "mo ago" => 4, _ => 5 };
        (band, digits.parse().unwrap())
    };
    for w in ages.windows(2) {
        let younger = rank(&relative_time_at(now, now - w[0]));
        let older = rank(&relative_time_at(now, now - w[1]));
        assert!(younger <= older, "{:?} {:?}", younger, older);
    }
}

#[test]
fn valid_key_short_form_has_17_characters() {
    let short = truncated_npub("0000000000000000000000000000000000000000000000000000000000000001");
    assert_eq!(short.len(), 17);
    assert!(short.starts_with("npub1"));
}
