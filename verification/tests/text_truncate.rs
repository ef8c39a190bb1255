use kiro_rs::text_truncate::{truncate_field, TextLimitConfig, DEFAULT_MAX_FIELD_BYTES};

fn cfg(max: usize) -> TextLimitConfig {
    TextLimitConfig {
        enabled: true,
        max_field_bytes: max,
    }
}

#[test]
fn passthrough_when_under_cap() {
    let s = "hello world".to_string();
    let out = truncate_field(&cfg(1000), "t", s.clone());
    assert_eq!(out, s);
}

#[test]
fn passthrough_when_disabled() {
    let c = TextLimitConfig {
        enabled: false,
        max_field_bytes: 10,
    };
    let s = "a".repeat(1000);
    assert_eq!(truncate_field(&c, "t", s.clone()), s);
}

#[test]
fn truncates_and_stays_within_cap() {
    let s = "a".repeat(1_000_000);
    let out = truncate_field(&cfg(500_000), "t", s);
    assert!(out.len() <= 500_000, "len was {}", out.len());
    assert!(out.contains("kiro-rs truncated"));
    assert!(out.starts_with('a'));
    assert!(out.ends_with('a'));
}

#[test]
fn never_splits_utf8_codepoint() {
    // Multi-byte chars (3 bytes each) so naive byte slicing would panic.
    let s = "中".repeat(400_000); // ~1.2 MB
    let out = truncate_field(&cfg(300_000), "t", s);
    assert!(out.len() <= 300_000);
    assert!(out.contains('中'));
}

#[test]
fn exact_layout_of_truncated_field() {
    // 1000 bytes cut to 200: head 140 bytes, marker, tail fills the rest.
    let s: String = (0..1000).map(|i| char::from(b'a' + (i % 26) as u8)).collect();
    let out = truncate_field(&cfg(200), "t", s.clone());
    let marker = "\n\n\u{2026}[kiro-rs truncated ~800 bytes]\u{2026}\n\n";
    let tail_len = 200 - 140 - marker.len();
    let expected = format!("{}{}{}", &s[..140], marker, &s[1000 - tail_len..]);
    assert_eq!(out, expected);
    assert_eq!(out.len(), 200);
}

#[test]
fn head_cut_snaps_back_to_char_boundary() {
    // "é" is 2 bytes; head budget 7 lands inside a char and snaps down to 6.
    let s = "é".repeat(100);
    let out = truncate_field(&cfg(10), "t", s);
    assert!(out.starts_with("ééé\n\n\u{2026}"));
    // The marker does not fit beside the head, so no tail is kept.
    assert!(out.ends_with("bytes]\u{2026}\n\n"));
}

#[test]
fn settings_select_switch_and_cap() {
    let c = TextLimitConfig::from_settings(None, None);
    assert!(c.enabled);
    assert_eq!(c.max_field_bytes, DEFAULT_MAX_FIELD_BYTES);
    for off in ["0", "false", "No", "OFF"] {
        assert!(!TextLimitConfig::from_settings(Some(off), None).enabled);
    }
    assert!(TextLimitConfig::from_settings(Some("yes"), None).enabled);
    assert!(TextLimitConfig::from_settings(Some(" off"), None).enabled);
    assert_eq!(TextLimitConfig::from_settings(None, Some("1234")).max_field_bytes, 1234);
    assert_eq!(TextLimitConfig::from_settings(None, Some("+77")).max_field_bytes, 77);
    assert_eq!(TextLimitConfig::from_settings(None, Some("0")).max_field_bytes, DEFAULT_MAX_FIELD_BYTES);
    assert_eq!(TextLimitConfig::from_settings(None, Some("12a")).max_field_bytes, DEFAULT_MAX_FIELD_BYTES);
    assert_eq!(TextLimitConfig::from_settings(None, Some(" 12")).max_field_bytes, DEFAULT_MAX_FIELD_BYTES);
}

#[test]
fn second_truncation_leaves_result_alone() {
    for cap in [200usize, 257, 1000, 4096] {
        for text in ["x".repeat(10_000), "中é".repeat(3_000), "é".repeat(150)] {
            let once = truncate_field(&cfg(cap), "t", text.clone());
            assert!(once.len() <= cap.max(text.len().min(cap)));
            let twice = truncate_field(&cfg(cap), "t", once.clone());
            assert_eq!(twice, once);
        }
    }
}
