use kiro_rs::settings::{is_off_setting, parse_u64, parse_usize, parse_usize_trimmed, trim_str};

#[test]
fn parse_matches_std() {
    for s in [
        "0", "7", "+7", "-7", "", "+", "00012", "18446744073709551615", "18446744073709551616",
        " 1", "1 ", "1_000", "９",
    ] {
        assert_eq!(parse_u64(s), s.parse::<u64>().ok(), "{s:?}");
        assert_eq!(parse_usize(s), s.parse::<usize>().ok(), "{s:?}");
    }
}

#[test]
fn trimming_matches_std() {
    for s in ["  12 ", "\t\n12\r", "\u{3000}12\u{a0}", "", "   ", " a b "] {
        assert_eq!(trim_str(s), s.trim(), "{s:?}");
        assert_eq!(parse_usize_trimmed(s), s.trim().parse::<usize>().ok(), "{s:?}");
    }
}

#[test]
fn off_words() {
    assert!(is_off_setting("False"));
    assert!(is_off_setting("nO"));
    assert!(!is_off_setting("1"));
    assert!(!is_off_setting("offf"));
}
