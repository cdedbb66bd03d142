use pwvucontrol::text::{contains, find_text_from, parse_u32, parse_usize, same_text, usize_to_decimal};

#[test]
fn decimal_writing() {
    assert_eq!(usize_to_decimal(0), "0");
    assert_eq!(usize_to_decimal(7), "7");
    assert_eq!(usize_to_decimal(1234567), "1234567");
    assert_eq!(usize_to_decimal(usize::MAX), usize::MAX.to_string());
}

#[test]
fn decimal_reading() {
    assert_eq!(parse_usize("0"), Some(0));
    assert_eq!(parse_usize("42"), Some(42));
    assert_eq!(parse_usize("007"), Some(7));
    assert_eq!(parse_usize(""), None);
    assert_eq!(parse_usize("12a"), None);
    assert_eq!(parse_usize("-1"), None);
    assert_eq!(parse_usize("99999999999999999999999999"), None);
    assert_eq!(parse_u32("4294967295"), Some(u32::MAX));
    assert_eq!(parse_u32("4294967296"), None);
    assert_eq!(parse_u32(" 1"), None);
}

#[test]
fn decimal_round_trip() {
    for n in [0usize, 9, 10, 99, 100, 65535, 4294967296, usize::MAX] {
        assert_eq!(parse_usize(&usize_to_decimal(n)), Some(n));
    }
}

#[test]
fn text_comparison_and_search() {
    assert!(same_text("abc", "abc"));
    assert!(!same_text("abc", "abd"));
    assert!(!same_text("abc", "ab"));
    assert_eq!(find_text_from("abcabc", "bc", 0), Some(1));
    assert_eq!(find_text_from("abcabc", "bc", 2), Some(4));
    assert_eq!(find_text_from("abcabc", "bd", 0), None);
    assert_eq!(find_text_from("abc", "", 1), Some(1));
    assert!(contains("Audio/Sink", "Sink"));
    assert!(!contains("Audio/Sink", "Source"));
}
