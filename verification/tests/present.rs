use seme::present::{get_usage_percentage, str_le, ucsur_char};

#[test]
fn string_order_basics() {
    assert!(str_le("a", "b"));
    assert!(!str_le("b", "a"));
    assert!(str_le("abc", "abd"));
    assert!(str_le("ab", "abc"));
    assert!(!str_le("abc", "ab"));
    assert!(str_le("same", "same"));
    assert!(str_le("", "anything"));
}

#[test]
fn string_order_on_dated_keys() {
    assert!(str_le("2023-09", "2024-02"));
    assert!(!str_le("2024-02", "2023-09"));
}

#[test]
fn usage_picks_the_latest_survey() {
    let usage = vec![
        ("2023-09".to_string(), 41u8),
        ("2024-02".to_string(), 37u8),
        ("2022-08".to_string(), 44u8),
    ];
    assert_eq!(get_usage_percentage(usage), 37);
}

#[test]
fn usage_of_empty_table_is_zero() {
    assert_eq!(get_usage_percentage(Vec::new()), 0);
}

#[test]
fn usage_of_single_entry() {
    assert_eq!(get_usage_percentage(vec![("2024-02".to_string(), 93u8)]), 93);
}

#[test]
fn ucsur_decodes_private_use_codepoint() {
    assert_eq!(ucsur_char("U+F1900"), char::from_u32(0xF1900));
    assert!(ucsur_char("U+F1900").is_some());
}

#[test]
fn ucsur_decodes_plain_hex() {
    assert_eq!(ucsur_char("0041"), Some('A'));
    assert_eq!(ucsur_char("U+0041"), Some('A'));
    assert_eq!(ucsur_char("61"), Some('a'));
}

#[test]
fn ucsur_strips_repeated_markers() {
    assert_eq!(ucsur_char("U+U+0041"), Some('A'));
}

#[test]
fn ucsur_accepts_one_leading_plus() {
    assert_eq!(ucsur_char("+41"), Some('A'));
    assert_eq!(ucsur_char("U++41"), Some('A'));
    assert_eq!(ucsur_char("++41"), None);
}

#[test]
fn ucsur_rejects_empty_and_non_hex() {
    assert_eq!(ucsur_char(""), None);
    assert_eq!(ucsur_char("U+"), None);
    assert_eq!(ucsur_char("G1"), None);
    assert_eq!(ucsur_char("41 "), None);
}

#[test]
fn ucsur_rejects_surrogates_and_out_of_range() {
    assert_eq!(ucsur_char("U+D800"), None);
    assert_eq!(ucsur_char("110000"), None);
    assert_eq!(ucsur_char("FFFFFFFFF"), None);
}
