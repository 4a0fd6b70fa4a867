use skipuac::text::{
    contains, push_decimal, push_decimal_i64, push_hex_fixed, same_text, starts_with,
    strip_prefix, to_ascii_lowercase, trim, trim_char,
};
use skipuac::unicode::{to_wide, to_wide_str, wide_buf_to_string};

#[test]
fn wide_of_ascii_ends_with_nul() {
    assert_eq!(to_wide_str("abc"), vec![97u16, 98, 99, 0]);
    assert_eq!(to_wide("C:\\x"), vec![67u16, 58, 92, 120, 0]);
    assert_eq!(to_wide_str(""), vec![0u16]);
}

#[test]
fn wide_of_astral_char_is_surrogate_pair() {
    assert_eq!(to_wide_str("\u{1F600}"), vec![0xD83Du16, 0xDE00, 0]);
    assert_eq!(to_wide_str("é"), vec![0xE9u16, 0]);
}

#[test]
fn wide_matches_std_encoding() {
    let s = "Program Files\\Ünïcode \u{10FFFF} 中文";
    let mut expected: Vec<u16> = s.encode_utf16().collect();
    expected.push(0);
    assert_eq!(to_wide_str(s), expected);
}

#[test]
fn wide_buffer_stops_at_first_nul() {
    assert_eq!(wide_buf_to_string(&[104, 105, 0, 120, 121]), "hi");
    assert_eq!(wide_buf_to_string(&[104, 105]), "hi");
    assert_eq!(wide_buf_to_string(&[0, 104]), "");
    assert_eq!(wide_buf_to_string(&[]), "");
}

#[test]
fn wide_buffer_decodes_pairs_and_replaces_lone_surrogates() {
    assert_eq!(wide_buf_to_string(&[0xD83D, 0xDE00, 0]), "\u{1F600}");
    assert_eq!(wide_buf_to_string(&[0xD83D, 0x41, 0]), "\u{FFFD}A");
    assert_eq!(wide_buf_to_string(&[0xDE00, 0x41]), "\u{FFFD}A");
    assert_eq!(wide_buf_to_string(&[0x41, 0xD83D]), "A\u{FFFD}");
}

#[test]
fn wide_round_trip_law_on_examples() {
    for s in ["", "abc", "C:\\Program Files\\app.exe", "\u{1F600}x\u{FFFF}", "日本"] {
        assert_eq!(wide_buf_to_string(&to_wide_str(s)), s);
    }
}

#[test]
fn wide_round_trip_truncates_at_embedded_nul() {
    assert_eq!(wide_buf_to_string(&to_wide_str("ab\0cd")), "ab");
}

#[test]
fn trimming() {
    assert_eq!(trim_char("__a_b__", '_'), "a_b");
    assert_eq!(trim_char("____", '_'), "");
    assert_eq!(trim_char("\"C:\\x\"", '"'), "C:\\x");
    assert_eq!(trim(" \t x y \n"), "x y");
    assert_eq!(trim("\u{3000}z\u{A0}"), "z");
    assert_eq!(trim("   "), "");
}

#[test]
fn prefixes_and_substrings() {
    assert!(starts_with("--run-task=x", "--run-task="));
    assert!(!starts_with("--run", "--run-task"));
    assert_eq!(strip_prefix("--run-task=abc", "--run-task="), Some("abc".to_string()));
    assert_eq!(strip_prefix("abc", "x"), None);
    assert!(contains("a --run-task b", "--run-task"));
    assert!(!contains("abc", "abcd"));
    assert!(contains("abc", ""));
    assert!(same_text("x", "x"));
    assert!(!same_text("x", "y"));
}

#[test]
fn ascii_lowercase_leaves_other_chars() {
    assert_eq!(to_ascii_lowercase("AbC.ÉXE"), "abc.Éxe");
}

#[test]
fn number_rendering() {
    let mut s = String::new();
    push_decimal(&mut s, 0);
    assert_eq!(s, "0");
    let mut s = String::new();
    push_decimal(&mut s, 1234567890123);
    assert_eq!(s, "1234567890123");
    let mut s = String::new();
    push_decimal_i64(&mut s, -42);
    assert_eq!(s, "-42");
    let mut s = String::new();
    push_decimal_i64(&mut s, i64::MIN);
    assert_eq!(s, i64::MIN.to_string());
    let mut s = String::new();
    push_hex_fixed(&mut s, 0x80070002, 8, true);
    assert_eq!(s, "80070002");
    let mut s = String::new();
    push_hex_fixed(&mut s, 0xab, 8, false);
    assert_eq!(s, "000000ab");
}
