//! Exercises the string toolkit and the parsers built on it.

use stasis::text;

#[test]
fn lowercase_folds_ascii() {
    assert_eq!(text::to_lower("FireFox 123"), "firefox 123");
    assert_eq!(text::to_lower(""), "");
}

#[test]
fn contains_finds_substrings() {
    assert!(text::contains_str("loginctl lock-session now", "loginctl lock-session"));
    assert!(!text::contains_str("loginctl unlock", "lock-session"));
    assert!(text::contains_str("abc", ""));
    assert!(!text::contains_str("", "a"));
}

#[test]
fn case_insensitive_equality() {
    assert!(text::eq_ignore_case("Steam", "steam"));
    assert!(!text::eq_ignore_case("steam", "stream"));
}

#[test]
fn prefix_and_suffix() {
    assert!(text::has_prefix("battery.dim", "battery."));
    assert!(!text::has_prefix("dim", "battery."));
    assert!(text::has_suffix("game.exe", ".exe"));
    assert_eq!(text::strip_prefix_str("ac.dim", "ac."), Some("dim"));
    assert_eq!(text::strip_prefix_str("dim", "ac."), None);
}

#[test]
fn trim_and_tokens() {
    assert_eq!(text::trim_str("  b true\n"), "b true");
    assert_eq!(text::first_token_str("  swaylock -f  "), "swaylock");
    assert_eq!(text::first_token_str("   "), "");
    assert_eq!(text::basename_str("/usr/bin/swaylock"), "swaylock");
    assert_eq!(text::basename_str("swaylock"), "swaylock");
    assert_eq!(text::tail_after_str("com.example.app", '.'), "app");
    assert_eq!(text::trim_char_str("\"firefox\"", '"'), "firefox");
}

#[test]
fn fields_and_lines() {
    let f = text::fields_str(" 12  34\t5 ");
    assert_eq!(f, vec!["12".to_string(), "34".to_string(), "5".to_string()]);
    let l = text::lines_str("a\nb\n");
    assert_eq!(l, vec!["a".to_string(), "b".to_string()]);
    assert_eq!(text::lines_str(""), Vec::<String>::new());
}

#[test]
fn decimal_parsing() {
    assert_eq!(text::parse_u64("12345"), Some(12345));
    assert_eq!(text::parse_u64(""), None);
    assert_eq!(text::parse_u64("12a"), None);
    assert_eq!(text::parse_u64("18446744073709551615"), Some(u64::MAX));
    assert_eq!(text::parse_u64("18446744073709551616"), None);
    assert_eq!(text::parse_u32("70000"), Some(70000));
    assert_eq!(text::parse_u32("4294967296"), None);
}

#[test]
fn decimal_rendering() {
    assert_eq!(text::u64_to_string(0), "0");
    assert_eq!(text::u64_to_string(7), "7");
    assert_eq!(text::u64_to_string(65000), "65000");
    assert_eq!(text::u64_to_string(u64::MAX), "18446744073709551615");
}

#[test]
fn character_edits() {
    assert_eq!(text::replace_char("lock_screen", '_', '-'), "lock-screen");
    assert_eq!(text::remove_char("lock-screen", '-'), "lockscreen");
}
