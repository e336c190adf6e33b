use cyan_backend::text::{i64_text, str_eq, truncate_str, u64_text};

#[test]
fn truncate_keeps_short_text() {
    assert_eq!(truncate_str("hello", 5), "hello");
    assert_eq!(truncate_str("hello", 99), "hello");
    assert_eq!(truncate_str("", 0), "");
}

#[test]
fn truncate_cuts_at_a_character() {
    assert_eq!(truncate_str("hello", 3), "hel");
    assert_eq!(truncate_str("héllo", 2), "h");
    assert_eq!(truncate_str("日本語", 5), "日");
    assert_eq!(truncate_str("日本語", 2), "");
    let cut = truncate_str("日本語", 7);
    assert_eq!(cut, "日本");
    assert_eq!(truncate_str(cut, 7), cut);
}

#[test]
fn numbers_print_in_decimal() {
    assert_eq!(u64_text(0), "0");
    assert_eq!(u64_text(u64::MAX), "18446744073709551615");
    assert_eq!(i64_text(-42), "-42");
    assert_eq!(i64_text(i64::MIN), "-9223372036854775808");
}

#[test]
fn text_equality_is_by_content() {
    assert!(str_eq("naïve", "naïve"));
    assert!(!str_eq("naïve", "naive"));
    assert!(!str_eq("a", "b"));
}
