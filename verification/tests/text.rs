use user_api::text::{decimal_string, occurs_times, strip_prefix};

#[test]
fn decimal_of_zero_is_one_digit() {
    assert_eq!(decimal_string(0), "0");
}

#[test]
fn decimal_of_single_digits() {
    assert_eq!(decimal_string(7), "7");
    assert_eq!(decimal_string(9), "9");
}

#[test]
fn decimal_keeps_inner_and_trailing_zeros() {
    assert_eq!(decimal_string(10), "10");
    assert_eq!(decimal_string(1005), "1005");
    assert_eq!(decimal_string(120_000), "120000");
}

#[test]
fn decimal_of_the_largest_word() {
    assert_eq!(decimal_string(u64::MAX), "18446744073709551615");
}

#[test]
fn decimal_agrees_with_the_standard_formatter() {
    let samples: Vec<u64> = vec![1, 42, 99, 100, 101, 65_535, 4_294_967_296, 1_700_000_000_123];
    for n in samples {
        assert_eq!(decimal_string(n), format!("{}", n));
    }
}

#[test]
fn strip_prefix_returns_the_rest() {
    assert_eq!(strip_prefix("Bearer abc.def", "Bearer "), Some("abc.def"));
}

#[test]
fn strip_prefix_of_the_prefix_alone_is_empty() {
    assert_eq!(strip_prefix("Bearer ", "Bearer "), Some(""));
}

#[test]
fn strip_prefix_refuses_another_beginning() {
    assert_eq!(strip_prefix("Basic abc", "Bearer "), None);
    assert_eq!(strip_prefix("bearer abc", "Bearer "), None);
    assert_eq!(strip_prefix(" Bearer abc", "Bearer "), None);
}

#[test]
fn strip_prefix_refuses_a_shorter_text() {
    assert_eq!(strip_prefix("Bear", "Bearer "), None);
    assert_eq!(strip_prefix("", "Bearer "), None);
}

#[test]
fn strip_prefix_counts_characters_not_bytes() {
    assert_eq!(strip_prefix("héllo wörld", "héllo "), Some("wörld"));
    assert_eq!(strip_prefix("Bearer tökén", "Bearer "), Some("tökén"));
}

#[test]
fn strip_prefix_with_an_empty_prefix_returns_all() {
    assert_eq!(strip_prefix("abc", ""), Some("abc"));
}

#[test]
fn occurs_times_counts_exactly() {
    assert!(occurs_times("a.b.c", '.', 2));
    assert!(!occurs_times("a.b.c", '.', 1));
    assert!(!occurs_times("a.b.c", '.', 3));
    assert!(occurs_times("abc", '.', 0));
    assert!(!occurs_times("abc", '.', 1));
    assert!(occurs_times("", '.', 0));
    assert!(occurs_times("...", '.', 3));
    assert!(!occurs_times("....", '.', 3));
}
