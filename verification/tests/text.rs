use aptos_execution::text::{decimal_string, join, push_decimal};

#[test]
fn numbers_are_written_without_leading_zeros() {
    assert_eq!(decimal_string(0), "0");
    assert_eq!(decimal_string(7), "7");
    assert_eq!(decimal_string(10), "10");
    assert_eq!(decimal_string(1234567890), "1234567890");
    assert_eq!(decimal_string(u64::MAX), "18446744073709551615");
}

#[test]
fn number_is_appended() {
    let mut text = String::from("n=");
    push_decimal(&mut text, 42);
    assert_eq!(text, "n=42");
}

#[test]
fn parts_are_joined() {
    assert_eq!(join(&vec![], ", "), "");
    assert_eq!(join(&vec!["a".to_string()], ", "), "a");
    assert_eq!(join(&vec!["a".to_string(), "b".to_string(), "c".to_string()], ", "), "a, b, c");
}
