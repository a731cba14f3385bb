use olympus::text::{join, push_decimal};

fn decimal(value: i32) -> String {
    let mut out = String::new();
    push_decimal(&mut out, value);
    out
}

#[test]
fn push_decimal_writes_single_digits() {
    assert_eq!(decimal(0), "0");
    assert_eq!(decimal(7), "7");
    assert_eq!(decimal(9), "9");
}

#[test]
fn push_decimal_writes_several_digits_most_significant_first() {
    assert_eq!(decimal(10), "10");
    assert_eq!(decimal(1234506789), "1234506789");
    assert_eq!(decimal(32767), "32767");
    assert_eq!(decimal(65535), "65535");
}

#[test]
fn push_decimal_writes_a_sign_for_negative_numbers() {
    assert_eq!(decimal(-1), "-1");
    assert_eq!(decimal(-32768), "-32768");
    assert_eq!(decimal(-100), "-100");
}

#[test]
fn push_decimal_covers_the_whole_range() {
    assert_eq!(decimal(i32::MAX), "2147483647");
    assert_eq!(decimal(i32::MIN), "-2147483648");
}

#[test]
fn push_decimal_agrees_with_the_standard_rendering() {
    let mut value: i32 = -70000;
    while value <= 70000 {
        assert_eq!(decimal(value), value.to_string());
        value += 7;
    }
}

#[test]
fn push_decimal_appends_to_what_is_there() {
    let mut out = String::from("tag = ");
    push_decimal(&mut out, 42);
    assert_eq!(out, "tag = 42");
}

#[test]
fn join_puts_a_newline_between_lines_only() {
    assert_eq!(join(&Vec::new()), "");
    assert_eq!(join(&vec!["one".to_string()]), "one");
    assert_eq!(join(&vec!["one".to_string(), "two".to_string(), "three".to_string()]), "one\ntwo\nthree");
    assert_eq!(join(&vec![String::new(), String::new()]), "\n");
}
