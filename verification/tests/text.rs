use mindmirror::text::{
    chars_of, push_decimal, push_joined, push_signed, text_between, text_eq, text_le,
};

fn decimal_text(n: u64) -> String {
    let mut out = String::new();
    push_decimal(&mut out, n);
    out
}

#[test]
fn decimal_numerals() {
    assert_eq!(decimal_text(0), "0");
    assert_eq!(decimal_text(7), "7");
    assert_eq!(decimal_text(10), "10");
    assert_eq!(decimal_text(1234567890), "1234567890");
    assert_eq!(decimal_text(u64::MAX), "18446744073709551615");
}

#[test]
fn numerals_are_appended() {
    let mut out = String::from("n=");
    push_decimal(&mut out, 42);
    out.push(';');
    push_signed(&mut out, -42);
    out.push(';');
    push_signed(&mut out, 0);
    out.push(';');
    push_signed(&mut out, i64::MIN);
    out.push(';');
    push_signed(&mut out, i64::MAX);
    assert_eq!(out, "n=42;-42;0;-9223372036854775808;9223372036854775807");
}

#[test]
fn texts_compare_by_their_first_difference() {
    assert!(text_le("", ""));
    assert!(text_le("", "a"));
    assert!(!text_le("a", ""));
    assert!(text_le("abc", "abc"));
    assert!(text_le("abc", "abd"));
    assert!(!text_le("abd", "abc"));
    assert!(text_le("ab", "abc"));
    assert!(!text_le("abc", "ab"));
    assert!(text_le("2024-01-01 09:59:59", "2024-01-01 10:00:00"));
    assert!(text_le("Z", "a"));
    assert!(text_le("z", "é"));
    assert!(text_le("é", "中"));
}

#[test]
fn order_agrees_with_the_order_of_strings() {
    let samples = ["", "a", "ab", "b", "2024-01-01", "2024-01-02 00:00:00", "中", "é", "A"];
    for a in samples {
        for b in samples {
            assert_eq!(text_le(a, b), a <= b);
            assert_eq!(text_eq(a, b), a == b);
        }
    }
}

#[test]
fn between_is_closed() {
    assert!(text_between("b", "b", "d"));
    assert!(text_between("b", "c", "d"));
    assert!(text_between("b", "d", "d"));
    assert!(!text_between("b", "a", "d"));
    assert!(!text_between("b", "e", "d"));
}

#[test]
fn texts_are_joined_with_a_separator() {
    let mut out = String::from(">");
    push_joined(&mut out, &Vec::new(), ", ");
    assert_eq!(out, ">");
    push_joined(&mut out, &vec!["a".to_string()], ", ");
    assert_eq!(out, ">a");
    push_joined(&mut out, &vec!["b".to_string(), "c".to_string(), "d".to_string()], ", ");
    assert_eq!(out, ">ab, c, d");
}

#[test]
fn characters_of_a_text() {
    assert_eq!(chars_of("a中b"), vec!['a', '中', 'b']);
    assert!(chars_of("").is_empty());
}
