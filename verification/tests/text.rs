use f1r3fly_client::text::{bool_text, integer_text, join, lines, natural_text, same};

fn texts(items: &[&str]) -> Vec<String> {
    items.iter().map(|s| s.to_string()).collect()
}

#[test]
fn lines_end_at_line_feeds() {
    assert_eq!(lines(""), texts(&[]));
    assert_eq!(lines("a"), texts(&["a"]));
    assert_eq!(lines("a\nb\n"), texts(&["a", "b"]));
    assert_eq!(lines("\n"), texts(&[""]));
    assert_eq!(lines("a\r\nb\r\n"), texts(&["a", "b"]));
    assert_eq!(lines("a\rb\n\r"), texts(&["a\rb", "\r"]));
    for s in ["a\n\nb", "\r\n\r", "x\r\r\ny", "é\nü"] {
        let expected: Vec<String> = s.lines().map(|l| l.to_string()).collect();
        assert_eq!(lines(s), expected);
    }
}

#[test]
fn numbers_are_written_in_decimal() {
    assert_eq!(natural_text(0), "0");
    assert_eq!(natural_text(1009), "1009");
    assert_eq!(natural_text(u64::MAX), "18446744073709551615");
    assert_eq!(integer_text(-7), "-7");
    assert_eq!(integer_text(i64::MIN), "-9223372036854775808");
    assert_eq!(integer_text(i64::MAX), "9223372036854775807");
}

#[test]
fn truth_values_are_written_in_words() {
    assert_eq!(bool_text(true), "true");
    assert_eq!(bool_text(false), "false");
}

#[test]
fn texts_are_joined_in_order() {
    assert_eq!(join(&texts(&[]), "; "), "");
    assert_eq!(join(&texts(&["a"]), "; "), "a");
    assert_eq!(join(&texts(&["a", "", "c"]), "; "), "a; ; c");
}

#[test]
fn texts_are_compared_by_their_characters() {
    assert!(same("abc", "abc"));
    assert!(!same("abc", "abC"));
    assert!(!same("", " "));
}
