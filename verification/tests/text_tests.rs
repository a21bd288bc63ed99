use hielements::text::{contains_str, ends_with_str, first_piece, i64_text, last_piece, split_second, starts_with_str, u64_text};

#[test]
fn number_texts() {
    assert_eq!(u64_text(0), "0");
    assert_eq!(u64_text(18446744073709551615), "18446744073709551615");
    assert_eq!(i64_text(-42), "-42");
    assert_eq!(i64_text(i64::MIN), "-9223372036854775808");
}

#[test]
fn substring_tests() {
    assert!(contains_str("hello world", "o w"));
    assert!(!contains_str("hello", "hello!"));
    assert!(contains_str("x", ""));
    assert!(starts_with_str("element", "ele"));
    assert!(ends_with_str("main.rs", ".rs"));
    assert!(!ends_with_str("rs", "main.rs"));
    assert_eq!(hielements::text::concat("ab", "cd"), "abcd");
}

#[test]
fn pieces_of_text() {
    assert_eq!(last_piece("stdlib::files", "::"), "files");
    assert_eq!(last_piece("files", "::"), "files");
    assert_eq!(split_second("a=b=c", "="), Some("b".to_string()));
    assert_eq!(split_second("abc", "="), None);
    assert_eq!(first_piece("name<T> rest", &vec!['<', ' ']), "name");
}

#[test]
fn lines_like_str_lines() {
    assert_eq!(hielements::text::lines("foo\nbar\n\r\nbaz\r"), vec!["foo", "bar", "", "baz\r"]);
    assert_eq!(hielements::text::lines("a\r\nb\n"), vec!["a", "b"]);
    assert!(hielements::text::lines("").is_empty());
    assert_eq!(hielements::text::lines("\n"), vec![""]);
}

#[test]
fn split_into_pieces() {
    assert_eq!(hielements::text::split_pieces("a,,b", ','), vec!["a", "", "b"]);
    assert_eq!(hielements::text::split_pieces("", ','), vec![""]);
}
