use router_crabs::text::{chars_of, contains_char, contains_chars, decimal_string, join, parse_u16};

fn contains(text: &str, word: &str) -> bool {
    contains_chars(&chars_of(text), &chars_of(word))
}

#[test]
fn substring_search() {
    assert!(contains("hello world", "lo wo"));
    assert!(contains("hello", "hello"));
    assert!(contains("hello", ""));
    assert!(contains("", ""));
    assert!(!contains("", "a"));
    assert!(!contains("hell", "hello"));
    assert!(!contains("hello", "Hello"));
    assert!(contains("aab", "ab"));
    assert!(contains("la sécurité avant tout", "sécurité"));
    assert!(contains("كيف حالك", "حال"));
}

#[test]
fn search_among_characters() {
    let text = chars_of("abc?");
    assert!(contains_chars(&text, &['b', 'c']));
    assert!(!contains_chars(&text, &['c', 'b']));
    assert!(contains_char(&text, '?'));
    assert!(!contains_char(&text, '!'));
}

#[test]
fn joining() {
    assert_eq!(join(&[], ", "), "");
    assert_eq!(join(&["a".to_string()], ", "), "a");
    assert_eq!(join(&["a".to_string(), "b".to_string(), "".to_string()], ", "), "a, b, ");
}

#[test]
fn decimal_numerals() {
    assert_eq!(decimal_string(0), "0");
    assert_eq!(decimal_string(9), "9");
    assert_eq!(decimal_string(10), "10");
    assert_eq!(decimal_string(4_294_967_295), "4294967295");
    assert_eq!(decimal_string(u128::MAX), u128::MAX.to_string());
}

#[test]
fn numerals_of_ports() {
    assert_eq!(parse_u16("0"), Some(0));
    assert_eq!(parse_u16("8001"), Some(8001));
    assert_eq!(parse_u16("00080"), Some(80));
    assert_eq!(parse_u16("65535"), Some(65535));
    assert_eq!(parse_u16("65536"), None);
    assert_eq!(parse_u16("99999999999999999999999999"), None);
    assert_eq!(parse_u16(""), None);
    assert_eq!(parse_u16("+80"), None);
    assert_eq!(parse_u16("8 0"), None);
    assert_eq!(parse_u16("٣"), None);
    assert_eq!(parse_u16(&decimal_string(54321)), Some(54321));
}
