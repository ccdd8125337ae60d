use self_evolving_agent::strmap::StrMap;
use self_evolving_agent::text::{contains_text, decimal_string, split_words, trim_str};

#[test]
fn text_words_and_trim() {
    assert_eq!(split_words("  a bb\tccc \n"), vec!["a", "bb", "ccc"]);
    assert!(split_words("   ").is_empty());
    assert_eq!(trim_str("\u{3000} x y \n"), "x y");
    assert_eq!(decimal_string(0), "0");
    assert_eq!(decimal_string(1234567890), "1234567890");
}

#[test]
fn strmap_keeps_insertion_order() {
    let mut m: StrMap<u32> = StrMap::new();
    assert_eq!(m.insert("b".to_string(), 1), None);
    assert_eq!(m.insert("a".to_string(), 2), None);
    assert_eq!(m.insert("b".to_string(), 3), Some(1));
    assert_eq!(m.keys(), vec!["b".to_string(), "a".to_string()]);
    assert_eq!(m.get("b"), Some(&3));
    assert_eq!(m.first_key(), Some("b".to_string()));
    assert_eq!(m.remove("b"), Some(3));
    assert_eq!(m.keys(), vec!["a".to_string()]);
    m.remove_all(&vec!["a".to_string(), "z".to_string()]);
    assert!(m.is_empty());
}

#[test]
fn text_contains() {
    assert!(contains_text("hello world", "o w"));
    assert!(contains_text("abc", ""));
    assert!(!contains_text("abc", "abcd"));
    assert!(!contains_text("", "a"));
}
