use yaml_json::text::{append_chars, chars_of, same_chars, same_text, string_of};

fn letters(s: &str) -> Vec<char> {
    s.chars().collect()
}

#[test]
fn strings_and_characters() {
    let samples = ["", "a", "hello world", "caf\u{e9}", "\u{1F600}\n\t ", "a\0b"];
    for s in samples {
        assert_eq!(chars_of(s), letters(s));
        assert_eq!(string_of(&letters(s)), s);
        assert_eq!(string_of(&chars_of(s)), s);
    }
}

#[test]
fn append_chars_appends() {
    let mut out = letters("ab");
    append_chars(&mut out, &letters("cd"));
    assert_eq!(out, letters("abcd"));
    append_chars(&mut out, &letters(""));
    assert_eq!(out, letters("abcd"));
    let mut empty: Vec<char> = Vec::new();
    append_chars(&mut empty, &letters("x"));
    assert_eq!(empty, letters("x"));
}

#[test]
fn same_text_compares_letter_for_letter() {
    assert!(same_text("", ""));
    assert!(same_text("yaml", "yaml"));
    assert!(!same_text("yaml", "yml"));
    assert!(!same_text("yaml", "YAML"));
    assert!(!same_text("yaml", "yaml "));
    assert!(!same_text("", "a"));
    assert!(!same_text("abc", "abd"));
    assert!(same_text("caf\u{e9}", "caf\u{e9}"));
    assert!(!same_text("cafe\u{301}", "caf\u{e9}"));
    assert!(same_chars(&letters("ab"), &letters("ab")));
    assert!(!same_chars(&letters("ab"), &letters("ba")));
    assert!(!same_chars(&letters("ab"), &letters("abc")));
}
