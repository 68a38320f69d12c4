use release_notes::text::{contains, join, replace, split, str_eq, str_le, trim};

#[test]
fn trimming_unicode_space() {
    assert_eq!(trim(" \t\u{a0}abc\u{3000}\n"), "abc");
    assert_eq!(trim("   "), "");
    assert_eq!(trim(""), "");
}

#[test]
fn searching_and_splitting() {
    assert!(contains("from a client:", "from a client"));
    assert!(contains("abc", ""));
    assert!(!contains("from a clien", "from a client"));
    assert_eq!(split("a,b,,c", ","), vec!["a", "b", "", "c"]);
    assert_eq!(split("", ","), vec![""]);
    assert_eq!(split("x, y, z", ", "), vec!["x", "y", "z"]);
}

#[test]
fn replacing_and_joining() {
    assert_eq!(replace("a\r\nb\r\n", "\r\n", "\n"), "a\nb\n");
    assert_eq!(replace("aaa", "aa", "b"), "ba");
    assert_eq!(join(&vec!["a".to_string(), "b".to_string()], ", "), "a, b");
    assert_eq!(join(&vec![], ";"), "");
}

#[test]
fn ordering_and_equality() {
    assert!(str_le("Alpha", "alpha"));
    assert!(str_le("ab", "abc"));
    assert!(!str_le("b", "abc"));
    assert!(str_le("", ""));
    assert!(str_eq("x", "x"));
    assert!(!str_eq("x", "y"));
}
