use muc::text::{chars_of, replace_all, split_char, str_eq, string_of};

#[test]
fn split_keeps_empty_pieces() {
    assert_eq!(split_char("", '/'), vec!["".to_string()]);
    assert_eq!(split_char("a/b", '/'), vec!["a".to_string(), "b".to_string()]);
    assert_eq!(split_char("/a//", '/'), vec!["", "a", "", ""].iter().map(|s| s.to_string()).collect::<Vec<_>>());
}

#[test]
fn replace_is_left_to_right() {
    assert_eq!(replace_all("aaa", "aa", "b"), "ba");
    assert_eq!(replace_all("a//b///c", "//", "/"), "a/b//c");
    assert_eq!(replace_all("x\\y", "\\", "/"), "x/y");
    assert_eq!(replace_all("abc", "abcd", "z"), "abc");
    assert_eq!(replace_all("héllo", "é", "e"), "hello");
}

#[test]
fn equality_and_chars() {
    assert!(str_eq("abc", "abc"));
    assert!(!str_eq("abc", "abd"));
    assert!(!str_eq("ab", "abc"));
    assert!(str_eq("", ""));
    let cs = chars_of("añb");
    assert_eq!(cs, vec!['a', 'ñ', 'b']);
    assert_eq!(string_of(&cs), "añb");
}
