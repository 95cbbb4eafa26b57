use wim::text::{
    chars_of, contains, drop_white_space, end_trimmed_of, ends_with, find_chars, is_blank,
    is_whitespace, replace_char, same_text, split_once, start_trimmed, start_trimmed_of,
    starts_with, take_first_line, take_second_word, text_between, trimmed,
};

#[test]
fn white_space_is_that_of_char() {
    let mut code: u32 = 0;
    while code <= 0x10ffff {
        if let Some(c) = char::from_u32(code) {
            assert_eq!(is_whitespace(c), c.is_whitespace(), "U+{:04X}", code);
        }
        code += 1;
    }
}

#[test]
fn characters_of_text() {
    assert_eq!(chars_of(""), Vec::<char>::new());
    assert_eq!(chars_of("aé—😀"), vec!['a', 'é', '—', '😀']);
    assert_eq!(text_between(&['a', 'b', 'c', 'd'], 1, 3), "bc");
    assert_eq!(text_between(&['a'], 1, 1), "");
}

#[test]
fn texts_are_told_apart() {
    assert!(same_text("", ""));
    assert!(same_text("naïve", "naïve"));
    assert!(!same_text("naïve", "naive"));
    assert!(!same_text("ab", "abc"));
}

#[test]
fn finds_the_first_occurrence() {
    let s = chars_of("abcabc");
    assert_eq!(find_chars(&s, &['b', 'c'], 0), Some(1));
    assert_eq!(find_chars(&s, &['b', 'c'], 2), Some(4));
    assert_eq!(find_chars(&s, &['c', 'b'], 0), None);
    assert_eq!(find_chars(&s, &[], 6), Some(6));
    assert_eq!(find_chars(&s, &['c'], 6), None);
    assert!(contains("abcabc", "cab"));
    assert!(!contains("abcabc", "cac"));
    assert!(contains("", ""));
}

#[test]
fn starts_and_ends() {
    assert!(starts_with("data:x", "data:"));
    assert!(!starts_with("dat", "data:"));
    assert!(starts_with("x", ""));
    assert!(ends_with("a.supabase.co", ".supabase.co"));
    assert!(!ends_with("co", ".co"));
    assert!(ends_with("", ""));
}

#[test]
fn splits_at_the_first_only() {
    assert_eq!(split_once("a=b=c", '='), ("a".to_string(), "b=c".to_string()));
    assert_eq!(split_once("abc", '='), ("abc".to_string(), "".to_string()));
    assert_eq!(split_once("=x", '='), ("".to_string(), "x".to_string()));
}

#[test]
fn first_lines() {
    assert_eq!(take_first_line("GET / HTTP/1.1\r\nHost: x\r\n"), "GET / HTTP/1.1");
    assert_eq!(take_first_line("one\ntwo"), "one");
    assert_eq!(take_first_line("one\r"), "one\r");
    assert_eq!(take_first_line("\r\nx"), "");
    assert_eq!(take_first_line(""), "");
}

#[test]
fn second_words() {
    assert_eq!(take_second_word("GET /a?b HTTP/1.1"), "/a?b");
    assert_eq!(take_second_word("  GET\t\u{3000}/a  "), "/a");
    assert_eq!(take_second_word("GET"), "");
    assert_eq!(take_second_word(""), "");
}

#[test]
fn trimming() {
    assert_eq!(trimmed(" \u{a0}a b\n"), "a b");
    assert_eq!(trimmed(" \t "), "");
    assert!(is_blank(" \t "));
    assert!(!is_blank(" x "));
    assert_eq!(start_trimmed("  x "), "x ");
    assert_eq!(end_trimmed_of("https://x//", '/'), "https://x");
    assert_eq!(end_trimmed_of("//", '/'), "");
    assert_eq!(start_trimmed_of("//a/", '/'), "a/");
}

#[test]
fn replacing() {
    assert_eq!(replace_char("a/b/c", '/', "~"), "a~b~c");
    assert_eq!(replace_char("\"a\"", '"', ""), "a");
    assert_eq!(replace_char("aa", 'a', "aa"), "aaaa");
    assert_eq!(drop_white_space(" a\nb\u{2003}c "), "abc");
}
