use oxidy::text::{
    chars_of, decimal_text, join_from, remove_char, split_fields, split_once, starts_with,
    strip_trailing, text_eq, text_of, Delimiter,
};

fn strings(items: &[&str]) -> Vec<String> {
    items.iter().map(|s| s.to_string()).collect()
}

#[test]
fn fields_between_slashes_skip_empty_runs() {
    assert_eq!(split_fields("/a//b/", Delimiter::Char('/')), strings(&["a", "b"]));
    assert_eq!(split_fields("a/b", Delimiter::Char('/')), strings(&["a", "b"]));
    assert_eq!(split_fields("/", Delimiter::Char('/')), Vec::<String>::new());
    assert_eq!(split_fields("", Delimiter::Char('/')), Vec::<String>::new());
    assert_eq!(split_fields("abc", Delimiter::Char('/')), strings(&["abc"]));
}

#[test]
fn fields_between_whitespace_agree_with_split_whitespace() {
    let samples = [
        "GET / HTTP/1.1",
        "  a \t b\r\n c  ",
        "",
        " ",
        "one",
        "a\u{a0}b\u{3000}c",
        "x\u{0b}y",
    ];
    for s in samples {
        let expected: Vec<String> = s.split_whitespace().map(|t| t.to_string()).collect();
        assert_eq!(split_fields(s, Delimiter::Whitespace), expected);
    }
}

#[test]
fn delimiter_tests_one_character() {
    assert!(Delimiter::Char('/').test('/'));
    assert!(!Delimiter::Char('/').test(' '));
    assert!(Delimiter::Whitespace.test(' '));
    assert!(Delimiter::Whitespace.test('\r'));
    assert!(!Delimiter::Whitespace.test('x'));
}

#[test]
fn split_once_cuts_at_the_first_occurrence() {
    assert_eq!(split_once("a?b?c", '?'), ("a".to_string(), "b?c".to_string()));
    assert_eq!(split_once("abc", '?'), ("abc".to_string(), String::new()));
    assert_eq!(split_once("?x", '?'), (String::new(), "x".to_string()));
    assert_eq!(split_once("x?", '?'), ("x".to_string(), String::new()));
    assert_eq!(split_once("", '?'), (String::new(), String::new()));
}

#[test]
fn join_from_puts_one_separator_between_neighbours() {
    let parts = strings(&["k", "a", "b", "c"]);
    assert_eq!(join_from(&parts, 1, ' '), "a b c");
    assert_eq!(join_from(&parts, 0, '='), "k=a=b=c");
    assert_eq!(join_from(&parts, 3, ' '), "c");
    assert_eq!(join_from(&parts, 4, ' '), "");
}

#[test]
fn strip_trailing_takes_one_character_off() {
    assert_eq!(strip_trailing("Host:", ':'), "Host");
    assert_eq!(strip_trailing("Host::", ':'), "Host:");
    assert_eq!(strip_trailing("a:b", ':'), "a:b");
    assert_eq!(strip_trailing(":", ':'), "");
    assert_eq!(strip_trailing("", ':'), "");
}

#[test]
fn remove_char_takes_every_occurrence_out() {
    assert_eq!(remove_char(":id", ':'), "id");
    assert_eq!(remove_char(":a:b:", ':'), "ab");
    assert_eq!(remove_char("plain", ':'), "plain");
    assert_eq!(remove_char("", ':'), "");
}

#[test]
fn text_eq_compares_characters() {
    assert!(text_eq("abc", "abc"));
    assert!(!text_eq("abc", "abd"));
    assert!(!text_eq("abc", "ab"));
    assert!(text_eq("", ""));
}

#[test]
fn starts_with_reads_the_first_character() {
    assert!(starts_with(":id", ':'));
    assert!(!starts_with("id:", ':'));
    assert!(!starts_with("", ':'));
}

#[test]
fn chars_and_text_are_inverse() {
    let v = chars_of("héllo");
    assert_eq!(v, vec!['h', 'é', 'l', 'l', 'o']);
    assert_eq!(text_of(&v, 0, 5), "héllo");
    assert_eq!(text_of(&v, 1, 3), "él");
    assert_eq!(text_of(&v, 2, 2), "");
}

#[test]
fn decimal_text_writes_numbers_as_to_string_does() {
    for n in [0usize, 1, 9, 10, 11, 99, 100, 101, 200, 404, 65535, usize::MAX] {
        assert_eq!(decimal_text(n), n.to_string());
    }
    assert_eq!(decimal_text(2), "2");
    assert_eq!(decimal_text(1203), "1203");
}
