use remote_proxy::text::{chars_of, find_char, push_range, starts_with, string_of};

#[test]
fn chars_of_lists_the_characters() {
    assert_eq!(chars_of(""), Vec::<char>::new());
    assert_eq!(chars_of("abc"), vec!['a', 'b', 'c']);
    assert_eq!(chars_of("é例\u{1f600}\r\n"), vec!['é', '例', '\u{1f600}', '\r', '\n']);
}

#[test]
fn string_of_copies_a_range() {
    let v = chars_of("héllo wörld");
    assert_eq!(string_of(&v, 0, v.len()), "héllo wörld");
    assert_eq!(string_of(&v, 0, 5), "héllo");
    assert_eq!(string_of(&v, 6, 11), "wörld");
    assert_eq!(string_of(&v, 3, 3), "");
    assert_eq!(string_of(&v, 11, 11), "");
}

#[test]
fn push_range_appends_a_range() {
    let v = chars_of("abcdef");
    let mut out = String::from("x=");
    push_range(&mut out, &v, 1, 4);
    assert_eq!(out, "x=bcd");
    push_range(&mut out, &v, 4, 4);
    assert_eq!(out, "x=bcd");
    push_range(&mut out, &v, 0, 6);
    assert_eq!(out, "x=bcdabcdef");
}

#[test]
fn starts_with_compares_a_prefix() {
    let v = chars_of("  http://host");
    let http = chars_of("http://");
    let https = chars_of("https://");
    assert!(starts_with(&v, 2, v.len(), &http));
    assert!(!starts_with(&v, 2, v.len(), &https));
    assert!(!starts_with(&v, 0, v.len(), &http));
    assert!(!starts_with(&v, 2, 8, &http));
    assert!(starts_with(&v, 2, 9, &http));
    assert!(starts_with(&v, 5, 5, &chars_of("")));
    assert!(starts_with(&v, 0, v.len(), &chars_of("")));
    assert!(!starts_with(&v, 13, 13, &chars_of("x")));
}

#[test]
fn find_char_gives_the_first_place() {
    let v = chars_of("a/b/c:d");
    assert_eq!(find_char(&v, 0, v.len(), '/'), Some(1));
    assert_eq!(find_char(&v, 2, v.len(), '/'), Some(3));
    assert_eq!(find_char(&v, 4, v.len(), '/'), None);
    assert_eq!(find_char(&v, 0, 1, '/'), None);
    assert_eq!(find_char(&v, 0, 2, '/'), Some(1));
    assert_eq!(find_char(&v, 0, v.len(), ':'), Some(5));
    assert_eq!(find_char(&v, 0, v.len(), 'z'), None);
    assert_eq!(find_char(&v, 3, 3, '/'), None);
}
