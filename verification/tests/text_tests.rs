use manga_sources::text::{
    decimal_string, head_str, join_str, last_piece_str, replace_char_str, replace_str,
    second_piece_str, split_str, str_contains, str_ends_with, str_equals, str_starts_with,
    str_strip_prefix, strip_either_str, trim_str, after_first_str,
};

#[test]
fn decimal_text_of_integers() {
    assert_eq!(decimal_string(0), "0");
    assert_eq!(decimal_string(7), "7");
    assert_eq!(decimal_string(-5), "-5");
    assert_eq!(decimal_string(1234567890), "1234567890");
    assert_eq!(decimal_string(i64::MAX), i64::MAX.to_string());
    assert_eq!(decimal_string(i64::MIN), i64::MIN.to_string());
}

#[test]
fn splitting_matches_str_split() {
    let cases = [("a/b/c", "/"), ("", "/"), ("/lead", "/"), ("x::y::", "::"), ("none", "-")];
    for (s, p) in cases {
        let expected: Vec<String> = s.split(p).map(String::from).collect();
        assert_eq!(split_str(s, p), expected);
        assert_eq!(head_str(s, p), s.split(p).next().unwrap());
        assert_eq!(second_piece_str(s, p), s.split(p).nth(1).map(String::from));
        assert_eq!(last_piece_str(s, p), s.split(p).last().unwrap());
    }
    assert_eq!(after_first_str("k=v&x", "="), Some("v&x".to_string()));
    assert_eq!(after_first_str("kv", "="), None);
}

#[test]
fn replacing_matches_str_replace() {
    assert_eq!(replace_str("/manga/a/manga/b", "/manga/", "/roll_manga/"), "/roll_manga/a/roll_manga/b");
    assert_eq!(replace_str("abc", "x", "y"), "abc");
    assert_eq!(replace_char_str("one piece  x", ' ', "+"), "one+piece++x");
    assert_eq!(replace_char_str("a b", ' ', "%20"), "a%20b");
}

#[test]
fn joining_matches_slice_join() {
    let v = vec!["a".to_string(), "b".to_string(), "c".to_string()];
    assert_eq!(join_str(&v, ","), "a,b,c");
    assert_eq!(join_str(&Vec::new(), ","), "");
    assert_eq!(join_str(&vec!["x".to_string()], ", "), "x");
}

#[test]
fn trimming_matches_str_trim() {
    for s in ["  a b  ", "\t\nx\u{3000}", "", "   ", "\u{a0}y\u{2028}", "no"] {
        assert_eq!(trim_str(s), s.trim());
    }
}

#[test]
fn prefixes_suffixes_and_containment() {
    assert!(str_starts_with("/manga/x", "/manga/"));
    assert!(!str_starts_with("/mang", "/manga/"));
    assert!(str_ends_with("/manga/x/c1.html", ".html"));
    assert!(!str_ends_with("html", ".html"));
    assert!(str_contains("Ongoing now", "going"));
    assert!(!str_contains("abc", "abd"));
    assert!(str_contains("abc", ""));
    assert!(str_equals("jp", "jp"));
    assert!(!str_equals("jp", "jpn"));
    assert_eq!(str_strip_prefix("https://a.b/x", "https://a.b"), Some("/x".to_string()));
    assert_eq!(str_strip_prefix("https://c.d/x", "https://a.b"), None);
    assert_eq!(strip_either_str("https://m.a.b/x", "https://a.b", "https://m.a.b"), "/x");
    assert_eq!(strip_either_str("other", "https://a.b", "https://m.a.b"), "other");
}
