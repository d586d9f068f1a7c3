use cohost_dl::text::{
    from_chars, join, less_than, longer_than, parse_u64, push_decimal, split, to_ascii_lowercase,
    to_chars,
};

fn chars(s: &str) -> Vec<char> {
    s.chars().collect()
}

#[test]
fn texts_split_like_str_split() {
    for text in ["", "a", "a/b", "/a/", "a//b", "///"] {
        let expected: Vec<Vec<char>> = text.split('/').map(chars).collect();
        assert_eq!(split(&chars(text), '/'), expected, "{text:?}");
    }
}

#[test]
fn pieces_join_with_the_separator_between_them() {
    assert_eq!(join(&vec![], "&"), chars(""));
    assert_eq!(join(&vec![chars("a")], "&"), chars("a"));
    assert_eq!(join(&vec![chars("a"), chars(""), chars("b")], ", "), chars("a, , b"));
}

#[test]
fn numbers_are_written_in_decimal() {
    for n in [0u64, 7, 10, 99, 100, 12345, u64::MAX] {
        let mut out = chars("n=");
        push_decimal(&mut out, n);
        assert_eq!(from_chars(&out), format!("n={n}"));
    }
}

#[test]
fn numbers_are_read_like_str_parse() {
    for text in
        ["", "0", "007", "+5", "+", "-1", "12a", " 1", "18446744073709551615", "18446744073709551616", "99999999999999999999999", "١٢"]
    {
        assert_eq!(parse_u64(&chars(text)), text.parse::<u64>().ok(), "{text:?}");
    }
}

#[test]
fn texts_are_ordered_like_strings() {
    for (a, b) in [("", ""), ("", "a"), ("a", ""), ("a", "b"), ("b", "a"), ("ab", "a"), ("a", "ab"), ("é", "z"), ("Z", "a")] {
        assert_eq!(less_than(&chars(a), &chars(b)), a < b, "{a:?} {b:?}");
    }
}

#[test]
fn ascii_capitals_are_folded() {
    assert_eq!(to_ascii_lowercase(&chars("AbC-É@[`{Z")), chars("abc-É@[`{z"));
}

#[test]
fn lengths_are_counted_in_bytes() {
    assert!(!longer_than(&chars("aé€😀"), 10));
    assert!(longer_than(&chars("aé€😀"), 9));
    assert!(!longer_than(&chars(""), 0));
    assert_eq!(to_chars("aé"), chars("aé"));
}
