use webprobe::order::{sort_distinct, sort_texts, text_at_most};
use webprobe::text::{
    contains, decimal, ends_with, find, is_whitespace, join, replace, split, split_text, starts_with,
    trim, trim_end_matches, trim_start_matches,
};

#[test]
fn whitespace_is_that_of_unicode() {
    for n in 0..=0x10ffff_u32 {
        if let Some(c) = char::from_u32(n) {
            assert_eq!(is_whitespace(c), c.is_whitespace(), "{n:x}");
        }
    }
}

#[test]
fn trimming_agrees_with_std() {
    for s in ["", " ", "a", " a b ", "\t\u{a0}x\u{3000}\n", "ab\u{200b} "] {
        assert_eq!(trim(s), s.trim());
        assert_eq!(trim_end_matches(s, 'b'), s.trim_end_matches('b'));
        assert_eq!(trim_start_matches(s, 'a'), s.trim_start_matches('a'));
    }
    assert_eq!(trim_end_matches("a///", '/'), "a");
    assert_eq!(trim_end_matches("///", '/'), "");
    assert_eq!(trim_start_matches("..a.", '.'), "a.");
}

#[test]
fn searching_agrees_with_std() {
    let texts = ["", "a", "ab", "abab", "überü", "a; b; ; c", "; ", "aab"];
    let parts = ["a", "ab", "; ", "ü", "x", "bab"];
    for s in texts {
        for p in parts {
            assert_eq!(contains(s, p), s.contains(p));
            assert_eq!(starts_with(s, p), s.starts_with(p));
            assert_eq!(ends_with(s, p), s.ends_with(p));
            assert_eq!(find(s, p), s.find(p).map(|i| s[..i].chars().count()));
            assert_eq!(split_text(s, p), s.split(p).collect::<Vec<_>>());
        }
    }
}

#[test]
fn splitting_and_joining() {
    assert_eq!(split("", ','), vec![""]);
    assert_eq!(split(",a,,b", ','), vec!["", "a", "", "b"]);
    assert_eq!(replace("it's", '\'', "\\'"), "it\\'s");
    let list = vec!["a".to_string(), "".to_string(), "b".to_string()];
    assert_eq!(join(&list, ", "), "a, , b");
    assert_eq!(join(&Vec::new(), ", "), "");
}

#[test]
fn numerals() {
    for n in [0, 7, 10, 99, 100, 1234567890, u64::MAX] {
        assert_eq!(decimal(n), n.to_string());
    }
}

#[test]
fn texts_are_ordered_as_std_does() {
    let texts = ["", "a", "aa", "b", "B", "é", "\u{10000}", "\u{ffff}"];
    for a in texts {
        for b in texts {
            assert_eq!(text_at_most(a, b), a <= b);
        }
    }
    let mut list: Vec<String> =
        ["b", "a", "", "b", "é", "aa"].iter().map(|s| s.to_string()).collect();
    let sorted = sort_texts(&list);
    let distinct = sort_distinct(&list);
    list.sort();
    assert_eq!(sorted, list);
    list.dedup();
    assert_eq!(distinct, list);
}
