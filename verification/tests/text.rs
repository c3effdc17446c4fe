use chat_infra::text::{
    decimal, parse_decimal, remove_all, segment, str_eq, str_less, to_chars,
};

#[test]
fn to_chars_lists_the_characters() {
    assert_eq!(to_chars("héllo"), vec!['h', 'é', 'l', 'l', 'o']);
    assert_eq!(to_chars(""), Vec::<char>::new());
}

#[test]
fn segment_cuts_at_every_separator() {
    assert_eq!(segment("a.b.c", '.', 0), Some("a".to_string()));
    assert_eq!(segment("a.b.c", '.', 1), Some("b".to_string()));
    assert_eq!(segment("a.b.c", '.', 2), Some("c".to_string()));
    assert_eq!(segment("a.b.c", '.', 3), None);
}

#[test]
fn segment_of_text_without_separator() {
    assert_eq!(segment("abc", '.', 0), Some("abc".to_string()));
    assert_eq!(segment("abc", '.', 1), None);
    assert_eq!(segment("", '.', 0), Some(String::new()));
}

#[test]
fn segment_keeps_empty_pieces() {
    assert_eq!(segment("a..b", '.', 1), Some(String::new()));
    assert_eq!(segment("a.", '.', 1), Some(String::new()));
    assert_eq!(segment(".a", '.', 0), Some(String::new()));
}

#[test]
fn remove_all_agrees_with_replace() {
    let cases = [
        ("users#b1|a1", "users#"),
        ("users#users#x", "users#"),
        ("ususers#ers#", "users#"),
        ("aaa", "aa"),
        ("abc", ""),
        ("", "x"),
        ("user", "users#"),
        ("chat@user#b1", "chat@user#"),
    ];
    for (text, pat) in cases {
        assert_eq!(remove_all(text, pat), text.replace(pat, ""));
    }
}

#[test]
fn str_less_agrees_with_the_order_of_str() {
    let texts = ["", "a", "ab", "b", "Z", "é", "z", "a1", "b1", "日本"];
    for a in texts {
        for b in texts {
            assert_eq!(str_less(a, b), a < b);
        }
    }
}

#[test]
fn str_eq_compares_texts() {
    assert!(str_eq("a1", "a1"));
    assert!(!str_eq("a1", "a2"));
    assert!(!str_eq("a", ""));
}

#[test]
fn decimal_writes_numbers() {
    assert_eq!(decimal(0), "0");
    assert_eq!(decimal(1), "1");
    assert_eq!(decimal(10), "10");
    assert_eq!(decimal(907), "907");
    assert_eq!(decimal(u64::MAX), "18446744073709551615");
}

#[test]
fn parse_decimal_reads_numbers() {
    assert_eq!(parse_decimal("0"), Some(0));
    assert_eq!(parse_decimal("007"), Some(7));
    assert_eq!(parse_decimal("18446744073709551615"), Some(u64::MAX));
}

#[test]
fn parse_decimal_refuses_what_is_no_number() {
    assert_eq!(parse_decimal(""), None);
    assert_eq!(parse_decimal("12a"), None);
    assert_eq!(parse_decimal("-1"), None);
    assert_eq!(parse_decimal("1.5"), None);
    assert_eq!(parse_decimal("18446744073709551616"), None);
    assert_eq!(parse_decimal("99999999999999999999999"), None);
}

#[test]
fn parse_decimal_inverts_decimal() {
    for n in [0u64, 1, 9, 10, 99, 100, 12345, u64::MAX] {
        assert_eq!(parse_decimal(&decimal(n)), Some(n));
    }
}

#[test]
fn starts_with_agrees_with_str() {
    let cases = [("message#1", "message#"), ("message", "message#"), ("abc", ""), ("", ""), ("", "a"), ("ébc", "é")];
    for (text, prefix) in cases {
        assert_eq!(chat_infra::text::starts_with(text, prefix), text.starts_with(prefix));
    }
}
