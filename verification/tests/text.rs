use leadgen::text::{parse_list, parse_usize_text, radix_string, split_trimmed, truncate};

#[test]
fn lists_are_parsed() {
    assert_eq!(parse_list(" a, ,b ,"), vec!["a", "b"]);
    assert!(parse_list("").is_empty());
    assert_eq!(split_trimmed(" a, ,b"), vec!["a", "", "b"]);
}

#[test]
fn numbers_are_read_like_std() {
    for t in ["0", "42", "+7", "-1", "", "+", "1 ", "18446744073709551615", "18446744073709551616"] {
        assert_eq!(parse_usize_text(t), t.parse::<usize>().ok(), "{:?}", t);
    }
    assert_eq!(radix_string(0, 10), "0");
    assert_eq!(radix_string(3054, 16), "bee");
}

#[test]
fn descriptions_are_truncated_with_ellipsis() {
    assert_eq!(truncate("abcdef", 3), "abc…");
    assert_eq!(truncate("abc", 3), "abc");
    assert_eq!(truncate("ééé", 2), "éé…");
}
