use pve_rs::text::{parse_usize, split_keys, trim_str};

#[test]
fn splits_key_lists() {
    assert_eq!(split_keys("a, b;c  d"), vec!["a", "b", "c", "d"]);
    assert_eq!(split_keys(""), Vec::<String>::new());
    assert_eq!(split_keys(" \t,;"), Vec::<String>::new());
    assert_eq!(split_keys("\tx\n"), vec!["x"]);
}

#[test]
fn parses_decimal_numbers_like_from_str() {
    assert_eq!(parse_usize("0"), Some(0));
    assert_eq!(parse_usize("+7"), Some(7));
    assert_eq!(parse_usize("+"), None);
    assert_eq!(parse_usize(" 7"), None);
    assert_eq!(parse_usize("18446744073709551615"), Some(usize::MAX));
    assert_eq!(parse_usize("18446744073709551616"), None);
    assert_eq!(parse_usize("1x"), None);
}

#[test]
fn trims_ascii_white_space_of_strings() {
    assert_eq!(trim_str("  a b \r\n"), "a b");
    assert_eq!(trim_str(" \u{A0}x"), "\u{A0}x");
}
