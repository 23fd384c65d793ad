use bevygap::text::{
    chars_of, contains_text, find_last, format_decimal, format_padded, parse_unsigned, same_text,
    text_between, text_of,
};

fn chars(text: &str) -> Vec<char> {
    text.chars().collect()
}

fn parse(text: &str, max: u64) -> Option<u64> {
    parse_unsigned(&chars(text), 0, max)
}

#[test]
fn text_and_characters_convert_both_ways() {
    assert_eq!(chars_of("añ→b"), vec!['a', 'ñ', '→', 'b']);
    assert_eq!(chars_of(""), Vec::<char>::new());
    assert_eq!(text_of(&chars("añ→b")), "añ→b");
    assert_eq!(text_between(&chars("añ→b"), 1, 3), "ñ→");
    assert_eq!(text_between(&chars("abc"), 2, 2), "");
    assert!(same_text("abc", "abc"));
    assert!(!same_text("abc", "abd"));
    assert!(!same_text("abc", "ab"));
}

#[test]
fn numerals_are_parsed_as_the_standard_library_does() {
    let cases = [
        "0", "7", "42", "0042", "+42", "65535", "65536", "99999999999999999999", "", "+", "-",
        "-1", "+-1", "++1", " 1", "1 ", "1_000", "12a", "a12", "٣", "1.0", "0x10",
    ];
    for text in cases {
        assert_eq!(parse(text, 65535), text.parse::<u16>().ok().map(u64::from), "{:?}", text);
        assert_eq!(parse(text, u64::MAX), text.parse::<u64>().ok(), "{:?}", text);
    }
    assert_eq!(parse("18446744073709551615", u64::MAX), Some(u64::MAX));
    assert_eq!(parse("18446744073709551616", u64::MAX), None);
    assert_eq!(parse("10", 9), None);
    assert_eq!(parse("9", 9), Some(9));
    assert_eq!(parse_unsigned(&chars("host:4222"), 5, 65535), Some(4222));
    assert_eq!(parse_unsigned(&chars("host:4222"), 4, 65535), None);
    assert_eq!(parse_unsigned(&chars("host:"), 5, 65535), None);
}

#[test]
fn numbers_are_written_in_decimal() {
    assert_eq!(format_decimal(0), "0");
    assert_eq!(format_decimal(9), "9");
    assert_eq!(format_decimal(10), "10");
    assert_eq!(format_decimal(4222), "4222");
    assert_eq!(format_decimal(u64::MAX), "18446744073709551615");
    for n in [0u128, 1, 9, 10, 99, 100, 101, 999, 1000, 12345, u128::MAX] {
        assert_eq!(format_padded(n, 3), format!("{:03}", n));
        assert_eq!(format_padded(n, 0), format!("{}", n));
        assert_eq!(format_padded(n, 1), format!("{:01}", n));
        assert_eq!(format_padded(n, 50), format!("{:050}", n));
    }
}

#[test]
fn written_numbers_are_read_back() {
    for n in [0u64, 1, 9, 10, 255, 4222, 65535, 1_000_000, u64::MAX] {
        assert_eq!(parse(&format_decimal(n), u64::MAX), Some(n));
        assert_eq!(parse(&format_padded(n as u128, 25), u64::MAX), Some(n));
    }
}

#[test]
fn substrings_are_found() {
    let cases = [
        ("", ""),
        ("abc", ""),
        ("", "a"),
        ("abc", "abc"),
        ("abc", "abcd"),
        ("abcabd", "abd"),
        ("aaab", "aab"),
        ("aaa", "b"),
        ("tls handshake", "handshake"),
        ("añb", "ñ"),
        ("añb", "nb"),
    ];
    for (hay, needle) in cases {
        assert_eq!(
            contains_text(&chars(hay), &chars(needle)),
            hay.contains(needle),
            "{:?} in {:?}",
            needle,
            hay
        );
    }
}

#[test]
fn last_occurrence_is_found() {
    assert_eq!(find_last(&chars("a:b:c"), ':'), Some(3));
    assert_eq!(find_last(&chars(":"), ':'), Some(0));
    assert_eq!(find_last(&chars("abc"), ':'), None);
    assert_eq!(find_last(&chars(""), ':'), None);
    assert_eq!(find_last(&chars("ñ:ñ"), ':'), Some(1));
}
