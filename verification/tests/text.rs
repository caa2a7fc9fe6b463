use pitwall::list;
use pitwall::text;

#[test]
fn numbers_are_written_in_decimal() {
    assert_eq!(text::number(0), "0");
    assert_eq!(text::number(1090), "1090");
    assert_eq!(text::number(u64::MAX), u64::MAX.to_string());
    assert_eq!(text::signed_number(-1), "-1");
    assert_eq!(text::signed_number(i64::MIN), i64::MIN.to_string());
    assert_eq!(text::signed_number(42), "42");
}

#[test]
fn numbers_are_read_in_decimal() {
    for given in ["0", "+7", "007", "18446744073709551615", "18446744073709551616", "", "+", "-1", "1a", " 1", "٣"] {
        assert_eq!(text::parse_number(given), given.parse::<u64>().ok(), "{given}");
    }
}

#[test]
fn texts_split_as_the_standard_library_splits() {
    for given in ["", "a", "a/b", "a/b/c", "/", "//x", "é/ü"] {
        let owned = |p: (&str, &str)| (p.0.to_owned(), p.1.to_owned());
        assert_eq!(text::split_once(given, '/'), given.split_once('/').map(owned));
        assert_eq!(text::rsplit_once(given, '/'), given.rsplit_once('/').map(owned));
        let pieces: Vec<String> = given.split('/').map(str::to_owned).collect();
        assert_eq!(list::split(given, '/'), pieces);
    }
    for given in ["", "\n", "a\nb", "a\r\nb\r\n", "a\rb\n\n", "x\r"] {
        let lines: Vec<String> = given.lines().map(str::to_owned).collect();
        assert_eq!(text::lines(given), lines);
    }
    for given in ["", "  x ", "\u{a0}\u{3000}x", "\u{200b}x", "\u{85}\u{1680}y"] {
        assert_eq!(text::trim_start(given), given.trim_start());
    }
    assert!(text::contains("abc", ""));
    assert!(text::contains("abc", "bc"));
    assert!(!text::contains("abc", "ac"));
    assert!(text::starts_with("abc", "ab"));
    assert!(!text::starts_with("abc", "bc"));
}

#[test]
fn names_sort_as_the_standard_library_sorts() {
    let mut names: Vec<String> =
        ["b", "", "a/b", "a", "B", "é", "z", "a/b", "\u{10000}", "\u{ffff}"].iter().map(|n| (*n).to_owned()).collect();
    let sorted = list::sorted(&names);
    names.sort();
    assert_eq!(sorted, names);
    assert!(list::not_after("a", "a"));
    assert!(list::not_after("a", "ab"));
    assert!(!list::not_after("b", "ab"));
    assert_eq!(list::join(&sorted, ","), names.join(","));
    assert_eq!(list::join(&vec![], ","), "");
}

#[test]
fn white_space_is_what_unicode_says() {
    for code in 0..0x11_0000u32 {
        if let Some(c) = char::from_u32(code) {
            let listed = matches!(code, 0x9..=0xD | 0x20 | 0x85 | 0xA0 | 0x1680 | 0x2000..=0x200A
                | 0x2028 | 0x2029 | 0x202F | 0x205F | 0x3000);
            assert_eq!(c.is_whitespace(), listed, "{code:x}");
        }
    }
}
