use vvd_screen::text::{
    chars_of, contains, decimal_text, ends_with, find, is_whitespace, last_index_before, lines,
    matches_at, parse_u16, parse_u32, same, split_once, starts_with, strip, words, Padding,
};

#[test]
fn whitespace_is_that_of_std() {
    for n in 0u32..0x11_0000 {
        if let Some(c) = char::from_u32(n) {
            assert_eq!(is_whitespace(c), c.is_whitespace(), "{:x}", n);
        }
    }
}

#[test]
fn lines_are_those_of_std() {
    for s in [
        "", "\n", "\r\n", "\r", "a", "a\n", "a\r\n", "a\r", "a\nb", "a\r\nb\r", "a\r\r\nb", "\n\na",
        "é=1\nü\r\n\u{2028}x",
    ] {
        let expected: Vec<String> = s.lines().map(String::from).collect();
        assert_eq!(lines(s), expected, "{:?}", s);
    }
}

#[test]
fn words_are_those_of_std() {
    for s in ["", "  ", "a", " a", "a ", "a b", "\ta\u{a0}b \n c\u{3000}", "é\u{85}ü"] {
        let expected: Vec<String> = s.split_whitespace().map(String::from).collect();
        assert_eq!(words(s), expected, "{:?}", s);
    }
    assert_eq!(words("/a/emulator -avd  tv -qemu"), vec!["/a/emulator", "-avd", "tv", "-qemu"]);
}

#[test]
fn padding_is_stripped() {
    assert_eq!(strip("  a b \t", Padding::Blank), "a b");
    assert_eq!(strip(" \r\n", Padding::Blank), "");
    assert_eq!(strip("\"\"a\"b\"", Padding::Quote), "a\"b");
    assert_eq!(strip("\"", Padding::Quote), "");
    assert_eq!(strip(" \"", Padding::Quote), " ");
}

#[test]
fn first_separator_splits() {
    assert_eq!(split_once("a=b=c", '='), Some(("a", "b=c")));
    assert_eq!(split_once("=", '='), Some(("", "")));
    assert_eq!(split_once("ü=é", '='), Some(("ü", "é")));
    assert_eq!(split_once("abc", '='), None);
}

#[test]
fn texts_are_searched() {
    assert_eq!(find("a/qemu/b/qemu/", "/qemu/"), Some(1));
    assert_eq!(find("abc", ""), Some(0));
    assert_eq!(find("", ""), Some(0));
    assert_eq!(find("ab", "abc"), None);
    assert_eq!(find("aab", "ab"), Some(1));
    assert!(contains("xyz", "yz"));
    assert!(!contains("xyz", "zy"));
    assert!(starts_with("pid_1.ini", "pid_"));
    assert!(!starts_with("pi", "pid_"));
    assert!(ends_with("pid_1.ini", ".ini"));
    assert!(!ends_with("ini", ".ini"));
    assert!(same("-qemu", "-qemu"));
    assert!(!same("-qemu", "-qemu2"));
    assert!(!same("-qemu", "-QEMU"));
}

#[test]
fn characters_are_searched() {
    let chars = chars_of("é/b/");
    assert_eq!(chars, vec!['é', '/', 'b', '/']);
    assert_eq!(last_index_before(&chars, 4, '/'), Some(3));
    assert_eq!(last_index_before(&chars, 3, '/'), Some(1));
    assert_eq!(last_index_before(&chars, 1, '/'), None);
    assert_eq!(last_index_before(&chars, 0, 'é'), None);
    let b = chars_of("/b");
    assert!(matches_at(&chars, &b, 1));
    assert!(!matches_at(&chars, &b, 3));
    assert!(matches_at(&chars, &chars_of(""), 4));
}

#[test]
fn numbers_are_read_as_by_std() {
    for s in [
        "", "+", "-", "0", "00", "+0", "-0", "1", "8554", "+8554", " 8554", "8554 ", "65535", "65536",
        "0065535", "4294967295", "4294967296", "99999999999999999999999999", "1a", "++1", "１",
    ] {
        assert_eq!(parse_u16(s), s.parse::<u16>().ok(), "{:?}", s);
        assert_eq!(parse_u32(s), s.parse::<u32>().ok(), "{:?}", s);
    }
}

#[test]
fn numbers_are_written_and_read_back() {
    for n in [0u64, 1, 9, 10, 99, 100, 8554, 65535, 4294967295, u64::MAX] {
        assert_eq!(decimal_text(n), n.to_string());
    }
    for n in [0u32, 7, 10, 65535, u32::MAX] {
        assert_eq!(parse_u32(decimal_text(n as u64).as_str()), Some(n));
    }
}
