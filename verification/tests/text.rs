use xcp_orchestrator::text;

#[test]
fn white_space_is_what_unicode_says() {
    for code in 0..=0x10ffffu32 {
        if let Some(c) = char::from_u32(code) {
            assert_eq!(text::white_space(c), c.is_whitespace(), "U+{:04X}", code);
            assert_eq!(text::digit(c), c.is_ascii_digit());
            assert_eq!(text::hex_digit(c), c.is_ascii_hexdigit());
        }
    }
}

fn samples() -> Vec<&'static str> {
    vec![
        "",
        " ",
        "a",
        "\n",
        "a\nb",
        "a\r\nb\r\n",
        "a\n\nb\n",
        "\r",
        "a\r",
        "  two  words\t",
        "\u{3000}wide\u{2003}",
        "k=v=w",
        "=",
        "v1.2.3",
        "...",
        "-ce-ce1",
        "h\u{e9}llo w\u{f6}rld",
        "\u{1f916} robot",
    ]
}

#[test]
fn text_helpers_agree_with_std() {
    for s in samples() {
        assert_eq!(text::lines(s), s.lines().map(String::from).collect::<Vec<_>>(), "{:?}", s);
        assert_eq!(text::trim(s), s.trim());
        assert_eq!(text::trim_end(s), s.trim_end());
        assert_eq!(
            text::words(s),
            s.split_whitespace().map(String::from).collect::<Vec<_>>(),
            "{:?}",
            s
        );
        assert_eq!(text::split(s, '.'), s.split('.').map(String::from).collect::<Vec<_>>());
        assert_eq!(
            text::split_once(s, '='),
            s.split_once('=').map(|(a, b)| (a.to_string(), b.to_string()))
        );
        assert_eq!(
            text::drop_white_space(s),
            s.chars().filter(|c| !c.is_whitespace()).collect::<String>()
        );
        for p in ["", "a", "-ce", "v1", "\n", "w"] {
            assert_eq!(text::starts_with(s, p), s.starts_with(p));
            assert_eq!(text::ends_with(s, p), s.ends_with(p));
            assert_eq!(text::contains(s, p), s.contains(p), "{:?} {:?}", s, p);
            assert_eq!(text::strip_prefix(s, p), s.strip_prefix(p).map(String::from));
            assert_eq!(text::strip_suffix(s, p), s.strip_suffix(p).map(String::from));
            assert_eq!(text::same(s, p), s == p);
            if !p.is_empty() {
                assert_eq!(
                    text::split_at_last(s, p),
                    s.rfind(p).map(|i| (s[..i].to_string(), s[i + p.len()..].to_string()))
                );
                assert_eq!(text::trim_end_matches(s, p), s.trim_end_matches(p));
            }
        }
    }
}

#[test]
fn numbers_agree_with_std() {
    for s in [
        "", "0", "7", "+7", "-7", "007", "42", "4294967295", "4294967296", "18446744073709551615",
        "18446744073709551616", "1e3", " 1", "1 ", "+", "\u{0661}",
    ] {
        assert_eq!(text::parse_u32(s), s.parse::<u32>().ok(), "{:?}", s);
        assert_eq!(text::parse_u64(s), s.parse::<u64>().ok(), "{:?}", s);
    }
    for n in [0u64, 1, 9, 10, 99, 100, 1234567890, u64::MAX] {
        assert_eq!(text::decimal_of(n), n.to_string());
    }
    for n in [0i32, -1, 128, i32::MAX, i32::MIN] {
        assert_eq!(text::signed_decimal_of(n), n.to_string());
    }
}

#[test]
fn joining_and_cutting() {
    let parts = vec!["a".to_string(), "".to_string(), "b".to_string()];
    assert_eq!(text::join(&parts, ", "), "a, , b");
    assert_eq!(text::join(&Vec::new(), ", "), "");
    assert_eq!(text::head("abcdef", 3), "abc");
    assert_eq!(text::head("ab", 3), "ab");
    assert!(!text::has_head("a\u{e9}", 2));
    assert_eq!(text::trim_end_matches("xyxyy", "y"), "xyx");
    assert_eq!(text::trim_end_matches("xabab", "ab"), "x");
}
