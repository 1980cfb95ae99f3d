use navipod::text;

#[test]
fn white_space_is_what_the_standard_library_calls_so() {
    for code in 0..=0x10_ffffu32 {
        if let Some(c) = char::from_u32(code) {
            assert_eq!(text::char_is_space(c), c.is_whitespace(), "{code:x}");
        }
    }
}

#[test]
fn trimming_agrees_with_the_standard_library() {
    for s in ["", "  ", "\t a b \n", "plain", "\u{a0}x\u{3000}", "\u{200b}x"] {
        assert_eq!(text::trim(s), s.trim());
        assert_eq!(text::trim_start(s), s.trim_start());
    }
    for s in ["", "...", "70.", "7.0", "7..", "."] {
        assert_eq!(text::trim_end_char(s, '.'), s.trim_end_matches('.'));
    }
}

#[test]
fn lines_agree_with_the_standard_library() {
    for s in ["", "\n", "a", "a\n", "a\nb", "a\r\nb\r\n", "\r", "a\r", "\n\nä\n", "a\r\r\n"] {
        assert_eq!(text::lines(s), s.lines().collect::<Vec<&str>>(), "{s:?}");
    }
}

#[test]
fn words_agree_with_the_standard_library() {
    for s in ["", "  ", "a", " a  b\tc ", "wlan0: 0000   54.  -56.", "\u{2003}x\u{2003}"] {
        assert_eq!(text::words(s), s.split_whitespace().collect::<Vec<&str>>(), "{s:?}");
    }
}

#[test]
fn splitting_at_the_first_and_the_last() {
    assert_eq!(text::split_first("a:b:c", ':'), Some(("a", "b:c")));
    assert_eq!(text::split_last("a:b:c", ':'), Some(("a:b", "c")));
    assert_eq!(text::split_first(":", ':'), Some(("", "")));
    assert_eq!(text::split_last("abc", ':'), None);
    assert_eq!(text::split_first("", ':'), None);
}

#[test]
fn prefixes_and_parts() {
    assert!(text::starts_with("wlan0", "wl"));
    assert!(!text::starts_with("w", "wl"));
    assert!(text::starts_with("", ""));
    assert!(text::contains("Powered: yes", "yes"));
    assert!(!text::contains("ye", "yes"));
    assert!(text::contains("x", ""));
    assert!(text::eq_ignore_ascii_case("DISCHARGING", "Discharging"));
    assert!(!text::eq_ignore_ascii_case("Ä", "ä"));
    assert!(text::same("ok", "ok"));
    assert!(!text::same("ok", "OK"));
    assert_eq!(text::chars_of("a✓"), vec!['a', '✓']);
}

#[test]
fn numbers_are_read_as_the_standard_library_does() {
    for s in [
        "", "0", "7", "+7", "-7", "007", "255", "256", "4294967295", "4294967296", "99999999999",
        " 7", "7 ", "+", "++7", "7a", "٣", "000000000000000000000000255",
    ] {
        assert_eq!(text::parse_up_to(s, u32::MAX), s.parse::<u32>().ok(), "{s:?}");
        assert_eq!(text::parse_up_to(s, 255), s.parse::<u8>().ok().map(u32::from), "{s:?}");
    }
}

#[test]
fn numbers_are_written_as_the_standard_library_does() {
    for n in [0u64, 7, 10, 99, 100, 4294967295, u64::MAX] {
        let mut out = String::from(">");
        text::push_decimal(&mut out, n);
        assert_eq!(out, format!(">{n}"));
    }
    for n in [0u64, 7, 10, 59, 99, 100] {
        let mut out = String::new();
        text::push_two_digits(&mut out, n);
        assert_eq!(out, format!("{n:02}"));
    }
    let mut out = String::new();
    text::push_hex(&mut out, 0x00ab_12cd, 8);
    assert_eq!(out, "00ab12cd");
}
