use twitch_adapter::text;

#[test]
fn white_space_is_that_of_unicode() {
    for n in 0..=0x10ffff_u32 {
        if let Some(c) = char::from_u32(n) {
            assert_eq!(text::is_white_space(c), c.is_whitespace(), "U+{:04X}", n);
        }
    }
}

#[test]
fn strings_survive_the_way_through_characters() {
    for s in ["", "a", "żółw 🐢", "a\r\nb"] {
        assert_eq!(text::chars_of(s), s.chars().collect::<Vec<char>>());
        assert_eq!(text::string_of(&text::chars_of(s)), s);
    }
}

#[test]
fn trims_both_ends() {
    for s in ["", " ", "a", "  a b \r\n", "\u{3000}x\u{2009}", "\u{200b}x "] {
        assert_eq!(text::trim(s), s.trim());
        assert_eq!(text::trim(text::trim(s)), text::trim(s));
    }
}

#[test]
fn finds_the_first_occurrence() {
    assert_eq!(text::find("abcabc", "ca"), Some(2));
    assert_eq!(text::find("abcabc", "x"), None);
    assert_eq!(text::find("abc", ""), Some(0));
    assert_eq!(text::find("ab", "abc"), None);
    assert_eq!(text::find("żółw", "łw"), Some(2));
    assert_eq!(text::find_char("żółw", 'w'), Some(3));
    assert_eq!(text::find_char("żółw", 'x'), None);
    assert!(text::contains("żółw", "ół"));
    assert!(text::starts_with("żółw", "żó"));
    assert!(!text::starts_with("ż", "żó"));
}

#[test]
fn strips_from_the_front() {
    assert_eq!(text::strip_leading("@@a@", '@'), "a@");
    assert_eq!(text::strip_leading("@@", '@'), "");
    assert_eq!(text::strip_prefix("oauth:oauth:x", "oauth:"), "oauth:x");
    assert_eq!(text::strip_prefix("x", "oauth:"), "x");
}

#[test]
fn splits_like_str() {
    for s in ["", ";", "a;b", ";a;;b;", "abc", "ż;ó"] {
        assert_eq!(text::split(s, ';'), s.split(';').collect::<Vec<&str>>());
    }
    for s in ["", " ", "a", " a  b\tc\n", "\u{a0}x\u{a0}y"] {
        assert_eq!(text::words(s), s.split_whitespace().collect::<Vec<&str>>());
    }
    for s in ["", "\n", "a", "a\n", "a\r\nb", "a\n\nb\r", "\r\n\r\n", "a\rb\n", "a\r\r\n"] {
        assert_eq!(text::lines(s), s.lines().collect::<Vec<&str>>());
    }
    assert_eq!(text::cut_first_word("bob  was rude"), ("bob", " was rude"));
    assert_eq!(text::cut_first_word("bob"), ("bob", ""));
    assert_eq!(text::cut_first_word(" bob"), ("", "bob"));
}

#[test]
fn joins_with_a_separator() {
    let parts = vec!["a", "b", "c"];
    assert_eq!(text::join_from(&parts, 0, " "), "a b c");
    assert_eq!(text::join_from(&parts, 2, " "), "c");
    assert_eq!(text::join_from(&parts, 3, " "), "");
    assert_eq!(text::words(&text::join_from(&parts, 0, " ")), parts);
}

#[test]
fn reads_integers_like_str() {
    for s in [
        "", "+", "-", "0", "-0", "+7", "007", "300", "-15", "12a", " 1", "1 ", "--1", "٣",
        "9223372036854775807", "9223372036854775808", "-9223372036854775808",
        "-9223372036854775809", "99999999999999999999999999", "00000000000000000000000000001",
    ] {
        assert_eq!(text::parse_i64(s), s.parse::<i64>().ok(), "{:?}", s);
    }
}

#[test]
fn writes_integers_in_decimal() {
    for n in [0, 7, 10, 99, 3000, 65535, u64::MAX] {
        assert_eq!(text::decimal_text(n), n.to_string());
    }
    assert_eq!(text::parse_i64(&text::decimal_text(3000)), Some(3000));
    for n in [i64::MIN, -15, 0, 7, i64::MAX] {
        assert_eq!(text::parse_i64(&n.to_string()), Some(n));
    }
}

#[test]
fn compares_without_regard_to_ascii_case() {
    assert!(text::same_ignoring_case("YeS", "yes"));
    assert!(!text::same_ignoring_case("ye", "yes"));
    assert!(!text::same_ignoring_case("É", "é"));
    assert!(!text::same_ignoring_case("@", "`"));
    assert!(text::same("żółw", "żółw"));
    assert!(!text::same("żółw", "zółw"));
}

#[test]
fn sees_beginnings_in_any_case() {
    assert!(text::starts_with_ignoring_case("!BaN é", "!ban"));
    assert!(text::starts_with_ignoring_case("!ban", "!BAN"));
    assert!(text::starts_with_ignoring_case("x", ""));
    assert!(!text::starts_with_ignoring_case("!ba", "!ban"));
    assert!(!text::starts_with_ignoring_case("É", "é"));
}

#[test]
fn puts_all_on_one_line() {
    assert_eq!(text::one_line("a\r\nb\nc"), "a  b c");
}

#[test]
fn white_ends_hold_no_words() {
    assert_eq!(text::words(" \t a  b\n "), text::words("a  b"));
    assert_eq!(text::words(text::trim("  a b ")), text::words("  a b "));
}
