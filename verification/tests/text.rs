use padplay::numeral::{parse_i32, parse_u32, parse_unsigned, push_decimal, push_hex, push_signed_decimal};
use padplay::text::{
    chars_of, contains, copy_text, eq_ignore_ascii_case, first_word_of, join, lines_of, same_text,
    strip_prefix, text_between, trim, trim_trailing,
};

#[test]
fn characters_come_apart_and_together() {
    let chars = chars_of("aß界");
    assert_eq!(chars, vec!['a', 'ß', '界']);
    assert_eq!(text_between(&chars, 1, 3), "ß界");
    assert_eq!(copy_text("aß界"), "aß界");
}

#[test]
fn texts_are_compared() {
    assert!(same_text("ab", "ab"));
    assert!(!same_text("ab", "ac"));
    assert!(!same_text("ab", "abc"));
    assert!(eq_ignore_ascii_case("HyprLand", "hyprland"));
    assert!(!eq_ignore_ascii_case("ß", "SS"));
    assert!(!eq_ignore_ascii_case("[", "{"));
}

#[test]
fn trimming_agrees_with_the_standard_library() {
    for s in ["", " ", "a", " a ", "\t\n a b \u{a0}\u{3000}", "\u{85}x\u{2028}", "\u{200b}x", "\u{1680}y\u{205f}"] {
        assert_eq!(trim(s), s.trim(), "{:?}", s);
    }
    assert_eq!(trim_trailing("60.000000", '0'), "60.");
    assert_eq!(trim_trailing("000", '0'), "");
}

#[test]
fn first_words_agree_with_the_standard_library() {
    for s in ["", "  ", "a", " a b", "DP-1 \"x\"", "\u{a0}x\u{3000}y"] {
        assert_eq!(
            first_word_of(s),
            s.split_whitespace().next().map(|w| w.to_string()),
            "{:?}",
            s
        );
    }
}

#[test]
fn lines_agree_with_the_standard_library() {
    for s in ["", "\n", "a", "a\n", "a\r\nb", "a\n\nb\r", "\r\n", "a\rb\nc\r\r\n"] {
        let want: Vec<String> = s.lines().map(|l| l.to_string()).collect();
        assert_eq!(lines_of(s), want, "{:?}", s);
    }
}

#[test]
fn prefixes_and_parts_are_found() {
    assert_eq!(strip_prefix("0x1f", "0x"), Some("1f".to_string()));
    assert_eq!(strip_prefix("0", "0x"), None);
    assert!(contains("a PipeWire b", "PipeWire"));
    assert!(contains("abc", ""));
    assert!(!contains("PipeWir", "PipeWire"));
}

#[test]
fn texts_are_joined() {
    let list = |v: &[&str]| v.iter().map(|s| s.to_string()).collect::<Vec<_>>();
    assert_eq!(join(&list(&[]), " "), "");
    assert_eq!(join(&list(&["a"]), " "), "a");
    assert_eq!(join(&list(&["a", "b", ""]), ", "), "a, b, ");
}

#[test]
fn numbers_are_written() {
    let mut s = String::new();
    push_decimal(&mut s, 0);
    s.push(' ');
    push_decimal(&mut s, u64::MAX);
    s.push(' ');
    push_signed_decimal(&mut s, i64::MIN);
    s.push(' ');
    push_signed_decimal(&mut s, 7);
    s.push(' ');
    push_hex(&mut s, 0x0200_0000_0000_0901, 16);
    assert_eq!(
        s,
        "0 18446744073709551615 -9223372036854775808 7 0200000000000901"
    );
}

#[test]
fn numbers_are_read_as_the_standard_library_reads_them() {
    for s in [
        "", "0", "+", "-", "-0", "+7", "007", "4294967295", "4294967296", " 1", "1 ", "a", "1_0",
        "-1", "2147483647", "2147483648", "-2147483648", "-2147483649", "++1", "+-1", "１",
    ] {
        assert_eq!(parse_u32(s), s.parse::<u32>().ok(), "{:?}", s);
        assert_eq!(parse_i32(s), s.parse::<i32>().ok(), "{:?}", s);
    }
    for s in ["ff", "FF", "+ff", "g", "", "-1", "10000000000000000", "ffffffffffffffff"] {
        assert_eq!(
            parse_unsigned(s, 16, u64::MAX),
            u64::from_str_radix(s, 16).ok(),
            "{:?}",
            s
        );
    }
}

#[test]
fn written_numbers_read_back() {
    for n in [0u64, 1, 9, 10, 12_345, u64::MAX] {
        let mut s = String::new();
        push_decimal(&mut s, n);
        assert_eq!(parse_unsigned(&s, 10, u64::MAX), Some(n));
        let mut s = String::new();
        push_hex(&mut s, n, 16);
        assert_eq!(parse_unsigned(&s, 16, u64::MAX), Some(n));
    }
}
