use libretro_core::text::{lines, split_whitespace, str_chars, string_from_chars, u32_to_decimal, u64_to_decimal};

fn chars(s: &str) -> Vec<char> {
    s.chars().collect()
}

fn strings(parts: Vec<Vec<char>>) -> Vec<String> {
    parts.into_iter().map(|p| p.into_iter().collect()).collect()
}

#[test]
fn words_are_split_at_unicode_white_space() {
    assert_eq!(strings(split_whitespace(&chars("  a\tbc \u{3000}d\n"))), vec!["a", "bc", "d"]);
    assert!(split_whitespace(&chars(" \t ")).is_empty());
}

#[test]
fn lines_split_like_str_lines() {
    for text in ["a\nb\r\nc", "a\n", "\n", "", "x\r", "a\n\nb"] {
        let expected: Vec<String> = text.lines().map(|l| l.to_string()).collect();
        assert_eq!(strings(lines(&chars(text))), expected, "{text:?}");
    }
}

#[test]
fn strings_and_numbers_convert() {
    assert_eq!(str_chars("héllo"), chars("héllo"));
    assert_eq!(string_from_chars(&chars("héllo")), "héllo");
    assert_eq!(u32_to_decimal(0), "0");
    assert_eq!(u32_to_decimal(4_294_967_295), "4294967295");
}

#[test]
fn u64_numbers_print_in_decimal() {
    assert_eq!(u64_to_decimal(0), "0");
    assert_eq!(u64_to_decimal(17), "17");
    assert_eq!(u64_to_decimal(u64::MAX), "18446744073709551615");
}
