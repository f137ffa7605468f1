//! Text primitives.

use dxfeed::text::{
    contains_text, find_char, find_text, is_space, parse_i8, parse_unsigned, push_decimal,
    rfind_char, same_ignoring_case, split_char, split_words, str_eq, to_lower, to_upper, trim,
};

fn chars(s: &str) -> Vec<char> {
    s.chars().collect()
}

fn strings(pieces: Vec<&[char]>) -> Vec<String> {
    pieces.into_iter().map(|p| p.iter().collect()).collect()
}

#[test]
fn white_space_is_that_of_unicode() {
    for code in 0..=0x10FFFFu32 {
        if let Some(c) = char::from_u32(code) {
            assert_eq!(is_space(c), c.is_whitespace(), "U+{code:04X}");
        }
    }
}

#[test]
fn case_changes_ascii_letters_only() {
    for code in 0..0x250u32 {
        if let Some(c) = char::from_u32(code) {
            assert_eq!(to_upper(c), c.to_ascii_uppercase());
            assert_eq!(to_lower(c), c.to_ascii_lowercase());
        }
    }
    assert!(same_ignoring_case(&chars("dx DE "), &chars("DX de ")));
    assert!(!same_ignoring_case(&chars("dx"), &chars("dx ")));
}

#[test]
fn searching() {
    let hay = chars("abcabc");
    assert_eq!(find_char(&hay, 'c'), 2);
    assert_eq!(find_char(&hay, 'x'), 6);
    assert_eq!(rfind_char(&hay, 'c'), Some(5));
    assert_eq!(rfind_char(&hay, 'x'), None);
    assert_eq!(find_text(&hay, &chars("ca")), Some(2));
    assert_eq!(find_text(&hay, &chars("")), Some(0));
    assert_eq!(find_text(&hay, &chars("abcabcabc")), None);
    assert!(!contains_text(&hay, &chars("cb")));
    assert!(str_eq("\u{e9}", "\u{e9}"));
    assert!(!str_eq("e", "\u{e9}"));
}

#[test]
fn trimming_and_splitting() {
    let padded = chars(" \t a b\u{3000}\n");
    assert_eq!(trim(&padded).iter().collect::<String>(), "a b");
    assert_eq!(strings(split_words(&chars("  a  bc d "))), vec!["a", "bc", "d"]);
    assert_eq!(strings(split_words(&chars("   "))), Vec::<String>::new());
    assert_eq!(strings(split_char(&chars("a,,b,"), ',')), vec!["a", "", "b", ""]);
    assert_eq!(strings(split_char(&chars(""), ',')), vec![""]);
}

#[test]
fn numbers_are_read_like_those_of_the_language() {
    for s in [
        "", "+", "-", "0", "+0", "-0", "7", "+7", "-7", "007", "255", "256", "65535", "65536",
        "127", "128", "-128", "-129", "1 ", " 1", "1a", "++1", "18446744073709551615",
        "18446744073709551616",
    ] {
        let c = chars(s);
        assert_eq!(parse_unsigned(&c, u64::MAX), s.parse::<u64>().ok(), "{s}");
        assert_eq!(parse_unsigned(&c, 65535), s.parse::<u16>().ok().map(u64::from), "{s}");
        assert_eq!(parse_i8(&c), s.parse::<i8>().ok(), "{s}");
    }
}

#[test]
fn decimals_read_back() {
    for n in [0u64, 9, 10, 99, 100, 12_345, u64::MAX] {
        let mut s = String::from("n=");
        push_decimal(&mut s, n);
        assert_eq!(s, format!("n={n}"));
    }
}
