//! Texts and numbers.
use webshooter::server::base64;
use webshooter::text::{self, CharClass};

#[test]
fn decimals_read_back() {
    for n in [0u64, 7, 10, 99, 100, 65535, u64::MAX] {
        let s = text::decimal_string(n);
        assert_eq!(s, n.to_string());
        assert_eq!(text::parse_unsigned(&s, u64::MAX), Some(n));
    }
    for n in [0i32, -1, 42, i32::MIN, i32::MAX] {
        let mut s = String::from("n=");
        text::push_signed(&mut s, n);
        assert_eq!(s, format!("n={n}"));
    }
}

#[test]
fn numbers_are_parsed_as_usual() {
    for s in ["", "+", "-", "+1", "-1", "007", "1x", " 1", "4294967295", "4294967296", "\u{663}"] {
        assert_eq!(
            text::parse_unsigned(s, u32::MAX as u64),
            s.parse::<u32>().ok().map(|n| n as u64),
            "{s:?}"
        );
    }
    assert_eq!(text::parse_unsigned("18446744073709551615", u64::MAX), Some(u64::MAX));
    assert_eq!(text::parse_unsigned("18446744073709551616", u64::MAX), None);
}

#[test]
fn texts_are_cut_as_usual() {
    assert_eq!(text::split_once("a=b=c", '='), Some(("a", "b=c")));
    assert_eq!(text::split_once("abc", '='), None);
    assert_eq!(text::split("a;;b", ';'), vec!["a", "", "b"]);
    assert_eq!(text::split("", ';'), vec![""]);
    for s in ["", "a", "a\nb", "a\r\nb\n", "\n", "\n\n", "a\rb\r\n\r\n", "x\n\ny"] {
        assert_eq!(text::lines(s), s.lines().map(String::from).collect::<Vec<_>>(), "{s:?}");
    }
    assert_eq!(text::first_word("  one two"), Some("one"));
    assert_eq!(text::first_word(" \t "), None);
    assert_eq!(text::strip_prefix("path=/x", "path="), Some("/x"));
    assert_eq!(text::strip_prefix("pat", "path="), None);
    assert_eq!(text::strip_suffix("a.png", ".png"), Some("a"));
    assert_eq!(text::strip_suffix("png", ".png"), None);
    assert_eq!(text::join(&vec!["a".to_string(), "b".to_string()], ", "), "a, b");
    assert_eq!(text::join(&vec![], ", "), "");
}

#[test]
fn white_space_is_that_of_unicode() {
    let s = "\u{2003}\u{a0}\u{3000}x y\u{200b}\u{85}\n";
    assert_eq!(text::trim(s, CharClass::Whitespace), s.trim());
    assert_eq!(text::trim(s, CharClass::Whitespace), "x y\u{200b}");
    for c in '\0'..=char::MAX {
        assert_eq!(text::char_is_whitespace(c), c.is_whitespace(), "{c:?}");
    }
    assert_eq!(text::trim("==a=b==", CharClass::Is('=')), "a=b");
    assert_eq!(text::trim("==", CharClass::Is('=')), "");
}

#[test]
fn texts_are_searched_as_usual() {
    assert!(text::contains("hard recovery", "d re"));
    assert!(!text::contains("abc", "abcd"));
    assert!(text::contains("abc", ""));
    assert!(text::starts_with("config.json", "config"));
    assert!(text::ends_with("config.json", ".json"));
    assert_eq!(text::to_ascii_lowercase("KDE Ärger"), "kde Ärger");
    assert!(text::str_eq("a", "a") && !text::str_eq("a", "b") && !text::str_eq("a", "ab"));
}

#[test]
fn long_rows_of_bytes_are_written_and_read() {
    let bytes: Vec<u8> = (0..7_000_001u32).map(|i| (i * 7 % 251) as u8).collect();
    let text = base64::encode(&bytes);
    assert_eq!(text, data_encoding::BASE64.encode(&bytes));
    assert_eq!(base64::decode(&text), Some(bytes));
    let mut text = "AAAA".repeat(0x100_0001);
    assert_eq!(base64::decode(&text), Some(vec![0; 3 * 0x100_0001]));
    text.push('A');
    assert_eq!(base64::decode(&text), None);
    for text in ["", "TQ==", "TWE=", "TWFu", "SGVsbA==byB3b3JsZA==", "TR==", "TQ=", "T\u{e9}==", "=AAA"] {
        assert_eq!(base64::decode(text), data_encoding::BASE64.decode(text.as_bytes()).ok(), "{text}");
    }
}
