use phosphorus::shared::color::{parse_hex_color, Color};
use phosphorus::shared::logging::{Log, LogKind, LogSource};
use phosphorus::shared::text::{chars_of, same_text, string_of};
use phosphorus::shared::utils::{digits_value, is_alpha, is_numeric};

#[test]
fn hex_reads_three_digits() {
    assert_eq!(parse_hex_color("#fff"), Ok(Color { r: 255, g: 255, b: 255, a: 255 }));
    assert_eq!(parse_hex_color("a0C"), Ok(Color { r: 0xaa, g: 0x00, b: 0xcc, a: 255 }));
}

#[test]
fn hex_reads_six_digits() {
    assert_eq!(Color::hex("#090a0b"), Ok(Color { r: 9, g: 10, b: 11, a: 255 }));
    assert_eq!(Color::hex("A600FF"), Ok(Color { r: 0xa6, g: 0, b: 0xff, a: 255 }));
    assert_eq!(Color::hex("#090a0b"), Ok(Color::rgb(9, 10, 11)));
}

#[test]
fn hex_rejects_other_lengths() {
    assert_eq!(parse_hex_color(""), Err("expected #rgb or #rrggbb"));
    assert_eq!(parse_hex_color("#"), Err("expected #rgb or #rrggbb"));
    assert_eq!(parse_hex_color("#ffff"), Err("expected #rgb or #rrggbb"));
    assert_eq!(parse_hex_color("##fff"), Err("expected #rgb or #rrggbb"));
}

#[test]
fn hex_rejects_other_characters() {
    assert_eq!(parse_hex_color("#ggg"), Err("invalid hex"));
    assert_eq!(parse_hex_color("#12345z"), Err("invalid hex"));
    assert_eq!(parse_hex_color("+ff"), Err("invalid hex"));
}

#[test]
fn hex_agrees_with_the_standard_library_on_pairs() {
    let samples = ["00", "ff", "+f", "f+", "-1", "a ", "1g", "G1", "+0", "++", "9A"];
    for a in samples {
        let text = format!("#{}{}{}", a, "10", "fe");
        let want = u8::from_str_radix(a, 16).ok();
        match (parse_hex_color(&text), want) {
            (Ok(c), Some(r)) => assert_eq!(c, Color { r, g: 0x10, b: 0xfe, a: 255 }),
            (Err(e), None) => assert_eq!(e, "invalid hex"),
            (got, want) => panic!("{}: {:?} against {:?}", text, got, want),
        }
    }
}

#[test]
fn rgb_is_opaque() {
    assert_eq!(Color::rgb(1, 2, 3), Color { r: 1, g: 2, b: 3, a: 255 });
}

#[test]
fn is_alpha_takes_letters_and_underscores() {
    assert!(is_alpha("abc"));
    assert!(is_alpha("a_B"));
    assert!(is_alpha("_"));
    assert!(!is_alpha(""));
    assert!(!is_alpha("a1"));
    assert!(!is_alpha("é"));
    assert!(!is_alpha("a b"));
}

#[test]
fn is_numeric_takes_numeric_characters() {
    assert!(is_numeric("0123456789"));
    assert!(is_numeric("٣"));
    assert!(is_numeric("½"));
    assert!(!is_numeric(""));
    assert!(!is_numeric("1a"));
    assert!(!is_numeric("-1"));
    assert!(!is_numeric("1.5"));
}

#[test]
fn is_numeric_agrees_with_the_standard_library() {
    for c in ['0', '9', 'a', ' ', '²', '٣', 'Ⅷ', '一', 'x'] {
        assert_eq!(is_numeric(&c.to_string()), c.is_numeric());
    }
}

#[test]
fn is_numeric_on_ascii_is_all_digits() {
    for code in 0u8..128 {
        let c = code as char;
        assert_eq!(is_numeric(&c.to_string()), c.is_ascii_digit(), "{:?}", c);
    }
    assert!(!is_numeric("log"));
    assert!(!is_numeric("1_000"));
}

#[test]
fn digits_value_reads_decimal_numbers() {
    assert_eq!(digits_value("0"), Some(0));
    assert_eq!(digits_value("007"), Some(7));
    assert_eq!(digits_value("2147483647"), Some(2147483647));
    assert_eq!(digits_value("2147483648"), None);
    assert_eq!(digits_value("99999999999999999999999999"), None);
    assert_eq!(digits_value(""), None);
    assert_eq!(digits_value("12a"), None);
    assert_eq!(digits_value("٣"), None);
    assert_eq!(digits_value("+1"), None);
}

#[test]
fn digits_value_agrees_with_the_standard_library() {
    for s in ["1", "42", "000", "2147483647", "2147483648", "4294967296", "x", "1x", ""] {
        assert_eq!(digits_value(s), s.parse::<i32>().ok().map(|v| v as u32), "{}", s);
    }
}

#[test]
fn text_helpers() {
    assert_eq!(chars_of("héllo"), vec!['h', 'é', 'l', 'l', 'o']);
    assert_eq!(string_of(&chars_of("héllo"), 1, 3), "él");
    assert_eq!(string_of(&chars_of("héllo"), 2, 2), "");
    assert!(same_text("abc", "abc"));
    assert!(!same_text("abc", "abd"));
    assert!(!same_text("abc", "ab"));
    assert!(same_text("", ""));
}

#[test]
fn log_lines() {
    let plain = Log { kind: LogKind::Log, source: LogSource::Unset, text: String::from("hi") };
    assert_eq!(plain.to_text(), "hi");
    let warn = Log { kind: LogKind::Warn, source: LogSource::Rtr, text: String::from("hi") };
    assert_eq!(warn.to_text(), "[RTR] hi");
    let other = Log { kind: LogKind::Error, source: LogSource::Other, text: String::new() };
    assert_eq!(other.to_text(), "[?] ");
    assert_eq!(LogKind::Info.mark(), "i");
    assert_eq!(LogKind::Log.mark(), "l");
    assert_eq!(LogKind::Warn.mark(), "!");
    assert_eq!(LogKind::Error.mark(), "e");
    assert_eq!(LogSource::Unset.name(), ".");
    assert_eq!(LogSource::Rwl.name(), "RWL");
}
