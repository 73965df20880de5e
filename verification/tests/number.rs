use pebble_shell::number::{digit_of, parse_usize, push_decimal, push_digits};
use pebble_shell::text::{chars_of, same_text, string_of};

#[test]
fn parse_reads_decimal_numbers() {
    assert_eq!(parse_usize("0"), Some(0));
    assert_eq!(parse_usize("7"), Some(7));
    assert_eq!(parse_usize("42"), Some(42));
    assert_eq!(parse_usize("007"), Some(7));
    assert_eq!(parse_usize("+12"), Some(12));
    assert_eq!(parse_usize("1234567890"), Some(1234567890));
}

#[test]
fn parse_refuses_what_is_no_number() {
    for text in ["", "+", "-", "-1", "++1", "1+", "12a", "a12", " 1", "1 ", "1_000", "٣", "1.0"] {
        assert_eq!(parse_usize(text), None, "{:?}", text);
    }
}

#[test]
fn parse_agrees_with_the_standard_library() {
    for text in ["0", "+0", "99", "0000", "+", "", "-0", "18446744073709551615",
        "18446744073709551616", "4294967295", "4294967296", "99999999999999999999999"]
    {
        assert_eq!(parse_usize(text), text.parse::<usize>().ok(), "{:?}", text);
    }
}

#[test]
fn parse_stops_at_the_largest_value() {
    let max = usize::MAX.to_string();
    assert_eq!(parse_usize(&max), Some(usize::MAX));
    let mut over = max.clone();
    over.push('0');
    assert_eq!(parse_usize(&over), None);
    let next = (usize::MAX as u128 + 1).to_string();
    assert_eq!(parse_usize(&next), None);
}

#[test]
fn digits_have_their_values() {
    assert_eq!(digit_of('0'), Some(0));
    assert_eq!(digit_of('5'), Some(5));
    assert_eq!(digit_of('9'), Some(9));
    assert_eq!(digit_of('a'), None);
    assert_eq!(digit_of('/'), None);
    assert_eq!(digit_of(':'), None);
}

#[test]
fn digits_are_written_most_significant_first() {
    let mut out = String::from("n=");
    push_digits(&mut out, 0);
    assert_eq!(out, "n=0");
    let mut out = String::new();
    push_digits(&mut out, 9);
    push_digits(&mut out, 10);
    push_digits(&mut out, 120034);
    assert_eq!(out, "910120034");
    let mut out = String::new();
    push_digits(&mut out, u128::MAX);
    assert_eq!(out, u128::MAX.to_string());
}

#[test]
fn decimal_text_has_a_sign_for_negative_numbers() {
    for n in [0i128, 1, -1, 7, -7, 1000, -1000, i64::MAX as i128, i64::MIN as i128, i128::MAX, i128::MIN] {
        let mut out = String::new();
        push_decimal(&mut out, n);
        assert_eq!(out, n.to_string());
    }
}

#[test]
fn written_digits_are_read_back() {
    for n in [0usize, 1, 9, 10, 99, 100, 65535, usize::MAX] {
        let mut out = String::new();
        push_digits(&mut out, n as u128);
        assert_eq!(parse_usize(&out), Some(n));
    }
}

#[test]
fn chars_and_strings_convert_both_ways() {
    let chars = chars_of("héllo 🗿");
    assert_eq!(chars, vec!['h', 'é', 'l', 'l', 'o', ' ', '🗿']);
    assert_eq!(string_of(&chars, 0, 7), "héllo 🗿");
    assert_eq!(string_of(&chars, 1, 4), "éll");
    assert_eq!(string_of(&chars, 3, 3), "");
    assert!(chars_of("").is_empty());
}

#[test]
fn same_text_compares_characters() {
    assert!(same_text("", ""));
    assert!(same_text("exit", "exit"));
    assert!(!same_text("exit", "exits"));
    assert!(!same_text("exit", "exiT"));
    assert!(!same_text("", "x"));
    assert!(same_text("🗿", "🗿"));
}
