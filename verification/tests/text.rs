//! Text building.
use yabai::bytes::{contains, u32_be, u32_le};
use yabai::literals::{is_float_literal, is_u64_literal};
use yabai::query::format_area;
use yabai::text::{
    decimal_string, join, join_ids, join_u64s, json_bool, json_escape, optional_bool, push_hex,
    push_hex_padded, push_hex_upper, signed_string,
};
use yabai::types::{Area, Real};

fn words(parts: &[&str]) -> Vec<String> {
    parts.iter().map(|s| s.to_string()).collect()
}

#[test]
fn numerals_are_those_of_the_standard_library() {
    for n in [0u64, 7, 10, 99, 100, 4_294_967_296, u64::MAX] {
        assert_eq!(decimal_string(n), n.to_string());
    }
    for n in [0i32, -1, 42, i32::MIN, i32::MAX] {
        assert_eq!(signed_string(n), n.to_string());
    }
    for n in [0u32, 9, 10, 255, 0xdead_beef, u32::MAX] {
        let (mut low, mut high, mut wide) = (String::new(), String::new(), String::new());
        push_hex(&mut low, n);
        push_hex_upper(&mut high, n);
        push_hex_padded(&mut wide, n, 8);
        assert_eq!(low, format!("{n:x}"));
        assert_eq!(high, format!("{n:X}"));
        assert_eq!(wide, format!("{n:08x}"));
    }
}

#[test]
fn json_text_is_escaped() {
    assert_eq!(json_escape("plain"), "plain");
    assert_eq!(json_escape("a\"b\\c\nd\te\r"), "a\\\"b\\\\c\\nd\\te\\r");
    assert_eq!(json_escape("\u{1}"), "\\u0001");
    assert_eq!(json_escape("é漢"), "é漢");
    assert_eq!(json_escape("\u{8}\u{c}\u{1f}/\u{7f}"), "\\u0008\\u000c\\u001f/\u{7f}");
    // The parts of a text are escaped one by one.
    let (a, b) = ("say \"", "\\\u{1}\" now");
    assert_eq!(json_escape(&format!("{a}{b}")), json_escape(a) + &json_escape(b));
}

#[test]
fn json_words() {
    assert_eq!(json_bool(true), "true");
    assert_eq!(json_bool(false), "false");
    assert_eq!(optional_bool(None), "null");
    assert_eq!(optional_bool(Some(true)), "true");
}

#[test]
fn lists_are_joined() {
    assert_eq!(join(&words(&["a", "b", "c"]), ", "), "a, b, c");
    assert_eq!(join(&Vec::new(), ", "), "");
    assert_eq!(join_ids(&vec![1, 20, 300]), "1, 20, 300");
    assert_eq!(join_u64s(&vec![]), "");
    assert_eq!(join_u64s(&vec![5]), "5");
}

#[test]
fn areas_are_written_with_four_decimals() {
    let n = |v: f32| Real { bits: v.to_bits(), text: format!("{v:.4}") };
    let area = Area { x: n(1.0), y: n(-2.5), w: n(0.125), h: n(4.0) };
    assert_eq!(
        format_area(&area),
        "{\n\t\t\"x\":1.0000,\n\t\t\"y\":-2.5000,\n\t\t\"w\":0.1250,\n\t\t\"h\":4.0000\n\t}"
    );
}

#[test]
fn number_literals_are_those_of_the_standard_library() {
    let samples = [
        "", "0", "12", "+7", "-7", "18446744073709551615", "18446744073709551616", "1.5", ".5",
        "5.", ".", "1e5", "1e", "e5", "-1E-3", "+.5e+2", "inf", "-inf", "Infinity", "nan", "NaN",
        " 1", "1 ", "1_0", "0x10", "٣",
    ];
    for s in samples {
        assert_eq!(is_u64_literal(s), s.parse::<u64>().is_ok(), "{s:?} as u64");
        assert_eq!(is_float_literal(s), s.parse::<f64>().is_ok(), "{s:?} as a float");
    }
}

#[test]
fn words_are_read_in_both_orders() {
    let bytes = vec![1u8, 2, 3, 4, 5];
    assert_eq!(u32_be(&bytes, 0), Some(0x0102_0304));
    assert_eq!(u32_le(&bytes, 1), Some(0x0504_0302));
    assert_eq!(u32_le(&bytes, 2), None);
    assert_eq!(u32_be(&bytes, usize::MAX), None);
}

#[test]
fn texts_are_found_in_texts() {
    assert!(contains("boot -arm64e_preview_abi", "-arm64e_preview_abi"));
    assert!(contains("abc", ""));
    assert!(!contains("abc", "abd"));
    assert!(!contains("", "a"));
}
