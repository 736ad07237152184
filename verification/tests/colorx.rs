//! Behaviour of the color notation conversion.

use orb::colorx::convert_color;
use orb::colorx::convert_hex_to_rgb;
use orb::colorx::convert_rgb_to_hex;
use orb::colorx::get_rgb_components;
use orb::colorx::is_hex_value;
use orb::colorx::is_rgb_value;
use orb::colorx::join_tokens;
use orb::colorx::parse_rgb;
use orb::colorx::ColorConversion;

#[test]
fn short_hex_converts_like_expanded_hex() {
    assert_eq!(convert_hex_to_rgb("#abc"), convert_hex_to_rgb("#aabbcc"));
    assert_eq!(convert_hex_to_rgb("#abc"), "rgb(170, 187, 204)");
    assert_eq!(convert_hex_to_rgb("#fff"), "rgb(255, 255, 255)");
    assert_eq!(convert_hex_to_rgb("#000"), "rgb(0, 0, 0)");
}

#[test]
fn rgb_hex_round_trip() {
    assert_eq!(convert_rgb_to_hex("255,0,10"), "#FF000A");
    assert_eq!(convert_hex_to_rgb("#FF000A"), "rgb(255, 0, 10)");
    assert_eq!(convert_rgb_to_hex("0 0 0"), "#000000");
    assert_eq!(convert_hex_to_rgb("#000000"), "rgb(0, 0, 0)");
    assert_eq!(convert_rgb_to_hex("rgb(18, 52, 86)"), "#123456");
    assert_eq!(convert_hex_to_rgb("#123456"), "rgb(18, 52, 86)");
}

#[test]
fn is_hex_accepts_exactly_3_or_6_digits() {
    assert!(is_hex_value("#abc"));
    assert!(is_hex_value("#AbC"));
    assert!(is_hex_value("#a1B2c3"));
    assert!(!is_hex_value("#ab"));
    assert!(!is_hex_value("#abcd"));
    assert!(!is_hex_value("abc"));
    assert!(!is_hex_value("#abcde"));
    assert!(!is_hex_value("#abcdefa"));
    assert!(!is_hex_value("#ghi"));
    assert!(!is_hex_value(""));
}

#[test]
fn is_rgb_accepts_the_flexible_forms() {
    assert!(is_rgb_value("rgb(255, 0, 10)"));
    assert!(is_rgb_value("255 0 10"));
    assert!(is_rgb_value("255,0,10"));
    assert!(is_rgb_value("rgb(255 0 10)"));
    assert!(is_rgb_value("rgb( 255,0,10)"));
    assert!(is_rgb_value("0,0,0"));
    assert!(!is_rgb_value("256,0,0"));
    assert!(!is_rgb_value("rgb(1,2)"));
    assert!(!is_rgb_value("1,2,3,4"));
    assert!(!is_rgb_value("1,2 3"));
    assert!(!is_rgb_value("1234,0,0"));
    assert!(!is_rgb_value("a,b,c"));
    assert!(!is_rgb_value(""));
}

#[test]
fn rgb_components_are_read_in_order() {
    assert_eq!(get_rgb_components("rgb(255, 0, 10)"), (255, 0, 10));
    assert_eq!(get_rgb_components("1 2 3"), (1, 2, 3));
    assert_eq!(get_rgb_components("007,08,9"), (7, 8, 9));
    assert_eq!(parse_rgb("256,0,0"), None);
    assert_eq!(parse_rgb("12,34,56"), Some((12, 34, 56)));
}

#[test]
fn tokens_join_with_single_spaces() {
    assert_eq!(join_tokens(&vec![]), "");
    assert_eq!(join_tokens(&vec!["255".to_string()]), "255");
    assert_eq!(
        join_tokens(&vec!["255".to_string(), "0".to_string(), "10".to_string()]),
        "255 0 10"
    );
}

#[test]
fn formatted_rgb_string_parses_back() {
    // hex -> rgb -> hex -> rgb closes the loop
    let rgb = convert_hex_to_rgb("#FF000A");
    assert_eq!(parse_rgb(&rgb), Some((255, 0, 10)));
    let hex = convert_rgb_to_hex(&rgb);
    assert_eq!(hex, "#FF000A");
    assert_eq!(convert_hex_to_rgb(&hex), rgb);
}

#[test]
fn conversion_classifies_hex_first() {
    match convert_color("#fff") {
        ColorConversion::ToRgb(s) => assert_eq!(s, "rgb(255, 255, 255)"),
        _ => panic!("hex input must convert to RGB"),
    }
    match convert_color("1 2 3") {
        ColorConversion::ToHex(s) => assert_eq!(s, "#010203"),
        _ => panic!("RGB input must convert to hex"),
    }
    assert!(matches!(convert_color("hello"), ColorConversion::Unrecognized));
    assert!(matches!(convert_color(""), ColorConversion::Unrecognized));
}
