use frameos::canvas::{parse_hex_color, Canvas, Rgba};
use frameos::clock::nim_time_format_to_chrono;
use frameos::e2e::{config_bool, config_i32, config_string, config_u32};
use frameos::json::{parse_json, to_pretty_text, to_text, JsonNumber, JsonObject, JsonValue};
use frameos::text::{
    contains_sub, join, order_of, parse_i64, parse_u64, replace, split_once, split_text,
    starts_with, str_is_blank, strip_prefix, strip_suffix, trim, trim_start, two_digit_text,
    u64_to_text, TextOrder,
};

fn json(text: &str) -> JsonValue {
    parse_json(text).expect("test value should be json")
}

fn object(document: &str) -> JsonObject {
    match json(document) {
        JsonValue::Object(object) => object,
        _ => panic!("value should be an object"),
    }
}

fn rgba(r: u8, g: u8, b: u8, a: u8) -> Option<Rgba> {
    Some(Rgba { r, g, b, a })
}

#[test]
fn white_space_is_trimmed_as_unicode_defines_it() {
    assert_eq!(trim(" \t a b \r\n"), "a b");
    assert_eq!(trim("\u{a0}\u{2003}x\u{3000}\u{85}"), "x");
    assert_eq!(trim("\u{200b}x"), "\u{200b}x");
    assert_eq!(trim("   "), "");
    assert_eq!(trim_start("  a  "), "a  ");
    assert!(str_is_blank(" \u{2028}\t"));
    assert!(str_is_blank(""));
    assert!(!str_is_blank(" . "));
}

#[test]
fn texts_are_split_joined_and_replaced() {
    assert_eq!(split_text("a,b,,c", ','), vec!["a", "b", "", "c"]);
    assert_eq!(split_text("", ','), vec![""]);
    assert_eq!(split_text(",", ','), vec!["", ""]);
    assert_eq!(split_once("key=value=more", '='), Some(("key".to_string(), "value=more".to_string())));
    assert_eq!(split_once("key", '='), None);
    assert_eq!(split_once("=", '='), Some((String::new(), String::new())));
    assert_eq!(join(&vec!["a".to_string(), "b".to_string(), String::new()], ", "), "a, b, ");
    assert_eq!(join(&Vec::new(), ", "), "");
    assert_eq!(replace("aaaa", "aa", "b"), "bb");
    assert_eq!(replace("aaa", "aa", "b"), "ba");
    assert_eq!(replace("abc", "", "x"), "abc");
    assert_eq!(replace("a.b.c", ".", ".."), "a..b..c");
}

#[test]
fn texts_are_searched_and_stripped() {
    assert!(starts_with("https://x", "https://"));
    assert!(starts_with("x", ""));
    assert!(!starts_with("http", "https"));
    assert!(contains_sub("upgrade: websocket", "websocket"));
    assert!(contains_sub("abc", ""));
    assert!(!contains_sub("abc", "abcd"));
    assert_eq!(strip_prefix("#123", "#"), Some("123".to_string()));
    assert_eq!(strip_prefix("123", "#"), None);
    assert_eq!(strip_suffix("20240103T170000Z", "Z"), Some("20240103T170000".to_string()));
    assert_eq!(strip_suffix("Z", "Z"), Some(String::new()));
    assert_eq!(strip_suffix("", "Z"), None);
}

#[test]
fn texts_are_ordered_as_strings_are() {
    assert_eq!(order_of("2024-12-24", "2024-12-25"), TextOrder::Before);
    assert_eq!(order_of("2024-12-24T08:00", "2024-12-24"), TextOrder::After);
    assert_eq!(order_of("", ""), TextOrder::Same);
    assert_eq!(order_of("", "a"), TextOrder::Before);
    assert_eq!(order_of("b", "abc"), TextOrder::After);
    assert_eq!(order_of("Z", "a"), TextOrder::Before);
    assert_eq!(order_of("é", "z"), TextOrder::After);
}

#[test]
fn numbers_are_read_and_written_in_decimal() {
    assert_eq!(u64_to_text(0), "0");
    assert_eq!(u64_to_text(u64::MAX), "18446744073709551615");
    assert_eq!(two_digit_text(7), "07");
    assert_eq!(two_digit_text(59), "59");
    assert_eq!(parse_u64("18446744073709551615"), Some(u64::MAX));
    assert_eq!(parse_u64("18446744073709551616"), None);
    assert_eq!(parse_u64("+7"), Some(7));
    assert_eq!(parse_u64("007"), Some(7));
    assert_eq!(parse_u64("-0"), None);
    assert_eq!(parse_u64(""), None);
    assert_eq!(parse_u64("1 "), None);
    assert_eq!(parse_i64("-9223372036854775808"), Some(i64::MIN));
    assert_eq!(parse_i64("9223372036854775807"), Some(i64::MAX));
    assert_eq!(parse_i64("9223372036854775808"), None);
    assert_eq!(parse_i64("-9223372036854775809"), None);
    assert_eq!(parse_i64("+12"), Some(12));
    assert_eq!(parse_i64("-"), None);
    assert_eq!(parse_i64("1_000"), None);
    assert_eq!(parse_i64("١٢"), None);
}

#[test]
fn colours_are_read_with_or_without_their_opacity() {
    assert_eq!(parse_hex_color("#336699"), rgba(0x33, 0x66, 0x99, 255));
    assert_eq!(parse_hex_color("336699cc"), rgba(0x33, 0x66, 0x99, 0xcc));
    assert_eq!(parse_hex_color("  ##AbCdEf  "), rgba(0xab, 0xcd, 0xef, 255));
    assert_eq!(parse_hex_color("#+1+2+3"), rgba(1, 2, 3, 255));
    for wrong in ["", "#", "#12345", "#1234567", "#123456789", "#12345g", "#-12345", "# 123456", "#١٢٣٤٥٦"] {
        assert_eq!(parse_hex_color(wrong), None, "colour {wrong:?}");
    }
}

#[test]
fn pictures_are_filled_and_changed_pixel_by_pixel() {
    let red = Rgba { r: 255, g: 0, b: 0, a: 255 };
    let mut canvas = Canvas::filled(3, 2, red);
    assert_eq!((canvas.width, canvas.height, canvas.pixels.len()), (3, 2, 24));
    assert!(canvas.pixels.chunks(4).all(|pixel| pixel == [255, 0, 0, 255]));
    canvas.put_pixel(2, 1, Rgba { r: 1, g: 2, b: 3, a: 4 });
    assert_eq!(&canvas.pixels[20..24], &[1, 2, 3, 4]);
    assert!(canvas.pixels[..20].chunks(4).all(|pixel| pixel == [255, 0, 0, 255]));
    assert_eq!(canvas.clone_canvas(), canvas);
    assert!(Canvas::filled(0, 5, red).pixels.is_empty());
    assert!(Canvas::size_fits(4000, 4000));
    assert!(!Canvas::size_fits(u32::MAX, u32::MAX));
    assert!(Canvas::scales(10, 20, 30));
    assert!(!Canvas::scales(u32::MAX, 1, u32::MAX));
}

#[test]
fn time_patterns_are_translated_token_by_token() {
    assert_eq!(nim_time_format_to_chrono("yyyy-MM-dd HH:mm:ss"), "%Y-%m-%d %H:%M:%S");
    assert_eq!(nim_time_format_to_chrono("HH:mm:ss.fff"), "%H:%M:%S.%3f");
    assert_eq!(nim_time_format_to_chrono("yyyyy"), "%Yy");
    assert_eq!(nim_time_format_to_chrono("ddd MMM"), "%dd %mM");
    assert_eq!(nim_time_format_to_chrono("plain"), "plain");
    assert_eq!(nim_time_format_to_chrono("ffff"), "%3ff");
}

#[test]
fn json_is_read_and_written_as_serde_does() {
    let value = json(r#"{"b": [1, -2, 1.50, 1e3, true, null], "a": "x\ny", "b2": {}}"#);
    assert_eq!(to_text(&value), r#"{"a":"x\ny","b":[1,-2,1.5,1000.0,true,null],"b2":{}}"#);
    assert_eq!(
        to_pretty_text(&json(r#"{"a": [1, {"b": null}], "c": {}}"#), 3),
        Ok("{\n   \"a\": [\n      1,\n      {\n         \"b\": null\n      }\n   ],\n   \"c\": {}\n}".to_string())
    );
    assert!(parse_json("{\"a\": }").is_err());
    assert!(parse_json("").is_err());
    assert_eq!(
        parse_json("18446744073709551615"),
        Ok(JsonValue::Number(JsonNumber::PosInt(u64::MAX)))
    );
    assert_eq!(parse_json("-1"), Ok(JsonValue::Number(JsonNumber::NegInt(-1))));
    assert_eq!(
        parse_json("18446744073709551616"),
        Ok(JsonValue::Number(JsonNumber::Float("1.8446744073709552e+19".to_string())))
    );
}

#[test]
fn later_member_of_an_object_replaces_an_earlier_one() {
    let mut object = JsonObject::new();
    object.insert("k".to_string(), json("1"));
    object.insert("other".to_string(), json("true"));
    object.insert("k".to_string(), json("\"two\""));
    assert_eq!(object.get("k"), Some(&JsonValue::Str("two".to_string())));
    assert_eq!(object.get_str("k"), Some("two"));
    assert_eq!(object.get_u64("k"), None);
    assert_eq!(object.get_bool("other"), Some(true));
    assert_eq!(object.get("none"), None);
    assert_eq!(to_text(&JsonValue::Object(object)), r#"{"k":"two","other":true}"#);
    assert_eq!(json(r#"{"k": 1, "k": 2}"#).get("k"), Some(&json("2")));
}

#[test]
fn json_values_are_asked_for_what_they_hold() {
    let value = json(r#"{"n": 7, "m": -7, "f": 7.5, "s": "7", "l": [7], "o": {"n": 8}, "z": null}"#);
    let at = |key: &str| value.get(key).expect("member");
    assert_eq!((at("n").as_u64(), at("n").as_i64()), (Some(7), Some(7)));
    assert_eq!((at("m").as_u64(), at("m").as_i64()), (None, Some(-7)));
    assert_eq!((at("f").as_u64(), at("f").as_i64()), (None, None));
    assert_eq!(at("f").as_number(), Some(&JsonNumber::Float("7.5".to_string())));
    assert_eq!((at("s").as_str(), at("s").as_u64()), (Some("7"), None));
    assert_eq!(at("l").as_array().map(|items| items.len()), Some(1));
    assert_eq!(at("o").as_object().and_then(|object| object.get_i64("n")), Some(8));
    assert!(at("z").is_null());
    assert!(!at("n").is_null());
    assert_eq!(at("n").get("x"), None);
    assert_eq!(at("s").as_bool(), None);
    assert_eq!(json("9223372036854775808").as_i64(), None);
    assert_eq!(json("9223372036854775808").as_u64(), Some(9223372036854775808));
    assert_eq!(JsonValue::text("hi"), JsonValue::Str("hi".to_string()));
}

#[test]
fn settings_of_a_node_are_read_from_numbers_or_from_strings() {
    let config = object(
        r#"{"rows": "16", "columns": 3, "wide": 4294967296, "neg": -5, "negs": "-5", "on": "TRUE",
            "one": "1", "off": "yes", "flag": false, "name": "x", "frac": 1.5, "pad": " 7"}"#,
    );
    assert_eq!(config_i32(&config, "rows", 1), 16);
    assert_eq!(config_i32(&config, "columns", 1), 3);
    assert_eq!(config_i32(&config, "wide", 9), 9);
    assert_eq!(config_i32(&config, "neg", 9), -5);
    assert_eq!(config_i32(&config, "negs", 9), -5);
    assert_eq!(config_i32(&config, "frac", 9), 9);
    assert_eq!(config_i32(&config, "pad", 9), 9);
    assert_eq!(config_i32(&config, "none", 9), 9);
    assert_eq!(config_u32(&config, "rows", 1), 16);
    assert_eq!(config_u32(&config, "wide", 9), 9);
    assert_eq!(config_u32(&config, "neg", 9), 9);
    assert_eq!(config_u32(&config, "negs", 9), 9);
    assert!(config_bool(&config, "on", false));
    assert!(config_bool(&config, "one", false));
    assert!(!config_bool(&config, "off", true));
    assert!(!config_bool(&config, "flag", true));
    assert!(config_bool(&config, "none", true));
    assert!(config_bool(&config, "columns", true));
    assert_eq!(config_string(&config, "name", "d"), "x");
    assert_eq!(config_string(&config, "columns", "d"), "d");
}

#[test]
fn picture_with_rows_that_cannot_be_counted_does_not_fit() {
    assert!(Canvas::size_fits(1 << 20, 0));
    assert!(Canvas::size_fits(0, u32::MAX));
    assert_eq!(Canvas::size_fits(u32::MAX, 0), (u32::MAX as u128) * 4 <= usize::MAX as u128);
    assert!(!Canvas::size_fits(u32::MAX, u32::MAX));
}
