//! Tests of the UBJSON subset reader.

use slippi_parse::codec::Reader;
use slippi_parse::ubjson::{map_insert, parse_key, parse_map, parse_utf8, parse_val, Object};
use slippi_parse::Error;

#[test]
fn utf8_item_decodes() {
    let bytes = vec![0x02, 0xc3, 0xa9];
    let mut r = Reader::new(&bytes);
    assert_eq!(parse_utf8(&mut r).unwrap(), "\u{e9}");
}

#[test]
fn utf8_item_rejects_invalid_bytes() {
    let bytes = vec![0x01, 0xff];
    let mut r = Reader::new(&bytes);
    assert_eq!(parse_utf8(&mut r).unwrap_err(), Error::InvalidText);
}

#[test]
fn utf8_item_rejects_short_input() {
    let bytes = vec![0x05, 0x61];
    let mut r = Reader::new(&bytes);
    assert_eq!(parse_utf8(&mut r).unwrap_err(), Error::TruncatedInput);
}

#[test]
fn key_marker_cases() {
    let key = vec![0x55, 0x01, 0x78];
    let mut r = Reader::new(&key);
    assert_eq!(parse_key(&mut r).unwrap(), Some("x".to_string()));

    let closing = vec![0x7d];
    let mut r = Reader::new(&closing);
    assert_eq!(parse_key(&mut r).unwrap(), None);

    let wrong = vec![0x6c];
    let mut r = Reader::new(&wrong);
    assert_eq!(parse_key(&mut r).unwrap_err(), Error::MalformedMetadata);
}

#[test]
fn value_markers() {
    let int = vec![0x6c, 0x00, 0x00, 0x00, 0x05];
    let mut r = Reader::new(&int);
    assert_eq!(parse_val(&mut r).unwrap(), Object::Int(5));

    let negative = vec![0x6c, 0xff, 0xff, 0xff, 0xfe];
    let mut r = Reader::new(&negative);
    assert_eq!(parse_val(&mut r).unwrap(), Object::Int(-2));

    let string = vec![0x53, 0x55, 0x02, 0x68, 0x69];
    let mut r = Reader::new(&string);
    assert_eq!(parse_val(&mut r).unwrap(), Object::Str("hi".to_string()));

    let unsupported = vec![0x5a];
    let mut r = Reader::new(&unsupported);
    assert_eq!(parse_val(&mut r).unwrap_err(), Error::UnsupportedValueType);

    let bad_string_header = vec![0x53, 0x54];
    let mut r = Reader::new(&bad_string_header);
    assert_eq!(parse_val(&mut r).unwrap_err(), Error::MalformedMetadata);
}

#[test]
fn nested_map_decodes() {
    // { "x": { "y": 5 } }, with the outer opening brace already consumed.
    let bytes = vec![
        0x55, 0x01, 0x78, // key "x"
        0x7b, // nested map
        0x55, 0x01, 0x79, // key "y"
        0x6c, 0x00, 0x00, 0x00, 0x05, // 5
        0x7d, // end of nested map
        0x7d, // end of outer map
    ];
    let mut r = Reader::new(&bytes);
    let m = parse_map(&mut r).unwrap();
    let expected = vec![(
        "x".to_string(),
        Object::Dict(vec![("y".to_string(), Object::Int(5))]),
    )];
    assert_eq!(m, expected);
}

#[test]
fn empty_map_decodes() {
    let bytes = vec![0x7d];
    let mut r = Reader::new(&bytes);
    assert_eq!(parse_map(&mut r).unwrap(), Vec::new());
}

#[test]
fn later_duplicate_key_replaces_earlier_value() {
    let bytes = vec![
        0x55, 0x01, 0x78, 0x6c, 0x00, 0x00, 0x00, 0x01, // "x": 1
        0x55, 0x01, 0x78, 0x6c, 0x00, 0x00, 0x00, 0x02, // "x": 2
        0x7d,
    ];
    let mut r = Reader::new(&bytes);
    let m = parse_map(&mut r).unwrap();
    assert_eq!(m, vec![("x".to_string(), Object::Int(2))]);
}

#[test]
fn map_insert_replaces_and_appends() {
    let mut m: Vec<(String, Object)> = Vec::new();
    map_insert(&mut m, "a".to_string(), Object::Int(1));
    map_insert(&mut m, "b".to_string(), Object::Int(2));
    map_insert(&mut m, "a".to_string(), Object::Int(3));
    assert_eq!(
        m,
        vec![
            ("a".to_string(), Object::Int(3)),
            ("b".to_string(), Object::Int(2)),
        ]
    );
}

#[test]
fn unterminated_map_is_truncated() {
    let bytes = vec![0x55, 0x01, 0x78, 0x6c, 0x00, 0x00, 0x00, 0x01];
    let mut r = Reader::new(&bytes);
    assert_eq!(parse_map(&mut r).unwrap_err(), Error::TruncatedInput);
}
