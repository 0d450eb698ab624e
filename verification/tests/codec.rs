//! The JSON wire codec: estimates, entries, and the raw value layer.

use ommatidia::json::{Json, Number};
use ommatidia::{Ellipse, Entry, Estimate, Point, Position, Radian};

fn num(mantissa: u64, scale: u8) -> Number {
    Number { negative: false, mantissa, scale }
}

fn whole(mantissa: u64) -> Number {
    num(mantissa, 0)
}

#[test]
fn test_ellipse() {
    const EXAMPLE: &str = r#"{ "type": "Ellipse", "x": 1, "y": 2, "major": 4, "minor": 3, "angle": 0.5, "confidence": 0.1, "sample": { "width": 42, "height": 43 } }"#;
    let ellipse = Estimate::decode(EXAMPLE.as_bytes()).expect("valid JSON");

    assert_eq!(
        ellipse,
        Estimate::Ellipse(Ellipse {
            pos: Position { x: 1, y: 2 },
            major: whole(4),
            minor: whole(3),
            angle: Radian(num(5, 1)),
            confidence: Some(num(1, 1)),
            sample: ommatidia::estimate::Sample {
                width: 42,
                height: 43
            }
        })
    )
}

#[test]
fn test_ellipse_without_confidence() {
    const EXAMPLE: &str = r#"{ "type": "Ellipse", "x": 1, "y": 2, "major": 4, "minor": 3, "angle": 0.5, "sample": { "width": 42, "height": 43 }}"#;
    let ellipse = Estimate::decode(EXAMPLE.as_bytes()).expect("valid JSON");

    assert_eq!(
        ellipse,
        Estimate::Ellipse(Ellipse {
            pos: Position { x: 1, y: 2 },
            major: whole(4),
            minor: whole(3),
            angle: Radian(num(5, 1)),
            confidence: None,
            sample: ommatidia::estimate::Sample {
                width: 42,
                height: 43
            }
        })
    )
}

#[test]
fn test_point() {
    const EXAMPLE: &str =
        r#"{ "type": "Point", "x": 1, "y": 2, "confidence": 0.1, "sample": { "width": 42, "height": 43 } }"#;
    let point = Estimate::decode(EXAMPLE.as_bytes()).expect("valid JSON");

    assert_eq!(
        point,
        Estimate::Point(Point {
            pos: Position { x: 1, y: 2 },
            confidence: Some(num(1, 1)),
            sample: ommatidia::estimate::Sample {
                width: 42,
                height: 43
            }
        })
    )
}

#[test]
fn test_point_without_confidence() {
    const EXAMPLE: &str =
        r#"{ "type": "Point", "x": 1, "y": 2, "sample": { "width": 42, "height": 43 } }"#;
    let point = Estimate::decode(EXAMPLE.as_bytes()).expect("valid JSON");

    assert_eq!(
        point,
        Estimate::Point(Point {
            pos: Position { x: 1, y: 2 },
            confidence: None,
            sample: ommatidia::estimate::Sample {
                width: 42,
                height: 43
            }
        })
    )
}

#[test]
fn point_encoding_round_trips() {
    let original = Estimate::Point(Point {
        pos: Position { x: 1, y: 2 },
        confidence: Some(num(1, 1)),
        sample: ommatidia::estimate::Sample {
            width: 42,
            height: 43,
        },
    });
    let encoded = original.encode();
    assert_eq!(Estimate::decode(&encoded), Some(original));
}

#[test]
fn ellipse_encoding_round_trips_with_and_without_confidence() {
    for confidence in [Some(num(1, 1)), None] {
        let original = Estimate::Ellipse(Ellipse {
            pos: Position { x: 1, y: 2 },
            major: whole(4),
            minor: whole(3),
            angle: Radian(num(5, 1)),
            confidence,
            sample: ommatidia::estimate::Sample {
                width: 42,
                height: 43,
            },
        });
        let encoded = original.encode();
        assert_eq!(Estimate::decode(&encoded), Some(original));
    }
}

#[test]
fn point_encodes_to_its_canonical_text() {
    let original = Estimate::Point(Point {
        pos: Position { x: 1, y: 2 },
        confidence: Some(num(1, 1)),
        sample: ommatidia::estimate::Sample {
            width: 42,
            height: 43,
        },
    });
    let encoded = original.encode();
    assert_eq!(
        String::from_utf8(encoded).unwrap(),
        r#"{"type":"Point","x":1,"y":2,"confidence":0.1,"sample":{"width":42,"height":43}}"#
    );
}

#[test]
fn estimate_fields_may_come_in_any_order() {
    const EXAMPLE: &str =
        r#"{"sample":{"height":43,"width":42},"y":2,"x":1,"type":"Point"}"#;
    let point = Estimate::decode(EXAMPLE.as_bytes()).expect("valid JSON");
    assert_eq!(
        point,
        Estimate::Point(Point {
            pos: Position { x: 1, y: 2 },
            confidence: None,
            sample: ommatidia::estimate::Sample {
                width: 42,
                height: 43
            }
        })
    );
}

#[test]
fn malformed_estimates_are_rejected() {
    for text in [
        "",
        "{",
        "[]",
        "42",
        r#"{"type":"Square","x":1,"y":2,"sample":{"width":1,"height":1}}"#,
        r#"{"type":"Point","x":1,"sample":{"width":1,"height":1}}"#,
        r#"{"type":"Point","x":-1,"y":2,"sample":{"width":1,"height":1}}"#,
        r#"{"type":"Point","x":1.5,"y":2,"sample":{"width":1,"height":1}}"#,
        r#"{"type":"Point","x":1,"y":2,"confidence":"high","sample":{"width":1,"height":1}}"#,
    ] {
        assert_eq!(Estimate::decode(text.as_bytes()), None, "{}", text);
    }
}

#[test]
fn test_deserialize_path() {
    let v = Entry::decode("\"/dir/test\"".as_bytes()).expect("valid json");
    assert!(matches!(v, Entry::Path(_)));
}

#[test]
fn test_deserialize_pattern() {
    let v = Entry::decode("\"/dir/*/test\"".as_bytes()).expect("valid json");
    assert!(matches!(v, Entry::Pattern(_)));
}

#[test]
fn entry_classification_looks_for_wildcards() {
    assert!(matches!(Entry::classify("/plain/path".to_string()), Entry::Path(_)));
    assert!(matches!(Entry::classify("/a/?.png".to_string()), Entry::Pattern(_)));
    assert!(matches!(Entry::classify("/a/[ab].png".to_string()), Entry::Pattern(_)));
}

#[test]
fn json_parser_reads_the_usual_values() {
    assert_eq!(ommatidia::json::parse_json(b"null"), Some(Json::Null));
    assert_eq!(ommatidia::json::parse_json(b" true "), Some(Json::Bool(true)));
    assert_eq!(ommatidia::json::parse_json(b"false"), Some(Json::Bool(false)));
    assert_eq!(
        ommatidia::json::parse_json(b"-12.50"),
        Some(Json::Num(Number { negative: true, mantissa: 1250, scale: 2 }))
    );
    assert_eq!(
        ommatidia::json::parse_json(br#""a\"b\\c\nd""#),
        Some(Json::Str(b"a\"b\\c\nd".to_vec()))
    );
    assert_eq!(
        ommatidia::json::parse_json(b"[1, 2]"),
        Some(Json::Arr(vec![Json::Num(whole(1)), Json::Num(whole(2))]))
    );
}

#[test]
fn json_parser_rejects_what_the_grammar_excludes() {
    for text in [
        "1.",
        ".5",
        "--1",
        "1e",
        "1e+",
        "99999999999999999999999",
        "0.12345678901234567890123",
        "1e20",
        "7e-20",
        "1e99999999999999999999",
        r#""\ud800""#,
        r#""\ude00\ud800""#,
        r#""\u00g1""#,
        "[1,]",
        "{\"a\":1",
        "nul",
        "truefalse",
    ] {
        assert_eq!(ommatidia::json::parse_json(text.as_bytes()), None, "{}", text);
    }
}

#[test]
fn json_parser_normalizes_exponents() {
    for (text, expected) in [
        ("1e5", whole(100000)),
        ("1E+2", whole(100)),
        ("1.5e2", whole(150)),
        ("1e-5", num(1, 5)),
        ("2.5e-1", num(25, 2)),
        ("0e999", whole(0)),
        ("12.34e1", num(1234, 1)),
    ] {
        assert_eq!(
            ommatidia::json::parse_json(text.as_bytes()),
            Some(Json::Num(expected)),
            "{}",
            text
        );
    }
}

#[test]
fn json_parser_resolves_unicode_escapes() {
    assert_eq!(
        ommatidia::json::parse_json(br#""\u0041""#),
        Some(Json::Str(b"A".to_vec()))
    );
    assert_eq!(
        ommatidia::json::parse_json(br#""\u00e4""#),
        Some(Json::Str(vec![0xC3, 0xA4]))
    );
    assert_eq!(
        ommatidia::json::parse_json(br#""\u20ac""#),
        Some(Json::Str(vec![0xE2, 0x82, 0xAC]))
    );
    assert_eq!(
        ommatidia::json::parse_json(br#""\ud83d\ude00""#),
        Some(Json::Str(vec![0xF0, 0x9F, 0x98, 0x80]))
    );
}

#[test]
fn written_control_bytes_read_back() {
    let v = Json::Str(vec![10, 9, 65]);
    let bytes = ommatidia::json::to_bytes(&v);
    assert_eq!(String::from_utf8(bytes.clone()).unwrap(), r#""\u000a\u0009A""#);
    assert_eq!(ommatidia::json::parse_json(&bytes), Some(v));
}

#[test]
fn estimate_confidence_may_use_an_exponent() {
    const EXAMPLE: &str =
        r#"{"type":"Point","x":1,"y":2,"confidence":1e-1,"sample":{"width":42,"height":43}}"#;
    let point = Estimate::decode(EXAMPLE.as_bytes()).expect("valid JSON");
    assert_eq!(
        point,
        Estimate::Point(Point {
            pos: Position { x: 1, y: 2 },
            confidence: Some(num(1, 1)),
            sample: ommatidia::estimate::Sample {
                width: 42,
                height: 43
            }
        })
    );
}

#[test]
fn json_writer_prints_numbers_and_strings() {
    let v = Json::Obj(vec![
        (b"a".to_vec(), Json::Num(Number { negative: true, mantissa: 105, scale: 1 })),
        (b"b".to_vec(), Json::Str(b"x\"y".to_vec())),
        (b"c".to_vec(), Json::Arr(vec![Json::Null, Json::Bool(false)])),
    ]);
    let bytes = ommatidia::json::to_bytes(&v);
    assert_eq!(
        String::from_utf8(bytes).unwrap(),
        r#"{"a":-10.5,"b":"x\"y","c":[null,false]}"#
    );
}
