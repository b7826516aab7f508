use hc_caseta::double::Double;
use hc_caseta::json::{array_under, bool_under, f64_under, str_under, u64_under, Json, JsonNumber};

fn double(x: f64) -> Double {
    Double { bits: x.to_bits() }
}

#[test]
fn values_are_read_level_by_level() {
    let read = Json::parse(r#"{"b":[null,true,"x"],"a":{"c":-3}}"#).unwrap();
    assert_eq!(
        read,
        Json::Object(vec![
            (
                "a".to_string(),
                Json::Object(vec![(
                    "c".to_string(),
                    Json::Number(JsonNumber::Negative(-3))
                )])
            ),
            (
                "b".to_string(),
                Json::Array(vec![
                    Json::Null,
                    Json::Bool(true),
                    Json::String("x".to_string())
                ])
            ),
        ])
    );
}

#[test]
fn numbers_keep_their_kind() {
    let number = |source: &str| match Json::parse(source).unwrap() {
        Json::Number(n) => n,
        other => panic!("{other:?}"),
    };
    assert_eq!(number("0"), JsonNumber::Unsigned(0));
    assert_eq!(
        number("18446744073709551615"),
        JsonNumber::Unsigned(u64::MAX)
    );
    assert_eq!(number("-1"), JsonNumber::Negative(-1));
    assert_eq!(number("-9223372036854775808"), JsonNumber::Negative(i64::MIN));
    assert_eq!(number("2.5"), JsonNumber::Double(double(2.5)));
    assert_eq!(number("2.0"), JsonNumber::Double(double(2.0)));
    assert_eq!(
        number("18446744073709551616"),
        JsonNumber::Double(double(18446744073709551616.0))
    );
}

#[test]
fn every_number_has_a_double() {
    for (source, expected) in [
        ("75", 75.0),
        ("0", 0.0),
        ("-4", -4.0),
        ("18446744073709551615", 18446744073709551615.0),
        ("9007199254740991", 9007199254740991.0),
        ("9007199254740993", 9007199254740992.0),
        ("9007199254740995", 9007199254740996.0),
        ("-9007199254740993", -9007199254740992.0),
        ("-9223372036854775808", -9223372036854775808.0),
        ("0.125", 0.125),
    ] {
        let json = Json::parse(source).unwrap();
        assert_eq!(json.as_double(), Some(double(expected)), "{source}");
        assert_eq!(
            json.as_double().unwrap().is_positive(),
            expected > 0.0,
            "{source}"
        );
    }
    assert_eq!(Json::parse("\"75\"").unwrap().as_double(), None);
}

#[test]
fn doubles_of_integers_have_exact_bits() {
    for (source, bits) in [
        ("0", 0),
        ("1", 0x3FF0_0000_0000_0000),
        ("40", 0x4044_0000_0000_0000),
        ("-5", 0xC014_0000_0000_0000),
        ("18446744073709551615", 0x43F0_0000_0000_0000),
    ] {
        let json = Json::parse(source).unwrap();
        assert_eq!(json.as_double(), Some(Double { bits }), "{source}");
    }
}

#[test]
fn being_positive_follows_the_bits() {
    for x in [
        1.0,
        f64::MIN_POSITIVE,
        f64::from_bits(1),
        f64::MAX,
        f64::INFINITY,
        0.0,
        -0.0,
        -1.0,
        f64::NEG_INFINITY,
        f64::NAN,
        -f64::NAN,
    ] {
        assert_eq!(double(x).is_positive(), x > 0.0, "{x}");
    }
}

#[test]
fn members_are_found_by_key() {
    let json = Json::parse(r#"{"n":4,"s":"t","b":false,"l":[1],"f":1.5,"":0}"#).unwrap();
    assert_eq!(u64_under(&json, "n"), Some(4));
    assert_eq!(str_under(&json, "s"), Some("t"));
    assert_eq!(bool_under(&json, "b"), Some(false));
    assert_eq!(array_under(&json, "l").map(Vec::len), Some(1));
    assert_eq!(f64_under(&json, "f"), Some(double(1.5)));
    assert_eq!(u64_under(&json, ""), Some(0));
    assert_eq!(u64_under(&json, "f"), None);
    assert_eq!(u64_under(&json, "N"), None);
    assert_eq!(str_under(&json, "n"), None);
    assert_eq!(bool_under(&json, "n"), None);
    assert!(array_under(&json, "s").is_none());
    assert!(json.get("missing").is_none());
    assert!(Json::parse("[1]").unwrap().get("0").is_none());
    assert!(Json::Null.get("n").is_none());
}

#[test]
fn the_first_entry_under_a_key_counts() {
    let twice = Json::Object(vec![
        ("k".to_string(), Json::Bool(true)),
        ("k".to_string(), Json::Bool(false)),
    ]);
    assert_eq!(bool_under(&twice, "k"), Some(true));
    // The parser keeps the last of two members with one key.
    let read = Json::parse(r#"{"k":true,"k":false}"#).unwrap();
    assert_eq!(bool_under(&read, "k"), Some(false));
}

#[test]
fn errors_carry_the_message_of_the_parser() {
    assert_eq!(
        Json::parse("[1,").unwrap_err(),
        "EOF while parsing a value at line 1 column 3"
    );
    assert_eq!(
        Json::parse("1 2").unwrap_err(),
        "trailing characters at line 1 column 3"
    );
    let deep = "[".repeat(200) + &"]".repeat(200);
    assert!(Json::parse(&deep)
        .unwrap_err()
        .contains("recursion limit exceeded"));
}

#[test]
fn outside_values_are_copied() {
    let mut map = serde_json::Map::new();
    map.insert("on".to_string(), serde_json::Value::Bool(true));
    map.insert("level".to_string(), serde_json::Value::from(40));
    let copy = Json::from_value(&serde_json::Value::Object(map));
    assert_eq!(bool_under(&copy, "on"), Some(true));
    assert_eq!(u64_under(&copy, "level"), Some(40));
    assert_eq!(
        Json::from_value(&serde_json::Value::from(vec![1.5])),
        Json::Array(vec![Json::Number(JsonNumber::Double(double(1.5)))])
    );
}
