use bot_harness::json::{Fields, Json, Number};

#[test]
fn json_reads_and_writes() {
    for text in [
        "null",
        "true",
        "[1,-2,3.5,\"x\"]",
        r#"{"b":1,"a":{"c":[]},"é":"\n"}"#,
        "18446744073709551615",
        "1e300",
    ] {
        let v = Json::parse(text).unwrap();
        let value: serde_json::Value = serde_json::from_str(text).unwrap();
        assert_eq!(v.to_text(), value.to_string());
        assert_eq!(v.copy().to_text(), v.to_text());
        assert_eq!(v.to_value(), value);
        assert_eq!(Json::from_value(value).to_text(), v.to_text());
    }
    for text in ["", "{", "nul", "1 2", "{\"a\" 1}"] {
        assert!(Json::parse(text).is_none(), "{text}");
    }
}

#[test]
fn later_keys_count() {
    let v = Json::parse(r#"{"a": 1, "b": 2, "a": 3}"#).unwrap();
    assert_eq!(v.at("a").as_u64(), Some(3));
    assert_eq!(v.to_text(), r#"{"a":3,"b":2}"#);
}

#[test]
fn missing_values_are_null() {
    let v = Json::parse(r#"{"a": {"b": null}}"#).unwrap();
    assert!(v.at("a").at("b").is_null());
    assert!(v.at("a").at("b").at("c").is_null());
    assert!(v.at("x").at("y").is_null());
    assert!(v.at("a").get("b").is_some());
    assert!(v.at("a").get("c").is_none());
    assert!(Json::Null.get("c").is_none());
}

#[test]
fn numbers_keep_their_value() {
    for (text, unsigned, signed) in [
        ("7", Some(7), Some(7)),
        ("-7", None, Some(-7)),
        ("9223372036854775808", Some(9223372036854775808), None),
        ("1.0", None, None),
    ] {
        let v = Json::parse(text).unwrap();
        assert_eq!((v.as_u64(), v.as_i64()), (unsigned, signed), "{text}");
        assert_eq!(v.to_text(), text);
    }
    assert_eq!(Json::signed(-32601).to_text(), "-32601");
    assert_eq!(Json::signed(12).as_u64(), Some(12));
    assert_eq!(Number::from_u64(u64::MAX).as_text(), "18446744073709551615");
    assert_eq!(Json::opt_unsigned(None).to_text(), "null");
}

#[test]
fn fields_are_put_in_their_place() {
    let f = Fields::new()
        .with("a", Json::unsigned(1))
        .with("b", Json::text("x"))
        .with("a", Json::Bool(true));
    assert_eq!(f.len(), 2);
    assert_eq!((f.key(0), f.key(1)), ("a", "b"));
    assert_eq!(f.value(0).to_text(), "true");
    assert_eq!(Json::Object(f).to_text(), r#"{"a":true,"b":"x"}"#);
}
