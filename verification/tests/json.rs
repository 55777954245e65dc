use diaryx_sync_extism::json::{
    array, from_value, member, object, object_of, optional_member, parse, string, string_or_null,
    strings, unsigned, JsonNumber, JsonValue,
};

#[test]
fn parsing() {
    let value = parse("{\"b\": [1, -2, 2.5, true, null], \"a\": \"x\"}").unwrap();
    assert_eq!(value.get("a").unwrap().as_str(), Some("x"));
    assert_eq!(value.text("a"), Some("x".to_string()));
    assert_eq!(value.text("b"), None);
    let items = value.get("b").unwrap().as_array().unwrap();
    assert_eq!(items[0].as_u64(), Some(1));
    assert_eq!(items[0].as_i64(), Some(1));
    assert_eq!(items[1].as_u64(), None);
    assert_eq!(items[1].as_i64(), Some(-2));
    assert_eq!(items[2].as_u64(), None);
    assert_eq!(items[2].as_i64(), None);
    assert!(matches!(items[2], JsonValue::Number(JsonNumber::Float(_))));
    assert_eq!(items[3], JsonValue::Bool(true));
    assert!(items[4].is_null());
    assert!(value.get("c").is_none());
    assert!(parse("17").unwrap().get("a").is_none());
    assert_eq!(parse("18446744073709551615").unwrap().as_i64(), None);
}

#[test]
fn members_stand_in_order() {
    match parse("{\"b\": 1, \"a\": 2, \"b\": 3}").unwrap() {
        JsonValue::Object(members) => {
            let keys: Vec<&str> = members.iter().map(|m| m.0.as_str()).collect();
            assert_eq!(keys, vec!["a", "b"]);
            assert_eq!(members[1].1.as_u64(), Some(3));
        }
        other => panic!("{other:?}"),
    }
}

#[test]
fn parse_errors_have_the_message_of_the_parser() {
    for bad in ["", "{", "[1,]", "nul"] {
        let expected = serde_json::from_str::<serde_json::Value>(bad)
            .unwrap_err()
            .to_string();
        assert_eq!(parse(bad).unwrap_err(), expected);
    }
}

#[test]
fn writing() {
    let value = object(vec![
        member("a", string("q\"")),
        member("b", array(vec![unsigned(3), JsonValue::Null])),
        member("c", JsonValue::Bool(false)),
    ]);
    assert_eq!(value.into_text(), "{\"a\":\"q\\\"\",\"b\":[3,null],\"c\":false}");
    assert_eq!(strings(&vec!["x".to_string()]).into_text(), "[\"x\"]");
    assert_eq!(string_or_null(&None).into_text(), "null");
    assert_eq!(string_or_null(&Some("s".to_string())).into_text(), "\"s\"");
    assert_eq!(
        object_of(vec![
            optional_member("a", None),
            optional_member("b", Some(unsigned(1))),
        ])
        .into_text(),
        "{\"b\":1}"
    );
}

#[test]
fn values_survive_both_ways() {
    let text = "{\"a\":[1,-2,2.5,\"s\",true,null],\"b\":{\"c\":{}}}";
    let value: serde_json::Value = serde_json::from_str(text).unwrap();
    let back = from_value(value.clone()).into_value();
    assert_eq!(back, value);
    assert_eq!(parse(text).unwrap().into_text(), text);
}

#[test]
fn members_can_be_taken_out() {
    let value = parse("{\"a\": {\"b\": 1}}").unwrap();
    assert_eq!(value.into_member("a").unwrap().get("b").unwrap().as_u64(), Some(1));
    assert!(parse("{}").unwrap().into_member("a").is_none());
    assert!(parse("[]").unwrap().into_member("a").is_none());
}
