//! JSON values, their text, and texts that break off.
use otter_ai::json::{clone_json, same_json, Json, Number};
use otter_ai::json_parse::{
    add_quoted_string_tail, complete_array, complete_object, parse_partial_json,
};
use otter_ai::json_text::{parse_json, parse_json_bytes, print_json, print_json_debug, print_json_pretty};

fn json(text: &str) -> Json {
    parse_json(text).ok().unwrap()
}

#[test]
fn text_is_read_and_written() {
    let v = json("{\"b\":[1,-2,2.5,\"x\\n\",true,null],\"a\":{}}");
    assert_eq!(print_json(&v), "{\"a\":{},\"b\":[1,-2,2.5,\"x\\n\",true,null]}");
    let b = v.get("b").and_then(|b| b.as_array()).unwrap();
    assert!(matches!(b[0], Json::Number(Number::Unsigned(1))));
    assert!(matches!(b[1], Json::Number(Number::Negative(-2))));
    match &b[2] {
        Json::Number(Number::Decimal(d)) => assert_eq!(d, "2.5"),
        _ => panic!("expected a decimal"),
    }
    assert!(same_json(&json(&print_json(&v)), &v));
    assert!(same_json(&json(&print_json_pretty(&v)), &v));
    assert!(same_json(&clone_json(&v), &v));
}

#[test]
fn numbers_are_the_same_by_their_value() {
    let dec = |t: &str| Json::Number(Number::Decimal(t.into()));
    assert!(same_json(&json("-0.0"), &json("0.0")));
    assert!(same_json(&json("[-0.0,1]"), &json("[0.0,1]")));
    assert!(same_json(&dec("1.50"), &dec("1.5")));
    assert!(same_json(&dec("NaN"), &Json::Null));
    assert!(!same_json(&json("1.5"), &json("-1.5")));
    assert!(!same_json(&json("0.0"), &json("0")));
    assert!(!same_json(&json("1"), &json("1.0")));
    assert!(!same_json(&json("0.0"), &Json::Null));
    assert!(same_json(&json("-3"), &json("-3")));
    assert!(!same_json(&json("3"), &json("-3")));
}

#[test]
fn pretty_text_has_lines() {
    assert_eq!(print_json_pretty(&json("{\"a\":[1]}")), "{\n  \"a\": [\n    1\n  ]\n}");
    assert_eq!(print_json_debug(&json("{\"a\":[1]}")), "Object {\"a\": Array [Number(1)]}");
}

#[test]
fn bad_text_is_refused_with_a_message() {
    assert!(parse_json("{").err().unwrap().contains("EOF while parsing"));
    assert!(parse_json_bytes(b"[1,]").err().unwrap().contains("trailing comma"));
    assert_eq!(print_json(&parse_json_bytes(b"[1,2]").ok().unwrap()), "[1,2]");
}

#[test]
fn later_field_counts() {
    assert_eq!(print_json(&json("{\"a\":1,\"a\":2}")), "{\"a\":2}");
    let mut v = Json::object();
    v.set("a", Json::unsigned(1));
    v.set("a", Json::unsigned(3));
    assert_eq!(print_json(&v), "{\"a\":3}");
    assert_eq!(v.field_u64("a"), Some(3));
    assert_eq!(print_json(&v.without("a")), "{}");
    assert_eq!(json("{\"z\":1,\"m\":2}").first_key().as_deref(), Some("m"));
}

#[test]
fn broken_text_is_completed() {
    assert_eq!(print_json(&parse_partial_json("{\"a\":1").unwrap()), "{\"a\":1}");
    assert_eq!(print_json(&parse_partial_json("[1,2").unwrap()), "[1,2]");
    assert_eq!(print_json(&parse_partial_json("{\"a\":[1,").unwrap()), "{\"a\":[1]}");
    assert_eq!(print_json(&parse_partial_json("{\"a\":\"x").unwrap()), "{\"a\":\"x\"}");
    assert_eq!(
        print_json(&parse_partial_json("{\"a\":[1,{\"b\":2").unwrap()),
        "{\"a\":[1,{\"b\":2}]}"
    );
    assert_eq!(print_json(&parse_partial_json("[{\"a\":1").unwrap()), "[{\"a\":1}]");
    assert_eq!(print_json(&parse_partial_json("[[{\"a\":[\"x").unwrap()), "[[{\"a\":[\"x\"]}]]");
    assert_eq!(complete_object("[{\"a\":1"), "[{\"a\":1}]");
    assert_eq!(complete_object("[{\"a\":1}]"), "[{\"a\":1}]");
    assert_eq!(complete_object(&complete_object("{\"a\":[\"b\", ")), "{\"a\":[\"b\"]}");
    assert_eq!(parse_partial_json("{\"a\":\"x\\").unwrap().field_str("a"), Some("x\""));
    assert_eq!(print_json(&parse_partial_json("{\"a\":1}").unwrap()), "{\"a\":1}");
    assert_eq!(print_json(&parse_partial_json("").unwrap()), "\"\"");
    assert!(parse_partial_json("}").is_none());
    assert_eq!(complete_object("{\"a\":{"), "{\"a\":{}}");
    assert_eq!(complete_array("[[1"), "[[1]]");
    assert_eq!(add_quoted_string_tail("\"ab"), "\"ab\"");
}
