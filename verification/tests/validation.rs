//! The arguments of tools, checked against their schemas.
use otter_ai::json::Json;
use otter_ai::json_text::{parse_json, print_json};
use otter_ai::types::Tool;
use otter_ai::validation::{
    coerce_union, coerce_value, is_nullable, matches_type, number_from, string_enum_schema,
    tool_from_schema, try_coerce_single, validate_tool_arguments,
};
use otter_ai::wire::blocks;

fn json(text: &str) -> Json {
    parse_json(text).ok().unwrap()
}

fn tool(schema: &str) -> Tool {
    tool_from_schema("t", None, json(schema))
}

fn checked(schema: &str, arguments: &str) -> Result<String, String> {
    validate_tool_arguments(&tool(schema), &json(arguments)).map(|v| print_json(&v))
}

fn turned(t: &str, value: &str) -> Option<String> {
    try_coerce_single(t, &json(value)).map(|v| print_json(&v))
}

#[test]
fn arguments_are_an_object() {
    let refused = Err("Validation failed: arguments must be an object".to_string());
    assert_eq!(checked("{}", "[1]"), refused);
    assert_eq!(checked("{}", "null"), refused);
    assert_eq!(checked("{}", "{\"a\":[null]}"), Ok("{\"a\":[null]}".to_string()));
    let t = tool("{}");
    assert_eq!(blocks::validate_tool_arguments(&t, &json("{}")), Ok(()));
    assert_eq!(
        blocks::validate_tool_arguments(&t, &json("3")),
        Err("tool arguments must be a JSON object".to_string())
    );
}

#[test]
fn numbers_are_made_of_texts_and_flags() {
    assert_eq!(turned("number", "\"42\""), Some("42".to_string()));
    assert_eq!(turned("number", "\"42.1\""), Some("42.1".to_string()));
    assert_eq!(turned("number", "\"4.2e1\""), Some("42".to_string()));
    assert_eq!(turned("number", "\"-0\""), Some("0".to_string()));
    assert_eq!(turned("number", "\"1e30\""), Some("1e+30".to_string()));
    assert_eq!(turned("number", "\"9223372036854775808\""), Some("9223372036854775807".to_string()));
    assert_eq!(turned("number", "\"-9223372036854775808\""), Some("-9223372036854775808".to_string()));
    assert_eq!(turned("number", "\"inf\""), Some("null".to_string()));
    assert_eq!(turned("number", "\"NaN\""), Some("null".to_string()));
    assert_eq!(turned("number", "true"), Some("1".to_string()));
    assert_eq!(turned("number", "false"), Some("0".to_string()));
    assert_eq!(turned("number", "null"), Some("0".to_string()));
    assert_eq!(turned("number", "1.5"), Some("1.5".to_string()));
    assert_eq!(turned("number", "\"x\""), None);
    assert_eq!(turned("number", "[]"), None);
}

#[test]
fn number_is_whole_where_its_digits_read_back() {
    let whole = number_from(
        Some(Some("7.0".to_string())),
        Some("7".to_string()),
        Some(Some("7.0".to_string())),
    );
    assert_eq!(print_json(&whole.unwrap()), "7");
    let half = number_from(
        Some(Some("7.5".to_string())),
        Some("8".to_string()),
        Some(Some("8.0".to_string())),
    );
    assert_eq!(print_json(&half.unwrap()), "7.5");
    assert!(number_from(None, None, None).is_none());
    assert!(matches!(number_from(Some(None), None, None), Some(Json::Null)));
}

#[test]
fn integers_are_made_of_whole_texts_only() {
    assert_eq!(turned("integer", "\"42\""), Some("42".to_string()));
    assert_eq!(turned("integer", "\"+7\""), Some("7".to_string()));
    assert_eq!(turned("integer", "\"-7\""), Some("-7".to_string()));
    assert_eq!(turned("integer", "\"42.1\""), None);
    assert_eq!(turned("integer", "\"\""), None);
    assert_eq!(turned("integer", "\"-\""), None);
    assert_eq!(turned("integer", "\"9223372036854775807\""), Some("9223372036854775807".to_string()));
    assert_eq!(turned("integer", "\"9223372036854775808\""), None);
    assert_eq!(turned("integer", "true"), Some("1".to_string()));
    assert_eq!(turned("integer", "null"), Some("0".to_string()));
    assert_eq!(turned("integer", "3"), Some("3".to_string()));
    assert_eq!(turned("integer", "3.5"), None);
}

#[test]
fn flags_texts_and_nulls() {
    assert_eq!(turned("boolean", "\"true\""), Some("true".to_string()));
    assert_eq!(turned("boolean", "\"false\""), Some("false".to_string()));
    assert_eq!(turned("boolean", "\"1\""), None);
    assert_eq!(turned("boolean", "\"0\""), None);
    assert_eq!(turned("boolean", "1"), Some("true".to_string()));
    assert_eq!(turned("boolean", "1.0"), Some("true".to_string()));
    assert_eq!(turned("boolean", "0"), Some("false".to_string()));
    assert_eq!(turned("boolean", "-0.0"), Some("false".to_string()));
    assert_eq!(turned("boolean", "2"), None);
    assert_eq!(turned("string", "null"), Some("\"\"".to_string()));
    assert_eq!(turned("string", "true"), Some("\"true\"".to_string()));
    assert_eq!(turned("string", "3"), None);
    assert_eq!(turned("null", "\"\""), Some("null".to_string()));
    assert_eq!(turned("null", "0"), Some("null".to_string()));
    assert_eq!(turned("null", "false"), Some("null".to_string()));
    assert_eq!(turned("null", "\"null\""), None);
    assert_eq!(turned("null", "true"), None);
    assert_eq!(turned("array", "{}"), None);
    assert_eq!(turned("object", "{}"), Some("{}".to_string()));
    assert_eq!(turned("date", "5"), Some("5".to_string()));
}

#[test]
fn value_of_a_type_is_kept() {
    let schema = json("{\"type\":[\"number\",\"string\"]}");
    assert_eq!(print_json(&coerce_value(&schema, &json("\"1\"")).ok().unwrap()), "\"1\"");
    assert!(matches_type("integer", &json("1.5")));
    assert!(!matches_type("date", &json("1")));
}

#[test]
fn first_type_that_takes_the_value_counts() {
    let schema = json("{\"type\":[\"boolean\",\"integer\"]}");
    assert_eq!(print_json(&coerce_value(&schema, &json("\"7\"")).ok().unwrap()), "7");
    assert_eq!(
        coerce_value(&schema, &json("\"x\"")).err().unwrap(),
        "value String(\"x\") does not match any of [\"boolean\", \"integer\"]"
    );
}

#[test]
fn arms_of_unions_never_make_null() {
    let arms = json("[{\"type\":\"null\"},{\"type\":\"integer\"}]");
    let arms = arms.as_array().unwrap();
    assert_eq!(print_json(&coerce_union(arms, &json("null")).ok().unwrap()), "null");
    assert_eq!(print_json(&coerce_union(arms, &json("false")).ok().unwrap()), "0");
    assert_eq!(
        coerce_union(arms, &json("\"\"")).err().unwrap(),
        "value String(\"\") does not match any union arm"
    );
}

#[test]
fn unwanted_null_is_left_out() {
    let schema = "{\"properties\":{\"a\":{\"type\":\"string\"},\"b\":{\"type\":[\"string\",\"null\"]},\
                  \"c\":{\"anyOf\":[{\"type\":\"string\"},{\"type\":\"null\"}]},\"d\":{\"type\":\"string\"}},\
                  \"required\":[\"d\"]}";
    assert_eq!(
        checked(schema, "{\"a\":null,\"b\":null,\"c\":null,\"d\":null,\"e\":null}"),
        Ok("{\"b\":null,\"c\":null,\"d\":\"\",\"e\":null}".to_string())
    );
    assert!(is_nullable(&json("{\"oneOf\":[{\"anyOf\":[{\"type\":\"null\"}]}]}")));
    assert!(!is_nullable(&json("{\"type\":\"string\"}")));
}

#[test]
fn nested_objects_follow_their_schemas() {
    let schema = "{\"properties\":{\"o\":{\"type\":\"object\",\"properties\":{\"n\":{\"type\":\"integer\"}}}}}";
    assert_eq!(checked(schema, "{\"o\":{\"n\":\"5\",\"m\":null}}"), Ok("{\"o\":{\"m\":null,\"n\":5}}".to_string()));
    assert_eq!(
        checked(schema, "{\"o\":{\"n\":\"x\"}}"),
        Err("Validation failed: o: Validation failed: n: value String(\"x\") does not match any of [\"integer\"]"
            .to_string())
    );
}

#[test]
fn first_failure_by_name_is_told() {
    let schema = "{\"properties\":{\"b\":{\"type\":\"integer\"},\"a\":{\"type\":\"boolean\"}}}";
    assert_eq!(
        checked(schema, "{\"b\":\"x\",\"a\":\"y\"}"),
        Err("Validation failed: a: value String(\"y\") does not match any of [\"boolean\"]".to_string())
    );
}

#[test]
fn references_are_followed() {
    let schema = "{\"properties\":{\"a\":{\"$ref\":\"#/$defs/x\"},\"b\":{\"$ref\":\"#/$defs/gone\"}},\
                  \"$defs\":{\"x\":{\"$ref\":\"#/$defs/y\"},\"y\":{\"type\":\"integer\"}}}";
    assert_eq!(checked(schema, "{\"a\":\"3\",\"b\":\"4\"}"), Ok("{\"a\":3,\"b\":\"4\"}".to_string()));
    let old = "{\"properties\":{\"a\":{\"$ref\":\"#/definitions/x\"}},\"definitions\":{\"x\":{\"type\":\"integer\"}}}";
    assert_eq!(checked(old, "{\"a\":\"3\"}"), Ok("{\"a\":3}".to_string()));
    let endless = "{\"properties\":{\"a\":{\"$ref\":\"#/$defs/x\"}},\"$defs\":{\"x\":{\"$ref\":\"#/$defs/x\"}}}";
    assert_eq!(
        checked(endless, "{\"a\":\"3\"}"),
        Err("Validation failed: a: schema references itself without end".to_string())
    );
}

#[test]
fn enum_schema_has_only_what_is_given() {
    assert_eq!(
        print_json(&string_enum_schema(&["a", "b"], None, None)),
        "{\"enum\":[\"a\",\"b\"],\"type\":\"string\"}"
    );
}

#[test]
fn second_validation_changes_nothing() {
    let schema = "{\"type\":\"object\",\"required\":[\"n\"],\"properties\":{\
        \"n\":{\"type\":\"number\"},\"s\":{\"type\":\"string\"},\"b\":{\"type\":[\"boolean\",\"null\"]},\
        \"u\":{\"anyOf\":[{\"type\":\"integer\"},{\"type\":\"null\"}]},\"z\":{\"type\":\"null\"},\
        \"o\":{\"type\":\"object\",\"properties\":{\"k\":{\"type\":\"integer\"}}}}}";
    for arguments in [
        "{\"n\":\"4.5\",\"s\":null,\"b\":\"true\",\"u\":\"7\",\"z\":\"\",\"o\":{\"k\":true,\"l\":null}}",
        "{\"n\":null,\"s\":true,\"b\":null,\"u\":null,\"z\":0,\"o\":{\"k\":null}}",
        "{\"extra\":[null,\"inf\"],\"b\":0}",
    ] {
        let once = checked(schema, arguments).unwrap();
        assert_eq!(checked(schema, &once), Ok(once.clone()));
    }
    assert_eq!(
        checked(schema, "{\"n\":null,\"s\":null,\"other\":null}"),
        Ok("{\"n\":0,\"other\":null}".to_string())
    );
    // a number that is not finite becomes null, and that is then left out
    let loose = "{\"properties\":{\"n\":{\"type\":\"number\"}}}";
    assert_eq!(checked(loose, "{\"n\":\"inf\"}"), Ok("{\"n\":null}".to_string()));
    assert_eq!(checked(loose, "{\"n\":null}"), Ok("{}".to_string()));
}
