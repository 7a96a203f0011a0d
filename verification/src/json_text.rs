//! Reading and writing JSON text, by way of `serde_json`.
use serde_json::Value;
use vstd::prelude::*;
use crate::json::{Json, JsonView, Number, NumberView};
use crate::views;

verus! {

#[verifier::external_type_specification]
#[verifier::external_body]
pub struct ExValue(Value);

/// What a `serde_json::Value` holds.
pub uninterp spec fn value_contents(value: Value) -> JsonView;

/// What `serde_json::from_str` makes of a text: a value, or the message of its
/// error.
pub uninterp spec fn json_of_text(text: Seq<char>) -> Result<JsonView, Seq<char>>;

/// What `serde_json::from_slice` makes of bytes: a value, or the message of its
/// error.
pub uninterp spec fn json_of_bytes(bytes: Seq<u8>) -> Result<JsonView, Seq<char>>;

/// The compact text that `serde_json` prints for a `Value`.
pub uninterp spec fn value_text(value: Value) -> Seq<char>;

/// The compact text of a JSON value, fields in the order of their names.
pub uninterp spec fn text_of_json(json: JsonView) -> Seq<char>;

/// A value that stands in a JSON text without nesting.
pub enum FlatView {
    Unsigned(u64),
    Text(Seq<char>),
}

/// A character that a JSON string holds as it is.
pub open spec fn is_plain_char(c: char) -> bool {
    c as int >= 0x20 && c != '"' && c != '\\'
}

/// A text that a JSON string holds as it is.
pub open spec fn is_plain(s: Seq<char>) -> bool {
    forall|i: int| 0 <= i < s.len() ==> is_plain_char(#[trigger] s[i])
}

/// `s` between quotation marks.
pub open spec fn quoted(s: Seq<char>) -> Seq<char> {
    seq!['"'] + s + seq!['"']
}

pub open spec fn flat_value_text(v: FlatView) -> Seq<char> {
    match v {
        FlatView::Unsigned(n) => crate::text::decimal_text(n as nat),
        FlatView::Text(s) => quoted(s),
    }
}

/// The text of the fields of a flat object, separated by commas.
pub open spec fn flat_fields_text(fields: Seq<(Seq<char>, FlatView)>) -> Seq<char>
    decreases fields.len(),
{
    if fields.len() == 0 {
        Seq::empty()
    } else {
        let field = quoted(fields.last().0) + seq![':'] + flat_value_text(fields.last().1);
        if fields.len() == 1 {
            field
        } else {
            flat_fields_text(fields.drop_last()) + seq![','] + field
        }
    }
}

/// The text of a flat object.
pub open spec fn flat_text(fields: Seq<(Seq<char>, FlatView)>) -> Seq<char> {
    seq!['{'] + flat_fields_text(fields) + seq!['}']
}

/// The object that [`flat_text`] writes down.
pub open spec fn flat_object(fields: Seq<(Seq<char>, FlatView)>) -> JsonView
    decreases fields.len(),
{
    if fields.len() == 0 {
        JsonView::object()
    } else {
        flat_object(fields.drop_last()).with(
            fields.last().0,
            match fields.last().1 {
                FlatView::Unsigned(n) => crate::json::junsigned(n),
                FlatView::Text(s) => crate::json::jtext(s),
            },
        )
    }
}

/// Whether every name and every text of a flat object is plain.
pub open spec fn is_plain_flat(fields: Seq<(Seq<char>, FlatView)>) -> bool {
    forall|i: int|
        0 <= i < fields.len() ==> is_plain((#[trigger] fields[i]).0) && (fields[i].1 matches FlatView::Text(s)
            ==> is_plain(s))
}

/// Reads a text with `serde_json::from_str`. The outcome is that of
/// [`json_of_text`]; on the text of a flat object whose names and strings need
/// no escape it is that object.
#[verifier::external_body]
fn read_value(text: &str) -> (r: Result<Value, String>)
    ensures
        match r {
            Ok(v) => json_of_text(text@) == Ok::<JsonView, Seq<char>>(value_contents(v)),
            Err(e) => json_of_text(text@) == Err::<JsonView, Seq<char>>(e@),
        },
        forall|fields: Seq<(Seq<char>, FlatView)>|
            is_plain_flat(fields) && text@ == #[trigger] flat_text(fields) ==> r is Ok
                && value_contents(r->Ok_0) == flat_object(fields),
{
    serde_json::from_str(text).map_err(|e: serde_json::Error| e.to_string())
}

/// Reads bytes with `serde_json::from_slice`.
#[verifier::external_body]
fn read_value_bytes(bytes: &[u8]) -> (r: Result<Value, String>)
    ensures
        match r {
            Ok(v) => json_of_bytes(bytes@) == Ok::<JsonView, Seq<char>>(value_contents(v)),
            Err(e) => json_of_bytes(bytes@) == Err::<JsonView, Seq<char>>(e@),
        },
{
    serde_json::from_slice(bytes).map_err(|e: serde_json::Error| e.to_string())
}

/// Takes a `serde_json::Value` apart, variant by variant. A number that is no
/// integer is kept as the text that `serde_json` prints for it.
#[verifier::external_body]
fn json_from_value(value: Value) -> (r: Json)
    ensures
        r@ == value_contents(value),
{
    match value {
        Value::Null => Json::Null,
        Value::Bool(b) => Json::Bool(b),
        Value::Number(n) => Json::Number(match (n.as_u64(), n.as_i64()) {
            (Some(u), _) => Number::Unsigned(u),
            (None, Some(i)) => Number::Negative(i),
            (None, None) => Number::Decimal(n.to_string()),
        }),
        Value::String(s) => Json::Str(s),
        Value::Array(v) => Json::Array(v.into_iter().map(json_from_value).collect()),
        Value::Object(m) => Json::Object(
            m.into_iter().map(|(k, v)| (k, json_from_value(v))).collect()),
    }
}

/// Whether a value reads back as it was printed: it holds no number with a
/// fraction, and is not nested deeper than `serde_json` reads.
pub open spec fn is_exact(v: JsonView, depth: nat) -> bool
    decreases depth,
{
    match v {
        JsonView::Number(NumberView::Negative(n)) => n < 0,
        JsonView::Number(NumberView::Decimal(_)) => false,
        JsonView::Array(items) => depth > 0 && forall|i: int|
            0 <= i < items.len() ==> is_exact(#[trigger] items[i], (depth - 1) as nat),
        JsonView::Object(m) => depth > 0 && forall|k: Seq<char>|
            #[trigger] m.contains_key(k) ==> is_exact(m[k], (depth - 1) as nat),
        _ => true,
    }
}

/// Builds the `serde_json::Value` that a value stands for, variant by variant.
/// Its printed texts depend on the meaning of the value alone: `serde_json`
/// keeps an object sorted by name, and a later field replaces an earlier one of
/// the same name. Integers and texts are kept as they are.
#[verifier::external_body]
fn value_from_json(json: &Json) -> (r: Value)
    ensures
        value_text(r) == text_of_json(json@),
        pretty_value_text(r) == pretty_text_of_json(json@),
        debug_value_text(r) == debug_text_of_json(json@),
        is_exact(json@, 127) ==> value_contents(r) == json@,
{
    match json {
        Json::Null => Value::Null,
        Json::Bool(b) => Value::Bool(*b),
        Json::Number(Number::Unsigned(n)) => Value::from(*n),
        Json::Number(Number::Negative(n)) => Value::from(*n),
        Json::Number(Number::Decimal(s)) => Value::from(s.parse().ok().and_then(serde_json::Number::from_f64)),
        Json::Str(s) => Value::String(s.clone()),
        Json::Array(v) => Value::Array(v.iter().map(value_from_json).collect()),
        Json::Object(m) => Value::Object(
            m.iter().map(|(k, v)| (k.clone(), value_from_json(v))).collect()),
    }
}

/// Prints a `serde_json::Value` compactly (its `Display`). What holds no number with
/// a fraction and is not nested deeper than `serde_json` reads is read back from
/// that text.
#[verifier::external_body]
fn write_value(value: &Value) -> (r: String)
    ensures
        r@ == value_text(*value),
        is_exact(value_contents(*value), 127) ==> json_of_text(r@) is Ok && json_of_text(r@)->Ok_0
            == value_contents(*value),
{
    value.to_string()
}

/// What `serde_json::to_string_pretty` makes of a value.
pub uninterp spec fn pretty_value_text(value: Value) -> Seq<char>;

/// The indented text of a value.
pub uninterp spec fn pretty_text_of_json(json: JsonView) -> Seq<char>;

/// Prints a value over several lines with `serde_json::to_string_pretty`, which does
/// not fail on a `serde_json::Value`. What holds no number with a fraction and is not
/// nested deeper than `serde_json` reads is read back from that text.
#[verifier::external_body]
fn write_value_pretty(value: &Value) -> (r: String)
    ensures
        r@ == pretty_value_text(*value),
        is_exact(value_contents(*value), 127) ==> json_of_text(r@) is Ok && json_of_text(r@)->Ok_0
            == value_contents(*value),
{
    serde_json::to_string_pretty(value).unwrap_or_default()
}

/// Reads a JSON text.
pub fn parse_json(text: &str) -> (r: Result<Json, String>)
    ensures
        match r {
            Ok(j) => json_of_text(text@) == Ok::<JsonView, Seq<char>>(j@),
            Err(e) => json_of_text(text@) == Err::<JsonView, Seq<char>>(e@),
        },
        forall|fields: Seq<(Seq<char>, FlatView)>|
            is_plain_flat(fields) && text@ == #[trigger] flat_text(fields) ==> r is Ok && r->Ok_0@
                == flat_object(fields),
{
    match read_value(text) {
        Ok(v) => Ok(json_from_value(v)),
        Err(e) => Err(e),
    }
}

/// Reads JSON bytes.
pub fn parse_json_bytes(bytes: &[u8]) -> (r: Result<Json, String>)
    ensures
        match r {
            Ok(j) => json_of_bytes(bytes@) == Ok::<JsonView, Seq<char>>(j@),
            Err(e) => json_of_bytes(bytes@) == Err::<JsonView, Seq<char>>(e@),
        },
{
    match read_value_bytes(bytes) {
        Ok(v) => Ok(json_from_value(v)),
        Err(e) => Err(e),
    }
}

/// What the `Debug` of a `serde_json::Value` prints.
pub uninterp spec fn debug_value_text(value: Value) -> Seq<char>;

/// A value as a diagnostic shows it.
pub uninterp spec fn debug_text_of_json(json: JsonView) -> Seq<char>;

/// Prints a `serde_json::Value` with its `Debug`.
#[verifier::external_body]
fn write_value_debug(value: &Value) -> (r: String)
    ensures
        r@ == debug_value_text(*value),
{
    format!("{:?}", value)
}

/// Writes a value as a diagnostic shows it.
pub fn print_json_debug(json: &Json) -> (r: String)
    ensures
        r@ == debug_text_of_json(json@),
{
    let value = value_from_json(json);
    write_value_debug(&value)
}

/// Writes a value as compact JSON text.
pub fn print_json(json: &Json) -> (r: String)
    ensures
        r@ == text_of_json(json@),
        is_exact(json@, 127) ==> json_of_text(r@) is Ok && json_of_text(r@)->Ok_0 == json@,
{
    let value = value_from_json(json);
    write_value(&value)
}

/// Writes a value as JSON text over several lines.
pub fn print_json_pretty(json: &Json) -> (r: String)
    ensures
        r@ == pretty_text_of_json(json@),
        is_exact(json@, 127) ==> json_of_text(r@) is Ok && json_of_text(r@)->Ok_0 == json@,
{
    let value = value_from_json(json);
    write_value_pretty(&value)
}

/// A number as a double, in the text that `serde_json` prints for that; none
/// where it is no finite double.
pub uninterp spec fn double_of_number(n: NumberView) -> Option<Seq<char>>;

/// Reads a number as a double with `serde_json::Number::as_f64`, and prints
/// that double.
#[verifier::external_body]
pub(crate) fn number_as_double(n: &Number) -> (r: Option<String>)
    ensures
        views::opt(r) == double_of_number(n@),
{
    let double = match n {
        Number::Unsigned(u) => serde_json::Number::from(*u).as_f64(),
        Number::Negative(i) => serde_json::Number::from(*i).as_f64(),
        Number::Decimal(s) => s.parse().ok(),
    };
    double.and_then(serde_json::Number::from_f64).map(|d| d.to_string())
}

} // verus!
