//! The arguments of tools, checked against the schemas of the tools.
use vstd::prelude::*;
use crate::json;
use crate::json::{clone_json, Json, JsonView, Number, NumberView};
use crate::json_text;
use crate::json_text::{number_as_double, print_json_debug};
use crate::text;
use crate::text::{chars_of, concat, concat3, is_one_of, same_text, split_last_at, text_at_most};
use crate::types::{Tool, ToolView};
use crate::views;

verus! {

broadcast use crate::views::group_views;

/// A tool whose arguments follow a schema.
pub fn tool_from_schema(name: &str, description: Option<String>, schema: Json) -> (r: Tool)
    ensures
        r@ == (ToolView {
            name: name@,
            description: views::opt(description),
            parameters: schema@,
            constrained_sampling: None,
        }),
{
    Tool { name: name.to_owned(), description, parameters: schema, constrained_sampling: None }
}

/// Texts as an array.
pub open spec fn texts_array(values: Seq<&str>) -> JsonView {
    JsonView::Array(values.map_values(|s: &str| json::jtext(s@)))
}

/// The schema of a text that is one of some.
pub open spec fn enum_schema(
    values: Seq<&str>,
    description: Option<Seq<char>>,
    default: Option<Seq<char>>,
) -> JsonView {
    JsonView::object().with("type"@, json::jtext("string"@)).with(
        "enum"@,
        texts_array(values),
    ).with_opt(
        "description"@,
        match description {
            Some(d) => Some(json::jtext(d)),
            None => None,
        },
    ).with_opt(
        "default"@,
        match default {
            Some(d) => Some(json::jtext(d)),
            None => None,
        },
    )
}

/// The schema of a text that is one of some.
pub fn string_enum_schema(
    values: &[&str],
    description: Option<&str>,
    default: Option<&str>,
) -> (r: Json)
    ensures
        r@ == enum_schema(values@, views::opt(description), views::opt(default)),
{
    let mut items: Vec<Json> = Vec::new();
    let mut i: usize = 0;
    while i < values.len()
        invariant
            i <= values@.len(),
            items@.len() == i,
            forall|j: int|
                0 <= j < i ==> #[trigger] views::all(items@)[j] == json::jtext(values@[j]@),
        decreases values@.len() - i,
    {
        let ghost before = views::all(items@);
        items.push(Json::text(values[i]));
        assert(forall|j: int| 0 <= j < i ==> #[trigger] views::all(items@)[j] == before[j]);
        i = i + 1;
    }
    assert(views::all(items@) =~= values@.map_values(|s: &str| json::jtext(s@)));
    let mut out: Json = Json::object().with("type", Json::text("string")).with(
        "enum",
        Json::array(items),
    );
    if let Some(d) = description {
        out.set("description", Json::text(d));
    }
    if let Some(d) = default {
        out.set("default", Json::text(d));
    }
    out
}

/// The texts of an array, what is no text left out.
pub open spec fn texts_in(items: Seq<JsonView>) -> Seq<Seq<char>>
    decreases items.len(),
{
    if items.len() == 0 {
        Seq::empty()
    } else {
        let before = texts_in(items.drop_last());
        match items.last().text() {
            Some(s) => before.push(s),
            None => before,
        }
    }
}

fn texts_in_exec(items: &Vec<Json>) -> (r: Vec<String>)
    ensures
        views::all(r@) == texts_in(views::all(items@)),
{
    let ghost all = views::all(items@);
    let mut out: Vec<String> = Vec::new();
    let mut i: usize = 0;
    while i < items.len()
        invariant
            i <= items@.len(),
            all == views::all(items@),
            views::all(out@) == texts_in(all.take(i as int)),
        decreases items@.len() - i,
    {
        proof {
            views::lemma_take_step(all, i as int);
        }
        if let Some(s) = items[i].as_str() {
            out.push(s.to_owned());
        }
        i = i + 1;
    }
    proof {
        views::lemma_take_all(all);
    }
    out
}

/// The types that a schema allows.
pub open spec fn types_of(schema: JsonView) -> Seq<Seq<char>> {
    match schema.get("type"@) {
        Some(JsonView::Str(s)) => seq![s],
        Some(JsonView::Array(items)) => texts_in(items),
        _ => Seq::empty(),
    }
}

/// The types that a schema allows.
pub fn get_types(schema: &Json) -> (r: Vec<String>)
    ensures
        views::all(r@) == types_of(schema@),
{
    match schema.get("type") {
        Some(t) => {
            if let Some(s) = t.as_str() {
                let mut one: Vec<String> = Vec::new();
                one.push(s.to_owned());
                assert(views::all(one@) =~= seq![s@]);
                return one;
            }
            if let Some(items) = t.as_array() {
                return texts_in_exec(items);
            }
            Vec::new()
        },
        None => Vec::new(),
    }
}

/// Whether a value is of a type.
pub open spec fn is_of_type(t: Seq<char>, v: JsonView) -> bool {
    if t == "number"@ || t == "integer"@ {
        v is Number
    } else if t == "boolean"@ {
        v is Bool
    } else if t == "string"@ {
        v is Str
    } else if t == "null"@ {
        v is Null
    } else if t == "array"@ {
        v is Array
    } else if t == "object"@ {
        v is Object
    } else {
        false
    }
}

/// Whether a value is of a type.
pub fn matches_type(t: &str, v: &Json) -> (r: bool)
    ensures
        r == is_of_type(t@, v@),
{
    if same_text(t, "number") || same_text(t, "integer") {
        matches!(v, Json::Number(_))
    } else if same_text(t, "boolean") {
        matches!(v, Json::Bool(_))
    } else if same_text(t, "string") {
        matches!(v, Json::Str(_))
    } else if same_text(t, "null") {
        matches!(v, Json::Null)
    } else if same_text(t, "array") {
        matches!(v, Json::Array(_))
    } else if same_text(t, "object") {
        matches!(v, Json::Object(_))
    } else {
        false
    }
}

/// Whether a value is of one of some types.
pub open spec fn is_of_some_type(types: Seq<Seq<char>>, v: JsonView) -> bool {
    exists|i: int| 0 <= i < types.len() && is_of_type(#[trigger] types[i], v)
}

fn matches_some_type(types: &Vec<String>, v: &Json) -> (r: bool)
    ensures
        r == is_of_some_type(views::all(types@), v@),
{
    let ghost all = views::all(types@);
    let mut i: usize = 0;
    while i < types.len()
        invariant
            i <= types@.len(),
            all == views::all(types@),
            forall|j: int| 0 <= j < i ==> !is_of_type(#[trigger] all[j], v@),
        decreases types@.len() - i,
    {
        assert(types@[i as int]@ == all[i as int]);
        if matches_type(types[i].as_str(), v) {
            return true;
        }
        i = i + 1;
    }
    false
}

/// What a text is as a double: none where it is no number; where it is a finite one,
/// the text that `serde_json` prints for it.
pub uninterp spec fn double_text(s: Seq<char>) -> Option<Option<Seq<char>>>;

/// Reads a text as a double with `str::parse`, and prints a finite one as
/// `serde_json::Number::from_f64` has it.
#[verifier::external_body]
fn read_double(s: &str) -> (r: Option<Option<String>>)
    ensures
        match r {
            Some(d) => double_text(s@) == Some(views::opt(d)),
            None => double_text(s@) is None,
        },
{
    s.parse().ok().map(|d| serde_json::Number::from_f64(d).map(|n| n.to_string()))
}

/// The whole number nearest to a finite double, in digits.
pub uninterp spec fn rounded_text(s: Seq<char>) -> Option<Seq<char>>;

/// Reads a text as a double with `str::parse`, lets through what
/// `serde_json::Number::from_f64` takes, a finite one, and prints that with no digit
/// behind the point.
#[verifier::external_body]
fn round_double(s: &str) -> (r: Option<String>)
    ensures
        views::opt(r) == rounded_text(s@),
{
    s.parse().ok().and_then(serde_json::Number::from_f64).and_then(|n| n.as_f64()).map(
        |d| format!("{:.0}", d))
}

/// How a list of texts is shown in a diagnostic.
pub uninterp spec fn debug_text_of_texts(texts: Seq<Seq<char>>) -> Seq<char>;

/// Prints a list of texts with its `Debug`.
#[verifier::external_body]
fn print_texts_debug(texts: &Vec<String>) -> (r: String)
    ensures
        r@ == debug_text_of_texts(views::all(texts@)),
{
    format!("{:?}", texts)
}

/// The whole number that a text writes: digits, with a sign before them or not.
pub open spec fn whole_value(s: Seq<char>) -> Option<int> {
    let signed = s.len() > 0 && (s[0] == '-' || s[0] == '+');
    let digits = if signed {
        s.skip(1)
    } else {
        s
    };
    match text::digits_value(digits) {
        Some(n) => if digits.len() == 0 {
            None
        } else if signed && s[0] == '-' {
            Some(-(n as int))
        } else {
            Some(n as int)
        },
        None => None,
    }
}

/// The bound of the numbers that are read as whole ones.
pub const WHOLE_BOUND: i128 = 0x8000_0000_0000_0000;

/// The whole number that a text writes, where it is not beyond the bound.
fn read_whole(s: &str) -> (r: Option<i128>)
    ensures
        match whole_value(s@) {
            Some(n) => if -WHOLE_BOUND <= n <= WHOLE_BOUND {
                r is Some && r->0 == n
            } else {
                r is None
            },
            None => r is None,
        },
{
    let x: Vec<char> = chars_of(s);
    let signed: bool = x.len() > 0 && (x[0] == '-' || x[0] == '+');
    let minus: bool = x.len() > 0 && x[0] == '-';
    let from: usize = if signed {
        1
    } else {
        0
    };
    let ghost d = x@.skip(from as int);
    assert(!signed ==> d =~= s@);
    if from == x.len() {
        return None;
    }
    let mut n: i128 = 0;
    let mut i: usize = from;
    proof {
        views::lemma_take_all(d);
    }
    while i < x.len()
        invariant
            from <= i <= x@.len(),
            x@ == s@,
            d == x@.skip(from as int),
            signed == (s@.len() > 0 && (s@[0] == '-' || s@[0] == '+')),
            signed ==> d == s@.skip(1),
            !signed ==> d == s@,
            d.len() > 0,
            0 <= n <= WHOLE_BOUND,
            text::digits_value(d.take(i - from)) == Some(n as nat),
        decreases x@.len() - i,
    {
        proof {
            views::lemma_take_step(d, i - from);
            assert(d[i - from] == x@[i as int]);
        }
        let c: u32 = text::code_point(x[i]);
        if c < 48 || c > 57 {
            proof {
                text::lemma_digits_grow(d, i - from + 1);
            }
            return None;
        }
        n = 10 * n + ((c - 48) as i128);
        if n > WHOLE_BOUND {
            proof {
                text::lemma_digits_grow(d, i - from + 1);
            }
            return None;
        }
        i = i + 1;
    }
    proof {
        views::lemma_take_all(d);
    }
    if minus {
        Some(-n)
    } else {
        Some(n)
    }
}

/// A whole number as JSON.
pub open spec fn whole_json(n: int) -> JsonView {
    if n < 0 {
        JsonView::Number(NumberView::Negative(n as i64))
    } else {
        json::junsigned(n as u64)
    }
}

fn whole_json_exec(n: i64) -> (r: Json)
    ensures
        r@ == whole_json(n as int),
{
    if n < 0 {
        Json::Number(Number::Negative(n))
    } else {
        Json::unsigned(n as u64)
    }
}

/// A text as a number, given what it is as a double, the nearest whole number in
/// digits, and what that is as a double: a whole number is written without a fraction
/// where it fits, and what is not finite is none.
pub open spec fn number_given(
    double: Option<Option<Seq<char>>>,
    digits: Option<Seq<char>>,
    again: Option<Option<Seq<char>>>,
) -> Option<JsonView> {
    match double {
        None => None,
        Some(None) => Some(JsonView::Null),
        Some(Some(t)) => {
            let whole = match digits {
                Some(d) => if again == Some(Some(t)) {
                    whole_value(d)
                } else {
                    None
                },
                None => None,
            };
            match whole {
                Some(n) => if -WHOLE_BOUND <= n < WHOLE_BOUND {
                    Some(whole_json(n))
                } else if n == WHOLE_BOUND {
                    Some(whole_json(WHOLE_BOUND - 1))
                } else {
                    Some(JsonView::Number(NumberView::Decimal(t)))
                },
                None => Some(JsonView::Number(NumberView::Decimal(t))),
            }
        },
    }
}

/// What a double that may be missing means.
pub open spec fn opt_double(d: Option<Option<String>>) -> Option<Option<Seq<char>>> {
    match d {
        Some(o) => Some(views::opt(o)),
        None => None,
    }
}

/// A text as a number, given what it is as a double, the nearest whole number in
/// digits, and what that is as a double.
pub fn number_from(
    double: Option<Option<String>>,
    digits: Option<String>,
    again: Option<Option<String>>,
) -> (r: Option<Json>)
    ensures
        views::opt(r) == number_given(opt_double(double), views::opt(digits), opt_double(again)),
{
    match double {
        None => None,
        Some(None) => Some(Json::Null),
        Some(Some(t)) => {
            let same: bool = match &again {
                Some(Some(a)) => same_text(a.as_str(), t.as_str()),
                _ => false,
            };
            if same {
                if let Some(d) = &digits {
                    if let Some(n) = read_whole(d.as_str()) {
                        if n < WHOLE_BOUND {
                            return Some(whole_json_exec(n as i64));
                        }
                        return Some(whole_json_exec(i64::MAX));
                    }
                }
            }
            Some(Json::Number(Number::Decimal(t)))
        },
    }
}

/// A text as a number.
pub open spec fn number_of_text(s: Seq<char>) -> Option<JsonView> {
    let digits = rounded_text(s);
    number_given(
        double_text(s),
        digits,
        match digits {
            Some(d) => double_text(d),
            None => None,
        },
    )
}

fn number_of_text_exec(s: &str) -> (r: Option<Json>)
    ensures
        views::opt(r) == number_of_text(s@),
{
    let double: Option<Option<String>> = read_double(s);
    let digits: Option<String> = round_double(s);
    let again: Option<Option<String>> = match &digits {
        Some(d) => read_double(d.as_str()),
        None => None,
    };
    number_from(double, digits, again)
}

/// Whether a number is zero.
pub open spec fn is_zero(n: NumberView) -> bool {
    match n {
        NumberView::Unsigned(u) => u == 0,
        NumberView::Negative(i) => i == 0,
        NumberView::Decimal(_) => json_text::double_of_number(n) == Some("0.0"@)
            || json_text::double_of_number(n) == Some("-0.0"@),
    }
}

/// Whether a number is one.
pub open spec fn is_one(n: NumberView) -> bool {
    match n {
        NumberView::Unsigned(u) => u == 1,
        NumberView::Negative(i) => i == 1,
        NumberView::Decimal(_) => json_text::double_of_number(n) == Some("1.0"@),
    }
}

fn is_zero_exec(n: &Number) -> (r: bool)
    ensures
        r == is_zero(n@),
{
    match n {
        Number::Unsigned(u) => *u == 0,
        Number::Negative(i) => *i == 0,
        Number::Decimal(_) => match number_as_double(n) {
            Some(d) => same_text(d.as_str(), "0.0") || same_text(d.as_str(), "-0.0"),
            None => false,
        },
    }
}

fn is_one_exec(n: &Number) -> (r: bool)
    ensures
        r == is_one(n@),
{
    match n {
        Number::Unsigned(u) => *u == 1,
        Number::Negative(i) => *i == 1,
        Number::Decimal(_) => match number_as_double(n) {
            Some(d) => same_text(d.as_str(), "1.0"),
            None => false,
        },
    }
}

/// A value turned into one of a type; none where it cannot be. A type that is not
/// known takes every value.
pub open spec fn turned(t: Seq<char>, v: JsonView) -> Option<JsonView> {
    if t == "number"@ {
        match v {
            JsonView::Str(s) => number_of_text(s),
            JsonView::Bool(b) => Some(
                json::junsigned(
                    if b {
                        1
                    } else {
                        0
                    },
                ),
            ),
            JsonView::Null => Some(json::junsigned(0)),
            JsonView::Number(_) => Some(v),
            _ => None,
        }
    } else if t == "integer"@ {
        match v {
            JsonView::Str(s) => match whole_value(s) {
                Some(n) => if -WHOLE_BOUND <= n < WHOLE_BOUND {
                    Some(whole_json(n))
                } else {
                    None
                },
                None => None,
            },
            JsonView::Bool(b) => Some(
                json::junsigned(
                    if b {
                        1
                    } else {
                        0
                    },
                ),
            ),
            JsonView::Null => Some(json::junsigned(0)),
            JsonView::Number(NumberView::Decimal(_)) => None,
            JsonView::Number(_) => Some(v),
            _ => None,
        }
    } else if t == "boolean"@ {
        match v {
            JsonView::Str(s) => if s == "true"@ {
                Some(JsonView::Bool(true))
            } else if s == "false"@ {
                Some(JsonView::Bool(false))
            } else {
                None
            },
            JsonView::Number(n) => if is_one(n) {
                Some(JsonView::Bool(true))
            } else if is_zero(n) {
                Some(JsonView::Bool(false))
            } else {
                None
            },
            JsonView::Bool(_) => Some(v),
            _ => None,
        }
    } else if t == "string"@ {
        match v {
            JsonView::Null => Some(json::jtext(Seq::empty())),
            JsonView::Bool(b) => Some(
                json::jtext(
                    if b {
                        "true"@
                    } else {
                        "false"@
                    },
                ),
            ),
            JsonView::Str(_) => Some(v),
            _ => None,
        }
    } else if t == "null"@ {
        match v {
            JsonView::Str(s) => if s.len() == 0 {
                Some(JsonView::Null)
            } else {
                None
            },
            JsonView::Number(n) => if is_zero(n) {
                Some(JsonView::Null)
            } else {
                None
            },
            JsonView::Bool(b) => if b {
                None
            } else {
                Some(JsonView::Null)
            },
            JsonView::Null => Some(v),
            _ => None,
        }
    } else if t == "array"@ {
        if v is Array {
            Some(v)
        } else {
            None
        }
    } else if t == "object"@ {
        if v is Object {
            Some(v)
        } else {
            None
        }
    } else {
        Some(v)
    }
}

fn bit(b: bool) -> (r: Json)
    ensures
        r@ == json::junsigned(
            if b {
                1
            } else {
                0
            },
        ),
{
    if b {
        Json::unsigned(1)
    } else {
        Json::unsigned(0)
    }
}

fn turn_number(v: &Json) -> (r: Option<Json>)
    ensures
        views::opt(r) == turned("number"@, v@),
{
    match v {
        Json::Str(s) => number_of_text_exec(s.as_str()),
        Json::Bool(b) => Some(bit(*b)),
        Json::Null => Some(Json::unsigned(0)),
        Json::Number(_) => Some(clone_json(v)),
        _ => None,
    }
}

fn turn_integer(v: &Json) -> (r: Option<Json>)
    ensures
        "integer"@ != "number"@ ==> views::opt(r) == turned("integer"@, v@),
{
    match v {
        Json::Str(s) => match read_whole(s.as_str()) {
            Some(n) => if n < WHOLE_BOUND {
                Some(whole_json_exec(n as i64))
            } else {
                None
            },
            None => None,
        },
        Json::Bool(b) => Some(bit(*b)),
        Json::Null => Some(Json::unsigned(0)),
        Json::Number(Number::Decimal(_)) => None,
        Json::Number(_) => Some(clone_json(v)),
        _ => None,
    }
}

/// Turns a value into one of a type, where it can be.
pub fn try_coerce_single(t: &str, v: &Json) -> (r: Option<Json>)
    ensures
        views::opt(r) == turned(t@, v@),
{
    if same_text(t, "number") {
        turn_number(v)
    } else if same_text(t, "integer") {
        turn_integer(v)
    } else if same_text(t, "boolean") {
        match v {
            Json::Str(s) => if same_text(s.as_str(), "true") {
                Some(Json::Bool(true))
            } else if same_text(s.as_str(), "false") {
                Some(Json::Bool(false))
            } else {
                None
            },
            Json::Number(n) => if is_one_exec(n) {
                Some(Json::Bool(true))
            } else if is_zero_exec(n) {
                Some(Json::Bool(false))
            } else {
                None
            },
            Json::Bool(_) => Some(clone_json(v)),
            _ => None,
        }
    } else if same_text(t, "string") {
        match v {
            Json::Null => {
                let empty: String = String::new();
                assert(empty@ =~= Seq::<char>::empty());
                Some(Json::string(empty))
            },
            Json::Bool(b) => Some(
                Json::text(
                    if *b {
                        "true"
                    } else {
                        "false"
                    },
                ),
            ),
            Json::Str(_) => Some(clone_json(v)),
            _ => None,
        }
    } else if same_text(t, "null") {
        match v {
            Json::Str(s) => if s.as_str().is_empty() {
                Some(Json::Null)
            } else {
                None
            },
            Json::Number(n) => if is_zero_exec(n) {
                Some(Json::Null)
            } else {
                None
            },
            Json::Bool(b) => if *b {
                None
            } else {
                Some(Json::Null)
            },
            Json::Null => Some(Json::Null),
            _ => None,
        }
    } else if same_text(t, "array") {
        if matches!(v, Json::Array(_)) {
            Some(clone_json(v))
        } else {
            None
        }
    } else if same_text(t, "object") {
        if matches!(v, Json::Object(_)) {
            Some(clone_json(v))
        } else {
            None
        }
    } else {
        Some(clone_json(v))
    }
}

/// A value turned into the first of some types that takes it.
pub open spec fn turned_into_first(types: Seq<Seq<char>>, v: JsonView, skip_null: bool) -> Option<
    JsonView,
>
    decreases types.len(),
{
    if types.len() == 0 {
        None
    } else if skip_null && types[0] == "null"@ {
        turned_into_first(types.skip(1), v, skip_null)
    } else {
        match turned(types[0], v) {
            Some(w) => Some(w),
            None => turned_into_first(types.skip(1), v, skip_null),
        }
    }
}

fn coerce_into_first(types: &Vec<String>, v: &Json, skip_null: bool) -> (r: Option<Json>)
    ensures
        views::opt(r) == turned_into_first(views::all(types@), v@, skip_null),
{
    let ghost all = views::all(types@);
    let mut i: usize = 0;
    assert(all.skip(0) =~= all);
    while i < types.len()
        invariant
            i <= types@.len(),
            all == views::all(types@),
            turned_into_first(all.skip(i as int), v@, skip_null) == turned_into_first(
                all,
                v@,
                skip_null,
            ),
        decreases types@.len() - i,
    {
        assert(all.skip(i as int)[0] == all[i as int]);
        assert(all.skip(i as int).skip(1) =~= all.skip(i + 1));
        assert(types@[i as int]@ == all[i as int]);
        if !(skip_null && same_text(types[i].as_str(), "null")) {
            if let Some(w) = try_coerce_single(types[i].as_str(), v) {
                return Some(w);
            }
        }
        i = i + 1;
    }
    None
}

/// A value turned into the first of the arms of a union that takes it; nothing is
/// turned into null.
pub open spec fn turned_into_arm(arms: Seq<JsonView>, v: JsonView) -> Option<JsonView>
    decreases arms.len(),
{
    if arms.len() == 0 {
        None
    } else {
        match turned_into_first(types_of(arms[0]), v, true) {
            Some(w) => Some(w),
            None => turned_into_arm(arms.skip(1), v),
        }
    }
}

/// A value as a union takes it: as it is where it is of a type of an arm, else turned.
pub open spec fn union_coerced(arms: Seq<JsonView>, v: JsonView) -> Result<JsonView, Seq<char>> {
    if exists|i: int| 0 <= i < arms.len() && is_of_some_type(types_of(#[trigger] arms[i]), v) {
        Ok(v)
    } else {
        match turned_into_arm(arms, v) {
            Some(w) => Ok(w),
            None => Err(
                "value "@ + json_text::debug_text_of_json(v) + " does not match any union arm"@,
            ),
        }
    }
}

/// A value as a union takes it.
pub fn coerce_union(arms: &Vec<Json>, v: &Json) -> (r: Result<Json, String>)
    ensures
        match r {
            Ok(w) => union_coerced(views::all(arms@), v@) == Ok::<JsonView, Seq<char>>(w@),
            Err(e) => union_coerced(views::all(arms@), v@) == Err::<JsonView, Seq<char>>(e@),
        },
{
    let ghost all = views::all(arms@);
    let mut i: usize = 0;
    while i < arms.len()
        invariant
            i <= arms@.len(),
            all == views::all(arms@),
            forall|j: int| 0 <= j < i ==> !is_of_some_type(types_of(#[trigger] all[j]), v@),
        decreases arms@.len() - i,
    {
        assert(arms@[i as int]@ == all[i as int]);
        if matches_some_type(&get_types(&arms[i]), v) {
            return Ok(clone_json(v));
        }
        i = i + 1;
    }
    let mut k: usize = 0;
    assert(all.skip(0) =~= all);
    while k < arms.len()
        invariant
            k <= arms@.len(),
            all == views::all(arms@),
            turned_into_arm(all.skip(k as int), v@) == turned_into_arm(all, v@),
            forall|j: int|
                0 <= j < all.len() ==> !is_of_some_type(types_of(#[trigger] all[j]), v@),
        decreases arms@.len() - k,
    {
        assert(all.skip(k as int)[0] == all[k as int]);
        assert(all.skip(k as int).skip(1) =~= all.skip(k + 1));
        assert(arms@[k as int]@ == all[k as int]);
        if let Some(w) = coerce_into_first(&get_types(&arms[k]), v, true) {
            return Ok(w);
        }
        k = k + 1;
    }
    Err(concat3("value ", print_json_debug(v).as_str(), " does not match any union arm"))
}

/// The definitions of a schema.
pub open spec fn definitions(schema: JsonView) -> Option<Map<Seq<char>, JsonView>> {
    match views::first_of(schema.get("$defs"@), schema.get("definitions"@)) {
        Some(d) => d.fields(),
        None => None,
    }
}

/// The definition that a schema refers to, where there is one.
pub open spec fn referred(schema: JsonView, defs: Option<Map<Seq<char>, JsonView>>) -> Option<
    JsonView,
> {
    match schema.field_text("$ref"@) {
        Some(s) => {
            let name = match text::split_last(s, '/') {
                Some((_, last)) => last,
                None => s,
            };
            match defs {
                Some(m) => if m.contains_key(name) {
                    Some(m[name])
                } else {
                    None
                },
                None => None,
            }
        },
        None => None,
    }
}

/// The schema that a schema stands for, by so many references at most; none where
/// they do not end.
pub open spec fn resolved(
    schema: JsonView,
    defs: Option<Map<Seq<char>, JsonView>>,
    steps: nat,
) -> Option<JsonView>
    decreases steps,
{
    match referred(schema, defs) {
        None => Some(schema),
        Some(next) => if steps == 0 {
            None
        } else {
            resolved(next, defs, (steps - 1) as nat)
        },
    }
}

/// How many definitions there are.
pub open spec fn definition_count(defs: Option<Map<Seq<char>, JsonView>>) -> nat {
    match defs {
        Some(m) => m.dom().len(),
        None => 0,
    }
}

fn definitions_exec<'a>(schema: &'a Json) -> (r: Option<&'a Json>)
    ensures
        match r {
            Some(d) => d@ is Object && definitions(schema@) == Some(d@->Object_0),
            None => definitions(schema@) is None,
        },
{
    let found: Option<&Json> = match schema.get("$defs") {
        Some(d) => Some(d),
        None => schema.get("definitions"),
    };
    match found {
        Some(d) => if d.is_object() {
            Some(d)
        } else {
            None
        },
        None => None,
    }
}

/// What the definitions of a schema mean.
pub open spec fn defs_view(defs: Option<&Json>) -> Option<Map<Seq<char>, JsonView>> {
    match defs {
        Some(d) => Some(d@->Object_0),
        None => None,
    }
}

fn count_definitions(defs: Option<&Json>) -> (r: usize)
    requires
        defs is Some ==> defs->0@ is Object,
    ensures
        r == definition_count(defs_view(defs)),
{
    match defs {
        Some(d) => {
            let keys: Vec<String> = d.keys();
            proof {
                let names = views::all(keys@);
                names.unique_seq_to_set();
                assert(names.to_set() =~= d@->Object_0.dom());
            }
            keys.len()
        },
        None => 0,
    }
}

/// The schema that a schema stands for, by so many references at most.
fn resolve_ref(schema: &Json, defs: Option<&Json>, steps: usize) -> (r: Option<Json>)
    requires
        defs is Some ==> defs->0@ is Object,
    ensures
        views::opt(r) == resolved(schema@, defs_view(defs), steps as nat),
    decreases steps,
{
    let next: Option<&Json> = match schema.field_str("$ref") {
        Some(s) => {
            let name: String = match split_last_at(s, '/') {
                Some((_, last)) => last,
                None => s.to_owned(),
            };
            match defs {
                Some(d) => d.get(name.as_str()),
                None => None,
            }
        },
        None => None,
    };
    match next {
        None => Some(clone_json(schema)),
        Some(n) => if steps == 0 {
            None
        } else {
            resolve_ref(n, defs, steps - 1)
        },
    }
}

/// Whether a schema allows null, by its type or by an arm of a union.
pub open spec fn allows_null(schema: JsonView) -> bool
    decreases schema,
{
    match schema {
        JsonView::Object(m) => {
            ||| match schema.get("type"@) {
                Some(JsonView::Str(s)) => s == "null"@,
                Some(JsonView::Array(items)) => texts_in(items).contains("null"@),
                _ => false,
            }
            ||| (m.contains_key("anyOf"@) && match m["anyOf"@] {
                JsonView::Array(arms) => exists|i: int|
                    0 <= i < arms.len() && allows_null(#[trigger] arms[i]),
                _ => false,
            })
            ||| (m.contains_key("oneOf"@) && match m["oneOf"@] {
                JsonView::Array(arms) => exists|i: int|
                    0 <= i < arms.len() && allows_null(#[trigger] arms[i]),
                _ => false,
            })
        },
        _ => false,
    }
}

/// Whether a schema allows null, by its type or by an arm of a union.
pub fn is_nullable(schema: &Json) -> (r: bool)
    ensures
        r == allows_null(schema@),
    decreases *schema, 1nat,
{
    if !schema.is_object() {
        return false;
    }
    let typed: bool = match schema.get("type") {
        Some(t) => {
            if let Some(s) = t.as_str() {
                same_text(s, "null")
            } else if let Some(items) = t.as_array() {
                is_one_of(&texts_in_exec(items), "null")
            } else {
                false
            }
        },
        None => false,
    };
    if typed {
        return true;
    }
    let any: bool = match schema.get("anyOf") {
        Some(arms) => some_arm_is_nullable(arms),
        None => false,
    };
    if any {
        return true;
    }
    match schema.get("oneOf") {
        Some(arms) => some_arm_is_nullable(arms),
        None => false,
    }
}

fn some_arm_is_nullable(arms: &Json) -> (r: bool)
    ensures
        r == match arms@ {
            JsonView::Array(items) => exists|i: int|
                0 <= i < items.len() && allows_null(#[trigger] items[i]),
            _ => false,
        },
    decreases *arms, 0nat,
{
    match arms {
        Json::Array(items) => {
            let ghost all = views::all(items@);
            proof {
                json::lemma_array_view(*items);
            }
            let mut i: usize = 0;
            while i < items.len()
                invariant
                    i <= items@.len(),
                    *arms == Json::Array(*items),
                    arms@ == JsonView::Array(all),
                    all == views::all(items@),
                    forall|j: int| 0 <= j < i ==> !allows_null(#[trigger] all[j]),
                decreases items@.len() - i,
            {
                assert(items@[i as int]@ == all[i as int]);
                if is_nullable(&items[i]) {
                    assert(allows_null(arms@->Array_0[i as int]));
                    return true;
                }
                i = i + 1;
            }
            false
        },
        _ => false,
    }
}

/// What becomes of a field.
#[verifier::ext_equal]
pub enum FieldView {
    Keep(JsonView),
    Leave,
    Fail(Seq<char>),
}

/// What becomes of a field.
pub enum Field {
    Keep(Json),
    Leave,
    Fail(String),
}

impl View for Field {
    type V = FieldView;

    open spec fn view(&self) -> FieldView {
        match *self {
            Field::Keep(v) => FieldView::Keep(v@),
            Field::Leave => FieldView::Leave,
            Field::Fail(e) => FieldView::Fail(e@),
        }
    }
}

/// What is said of a schema whose references never end.
pub const ENDLESS_REFERENCE: &'static str = "schema references itself without end";

/// The schema of a field, where the schema of the object has one.
pub open spec fn property(schema: JsonView, key: Seq<char>) -> Option<JsonView> {
    match schema.get("properties"@) {
        Some(p) => p.get(key),
        None => None,
    }
}

/// Whether a schema asks for a field.
pub open spec fn is_required(schema: JsonView, key: Seq<char>) -> bool {
    match schema.get("required"@) {
        Some(JsonView::Array(items)) => texts_in(items).contains(key),
        _ => false,
    }
}

/// What becomes of a field of an object: one that the schema does not name is kept; a
/// null that is neither asked for nor allowed is left out; any other follows the
/// schema of the field.
pub open spec fn field_coerced(schema: JsonView, key: Seq<char>, v: JsonView) -> FieldView
    decreases v, 2nat,
{
    match property(schema, key) {
        None => FieldView::Keep(v),
        Some(ps) => {
            let defs = definitions(schema);
            match resolved(ps, defs, definition_count(defs)) {
                None => FieldView::Fail(ENDLESS_REFERENCE@),
                Some(rs) => if v is Null && !is_required(schema, key) && !allows_null(rs) {
                    FieldView::Leave
                } else {
                    match value_coerced(rs, v) {
                        Ok(w) => FieldView::Keep(w),
                        Err(e) => FieldView::Fail(e),
                    }
                },
            }
        },
    }
}

/// The first key, in the order of texts, at which a field fails.
pub open spec fn is_first_failure(outcomes: Map<Seq<char>, FieldView>, key: Seq<char>) -> bool {
    &&& outcomes.contains_key(key)
    &&& outcomes[key] is Fail
    &&& forall|other: Seq<char>| #[trigger]
        outcomes.contains_key(other) && outcomes[other] is Fail ==> text::text_le(key, other)
}

/// An object of the fields that are kept; where fields fail, the first failure.
pub open spec fn gathered(outcomes: Map<Seq<char>, FieldView>) -> Result<JsonView, Seq<char>> {
    if exists|key: Seq<char>| is_first_failure(outcomes, key) {
        let key = choose|key: Seq<char>| is_first_failure(outcomes, key);
        Err("Validation failed: "@ + key + ": "@ + outcomes[key]->Fail_0)
    } else {
        Ok(
            JsonView::Object(
                Map::new(
                    |key: Seq<char>| outcomes.contains_key(key) && outcomes[key] is Keep,
                    |key: Seq<char>| outcomes[key]->Keep_0,
                ),
            ),
        )
    }
}

/// What becomes of each field of an object.
pub open spec fn fields_coerced(schema: JsonView, value: JsonView) -> Map<Seq<char>, FieldView>
    decreases value, 0nat,
{
    match value {
        JsonView::Object(m) => Map::new(
            |key: Seq<char>| m.contains_key(key),
            |key: Seq<char>|
                if m.contains_key(key) {
                    field_coerced(schema, key, m[key])
                } else {
                    FieldView::Leave
                },
        ),
        _ => Map::empty(),
    }
}

/// A value as a schema takes it: by the arms of a union where it has them; as it is
/// where it is of a type of the schema, an object field by field; else turned into the
/// first type that takes it.
pub open spec fn value_coerced(schema: JsonView, v: JsonView) -> Result<JsonView, Seq<char>>
    decreases v, 1nat,
{
    match schema.get("anyOf"@) {
        Some(JsonView::Array(arms)) => union_coerced(arms, v),
        _ => match schema.get("oneOf"@) {
            Some(JsonView::Array(arms)) => union_coerced(arms, v),
            _ => {
                let types = types_of(schema);
                if types.len() == 0 || is_of_some_type(types, v) {
                    if v is Object && schema.get("properties"@) is Some {
                        gathered(fields_coerced(schema, v))
                    } else {
                        Ok(v)
                    }
                } else {
                    match turned_into_first(types, v, false) {
                        Some(w) => Ok(w),
                        None => Err(
                            "value "@ + json_text::debug_text_of_json(v)
                                + " does not match any of "@ + debug_text_of_texts(types),
                        ),
                    }
                }
            },
        },
    }
}

/// What becomes of a field of an object.
fn coerce_field(
    schema: &Json,
    required: &Vec<String>,
    defs: Option<&Json>,
    steps: usize,
    key: &str,
    v: &Json,
) -> (r: Field)
    requires
        defs is Some ==> defs->0@ is Object,
        defs_view(defs) == definitions(schema@),
        steps == definition_count(definitions(schema@)),
        forall|k: Seq<char>| #[trigger]
            views::all(required@).contains(k) <==> is_required(schema@, k),
    ensures
        r@ == field_coerced(schema@, key@, v@),
    decreases *v, 2nat,
{
    let found: Option<&Json> = match schema.get("properties") {
        Some(p) => p.get(key),
        None => None,
    };
    match found {
        None => Field::Keep(clone_json(v)),
        Some(ps) => match resolve_ref(ps, defs, steps) {
            None => Field::Fail(ENDLESS_REFERENCE.to_owned()),
            Some(rs) => if matches!(v, Json::Null) && !is_one_of(required, key) && !is_nullable(
                &rs,
            ) {
                Field::Leave
            } else {
                match coerce_value(&rs, v) {
                    Ok(w) => Field::Keep(w),
                    Err(e) => Field::Fail(e),
                }
            },
        },
    }
}

/// A value as a schema takes it.
pub fn coerce_value(schema: &Json, v: &Json) -> (r: Result<Json, String>)
    ensures
        match r {
            Ok(w) => value_coerced(schema@, v@) == Ok::<JsonView, Seq<char>>(w@),
            Err(e) => value_coerced(schema@, v@) == Err::<JsonView, Seq<char>>(e@),
        },
    decreases *v, 1nat,
{
    if let Some(any) = schema.get("anyOf") {
        if let Some(arms) = any.as_array() {
            return coerce_union(arms, v);
        }
    }
    if let Some(one) = schema.get("oneOf") {
        if let Some(arms) = one.as_array() {
            return coerce_union(arms, v);
        }
    }
    let types: Vec<String> = get_types(schema);
    if types.len() == 0 || matches_some_type(&types, v) {
        if v.is_object() && schema.get("properties").is_some() {
            return coerce_object(schema, v);
        }
        return Ok(clone_json(v));
    }
    match coerce_into_first(&types, v, false) {
        Some(w) => Ok(w),
        None => {
            let shown: String = concat3(
                "value ",
                print_json_debug(v).as_str(),
                " does not match any of ",
            );
            Err(concat(shown.as_str(), print_texts_debug(&types).as_str()))
        },
    }
}

proof fn lemma_first_failure(outcomes: Map<Seq<char>, FieldView>, key: Seq<char>)
    requires
        is_first_failure(outcomes, key),
    ensures
        gathered(outcomes) == Err::<JsonView, Seq<char>>(
            "Validation failed: "@ + key + ": "@ + outcomes[key]->Fail_0,
        ),
{
    let picked = choose|k: Seq<char>| is_first_failure(outcomes, k);
    assert(outcomes.contains_key(picked) && outcomes.contains_key(key));
    text::lemma_text_le_antisymmetric(picked, key);
}

/// An object as a schema takes it, field by field.
fn coerce_object(schema: &Json, value: &Json) -> (r: Result<Json, String>)
    requires
        value@ is Object,
    ensures
        match r {
            Ok(w) => gathered(fields_coerced(schema@, value@)) == Ok::<JsonView, Seq<char>>(w@),
            Err(e) => gathered(fields_coerced(schema@, value@)) == Err::<JsonView, Seq<char>>(e@),
        },
    decreases *value, 0nat,
{
    let required: Vec<String> = match schema.get("required") {
        Some(list) => match list.as_array() {
            Some(items) => texts_in_exec(items),
            None => Vec::new(),
        },
        None => Vec::new(),
    };
    let defs: Option<&Json> = definitions_exec(schema);
    let steps: usize = count_definitions(defs);
    let ghost m = value@->Object_0;
    let ghost outcomes = fields_coerced(schema@, value@);
    let keys: Vec<String> = value.keys();
    let ghost names = views::all(keys@);
    let mut out: Json = Json::object();
    let mut failed: Option<(String, String)> = None;
    let mut i: usize = 0;
    assert(names.take(0) =~= Seq::<Seq<char>>::empty());
    while i < keys.len()
        invariant
            i <= keys@.len(),
            names == views::all(keys@),
            value@ == JsonView::Object(m),
            outcomes == fields_coerced(schema@, value@),
            defs is Some ==> defs->0@ is Object,
            defs_view(defs) == definitions(schema@),
            steps == definition_count(definitions(schema@)),
            forall|k: Seq<char>| #[trigger]
                views::all(required@).contains(k) <==> is_required(schema@, k),
            forall|k: Seq<char>| #[trigger] m.contains_key(k) <==> names.contains(k),
            out@ is Object,
            forall|k: Seq<char>| #[trigger]
                out@->Object_0.contains_key(k) <==> names.take(i as int).contains(k) && outcomes[k]
                    is Keep,
            forall|k: Seq<char>| #[trigger]
                out@->Object_0.contains_key(k) ==> out@->Object_0[k] == outcomes[k]->Keep_0,
            match failed {
                None => forall|j: int|
                    0 <= j < i ==> !(outcomes[#[trigger] names[j]] is Fail),
                Some((k, e)) => {
                    &&& names.contains(k@)
                    &&& outcomes[k@] == FieldView::Fail(e@)
                    &&& forall|j: int|
                        0 <= j < i && outcomes[#[trigger] names[j]] is Fail ==> text::text_le(
                            k@,
                            names[j],
                        )
                },
            },
        decreases keys@.len() - i,
    {
        let ghost key = names[i as int];
        proof {
            views::lemma_take_step(names, i as int);
            assert(keys@[i as int]@ == key);
            assert(names.contains(key));
            assert(m.contains_key(key));
            assert(forall|k: Seq<char>| #[trigger]
                names.take(i + 1).contains(k) <==> names.take(i as int).contains(k) || k == key)
                by {
                assert forall|k: Seq<char>| names.take(i as int).contains(k) || k == key implies
                    #[trigger] names.take(i + 1).contains(k) by {
                    if names.take(i as int).contains(k) {
                        let n = choose|n: int|
                            0 <= n < names.take(i as int).len() && names.take(i as int)[n] == k;
                        assert(names.take(i + 1)[n] == k);
                    } else {
                        assert(names.take(i + 1)[i as int] == k);
                    }
                }
            }
        }
        match value.get(keys[i].as_str()) {
            Some(v) => {
                match coerce_field(schema, &required, defs, steps, keys[i].as_str(), v) {
                    Field::Keep(w) => {
                        out.set(keys[i].as_str(), w);
                    },
                    Field::Leave => {},
                    Field::Fail(e) => {
                        let earlier: bool = match &failed {
                            None => true,
                            Some((k, _)) => !text_at_most(k.as_str(), keys[i].as_str()),
                        };
                        proof {
                            text::lemma_text_le_total(key, key);
                        }
                        if earlier {
                            proof {
                                if let Some((k, _)) = failed {
                                    text::lemma_text_le_total(k@, key);
                                    assert forall|j: int|
                                        0 <= j < i && outcomes[#[trigger] names[j]]
                                            is Fail implies text::text_le(key, names[j]) by {
                                        text::lemma_text_le_transitive(key, k@, names[j]);
                                    }
                                }
                            }
                            failed = Some((keys[i].clone(), e));
                        }
                    },
                }
            },
            None => {},
        }
        i = i + 1;
    }
    proof {
        views::lemma_take_all(names);
        assert forall|k: Seq<char>| #[trigger] outcomes.contains_key(k) && outcomes[k]
            is Fail implies match failed {
            Some((f, _)) => text::text_le(f@, k),
            None => false,
        } by {
            assert(m.contains_key(k));
            let j = choose|j: int| 0 <= j < names.len() && names[j] == k;
            assert(outcomes[names[j]] is Fail);
        }
    }
    match failed {
        Some((k, e)) => {
            proof {
                assert(m.contains_key(k@));
                lemma_first_failure(outcomes, k@);
            }
            let head: String = concat3("Validation failed: ", k.as_str(), ": ");
            Err(concat(head.as_str(), e.as_str()))
        },
        None => {
            proof {
                let kept = Map::new(
                    |k: Seq<char>| outcomes.contains_key(k) && outcomes[k] is Keep,
                    |k: Seq<char>| outcomes[k]->Keep_0,
                );
                assert forall|k: Seq<char>| #[trigger]
                    out@->Object_0.contains_key(k) == kept.contains_key(k) by {
                    assert(m.contains_key(k) == outcomes.contains_key(k));
                }
                assert(out@->Object_0 =~= kept);
            }
            Ok(out)
        },
    }
}

/// What is said of arguments that are no object.
pub const NO_OBJECT: &'static str = "Validation failed: arguments must be an object";

/// Arguments as a schema takes them.
pub open spec fn arguments_coerced(schema: JsonView, arguments: JsonView) -> Result<
    JsonView,
    Seq<char>,
> {
    if arguments is Object {
        gathered(fields_coerced(schema, arguments))
    } else {
        Err(NO_OBJECT@)
    }
}

/// The arguments of a tool as its schema takes them.
pub fn validate_tool_arguments(tool: &Tool, arguments: &Json) -> (r: Result<Json, String>)
    ensures
        match r {
            Ok(w) => arguments_coerced(tool@.parameters, arguments@) == Ok::<JsonView, Seq<char>>(
                w@,
            ),
            Err(e) => arguments_coerced(tool@.parameters, arguments@) == Err::<
                JsonView,
                Seq<char>,
            >(e@),
        },
{
    if !arguments.is_object() {
        return Err(NO_OBJECT.to_owned());
    }
    coerce_object(&tool.parameters, arguments)
}

/// Whether following references ends after exactly so many.
spec fn ends_after(schema: JsonView, defs: Option<Map<Seq<char>, JsonView>>, steps: nat) -> bool {
    &&& resolved(schema, defs, steps) is Some
    &&& steps > 0 ==> resolved(schema, defs, (steps - 1) as nat) is None
}

proof fn lemma_more_steps(
    schema: JsonView,
    defs: Option<Map<Seq<char>, JsonView>>,
    few: nat,
    many: nat,
)
    requires
        few <= many,
        resolved(schema, defs, few) is Some,
    ensures
        resolved(schema, defs, many) == resolved(schema, defs, few),
    decreases few,
{
    match referred(schema, defs) {
        None => {},
        Some(next) => {
            lemma_more_steps(next, defs, (few - 1) as nat, (many - 1) as nat);
        },
    }
}

/// The names whose definitions end after fewer references.
proof fn lemma_chain_is_short(
    schema: JsonView,
    m: Map<Seq<char>, JsonView>,
    steps: nat,
) -> (names: Set<Seq<char>>)
    requires
        ends_after(schema, Some(m), steps),
    ensures
        names.finite(),
        names.len() == steps,
        names.subset_of(m.dom()),
        forall|n: Seq<char>| #[trigger]
            names.contains(n) ==> exists|k: nat|
                k < steps && #[trigger] ends_after(m[n], Some(m), k),
    decreases steps,
{
    if steps == 0 {
        Set::empty()
    } else {
        let s = schema.field_text("$ref"@)->0;
        let name = match text::split_last(s, '/') {
            Some((_, last)) => last,
            None => s,
        };
        let next = m[name];
        assert(referred(schema, Some(m)) == Some(next));
        if steps > 1 {
            assert(resolved(next, Some(m), (steps - 2) as nat) is None);
        }
        assert(ends_after(next, Some(m), (steps - 1) as nat));
        let before = lemma_chain_is_short(next, m, (steps - 1) as nat);
        if before.contains(name) {
            let k = choose|k: nat| k < steps - 1 && #[trigger] ends_after(m[name], Some(m), k);
            lemma_more_steps(next, Some(m), k, (steps - 2) as nat);
        }
        before.insert(name)
    }
}

/// References that end at all end after as many steps as there are definitions.
pub proof fn law_references_end_in_time(
    schema: JsonView,
    defs: Option<Map<Seq<char>, JsonView>>,
    steps: nat,
)
    requires
        defs is Some ==> defs->0.dom().finite(),
        resolved(schema, defs, steps) is Some,
    ensures
        resolved(schema, defs, definition_count(defs)) == resolved(schema, defs, steps),
    decreases steps,
{
    if steps > 0 && resolved(schema, defs, (steps - 1) as nat) is Some {
        law_references_end_in_time(schema, defs, (steps - 1) as nat);
        lemma_more_steps(schema, defs, (steps - 1) as nat, steps);
    } else {
        match defs {
            Some(m) => {
                let names = lemma_chain_is_short(schema, m, steps);
                vstd::set_lib::lemma_len_subset(names, m.dom());
                lemma_more_steps(schema, defs, steps, m.dom().len());
            },
            None => {},
        }
    }
}

/// A value that is of a type of a schema without unions is kept as it is, unless it is
/// an object whose fields the schema describes.
pub proof fn law_matching_value_is_kept(schema: JsonView, v: JsonView)
    requires
        schema.get("anyOf"@) is None,
        schema.get("oneOf"@) is None,
        is_of_some_type(types_of(schema), v),
        v is Object ==> schema.get("properties"@) is None,
    ensures
        value_coerced(schema, v) == Ok::<JsonView, Seq<char>>(v),
{
}

/// A value that a type takes is then of that type; only a text of a number that is not
/// finite becomes null.
pub proof fn law_turned_value_is_of_the_type(t: Seq<char>, v: JsonView)
    requires
        turned(t, v) is Some,
        t == "number"@ ==> turned(t, v) != Some(JsonView::Null),
        t == "number"@ || t == "integer"@ || t == "boolean"@ || t == "string"@ || t == "null"@ || t
            == "array"@ || t == "object"@,
    ensures
        is_of_type(t, turned(t, v)->0),
{
}

/// A field that the schema does not name is kept as it is, and so is the failure of
/// another field: no field without a schema ever fails.
pub proof fn law_unknown_field_is_kept(schema: JsonView, key: Seq<char>, v: JsonView)
    requires
        property(schema, key) is None,
    ensures
        field_coerced(schema, key, v) == FieldView::Keep(v),
{
}

/// A null that a schema neither asks for nor allows is not in the coerced arguments.
pub proof fn law_unwanted_null_is_left_out(
    schema: JsonView,
    arguments: Map<Seq<char>, JsonView>,
    key: Seq<char>,
)
    requires
        arguments.contains_key(key),
        arguments[key] is Null,
        property(schema, key) is Some,
        property(schema, key)->0.get("$ref"@) is None,
        !is_required(schema, key),
        !allows_null(property(schema, key)->0),
    ensures
        match arguments_coerced(schema, JsonView::Object(arguments)) {
            Ok(w) => w is Object && !w->Object_0.contains_key(key),
            Err(_) => true,
        },
{
    let outcomes = fields_coerced(schema, JsonView::Object(arguments));
    assert(outcomes.contains_key(key));
    assert(outcomes[key] == field_coerced(schema, key, arguments[key]));
    assert(outcomes[key] is Leave);
}

/// Whether no text in a value is that of a number which is not finite.
pub open spec fn reads_finite(v: JsonView) -> bool
    decreases v,
{
    match v {
        JsonView::Str(s) => double_text(s) != Some(None::<Seq<char>>),
        JsonView::Array(items) => forall|i: int|
            0 <= i < items.len() ==> reads_finite(#[trigger] items[i]),
        JsonView::Object(m) => forall|key: Seq<char>| #[trigger]
            m.contains_key(key) ==> reads_finite(m[key]),
        _ => true,
    }
}

proof fn lemma_turned_settles(t: Seq<char>, v: JsonView)
    requires
        reads_finite(v),
        turned(t, v) is Some,
    ensures
        ({
            let w = turned(t, v)->0;
            ||| w == v
            ||| is_of_type(t, w) && !(w is Object) && (w is Null ==> t == "null"@)
        }),
{
}

proof fn lemma_first_settles(types: Seq<Seq<char>>, v: JsonView, skip_null: bool)
    requires
        reads_finite(v),
        turned_into_first(types, v, skip_null) is Some,
    ensures
        ({
            let w = turned_into_first(types, v, skip_null)->0;
            ||| w == v
            ||| {
                &&& is_of_some_type(types, w)
                &&& !(w is Object)
                &&& w is Null ==> !skip_null && types.contains("null"@)
            }
        }),
    decreases types.len(),
{
    let w = turned_into_first(types, v, skip_null)->0;
    if (skip_null && types[0] == "null"@) || turned(types[0], v) is None {
        lemma_first_settles(types.skip(1), v, skip_null);
        if w != v {
            let i = choose|i: int|
                0 <= i < types.skip(1).len() && is_of_type(#[trigger] types.skip(1)[i], w);
            assert(is_of_type(types[i + 1], w));
            if w is Null {
                let j = choose|j: int| 0 <= j < types.skip(1).len() && types.skip(1)[j] == "null"@;
                assert(types[j + 1] == "null"@);
            }
        }
    } else {
        lemma_turned_settles(types[0], v);
    }
}

proof fn lemma_arm_settles(arms: Seq<JsonView>, v: JsonView)
    requires
        reads_finite(v),
        turned_into_arm(arms, v) is Some,
    ensures
        ({
            let w = turned_into_arm(arms, v)->0;
            ||| w == v
            ||| {
                &&& exists|i: int|
                    0 <= i < arms.len() && is_of_some_type(types_of(#[trigger] arms[i]), w)
                &&& !(w is Null)
            }
        }),
    decreases arms.len(),
{
    let w = turned_into_arm(arms, v)->0;
    if turned_into_first(types_of(arms[0]), v, true) is Some {
        lemma_first_settles(types_of(arms[0]), v, true);
    } else {
        lemma_arm_settles(arms.skip(1), v);
        if w != v {
            let i = choose|i: int|
                0 <= i < arms.skip(1).len() && is_of_some_type(
                    types_of(#[trigger] arms.skip(1)[i]),
                    w,
                );
            assert(is_of_some_type(types_of(arms[i + 1]), w));
        }
    }
}

proof fn lemma_union_settles(arms: Seq<JsonView>, v: JsonView)
    requires
        reads_finite(v),
        union_coerced(arms, v) is Ok,
    ensures
        ({
            let w = union_coerced(arms, v)->Ok_0;
            &&& union_coerced(arms, w) == Ok::<JsonView, Seq<char>>(w)
            &&& w is Null ==> v is Null
        }),
{
    if !(exists|i: int| 0 <= i < arms.len() && is_of_some_type(types_of(#[trigger] arms[i]), v)) {
        lemma_arm_settles(arms, v);
    }
}

proof fn lemma_value_settles(schema: JsonView, v: JsonView)
    requires
        reads_finite(v),
        value_coerced(schema, v) is Ok,
    ensures
        ({
            let w = value_coerced(schema, v)->Ok_0;
            &&& value_coerced(schema, w) == Ok::<JsonView, Seq<char>>(w)
            &&& w is Null ==> v is Null || allows_null(schema)
        }),
    decreases v, 1nat,
{
    let w = value_coerced(schema, v)->Ok_0;
    match schema.get("anyOf"@) {
        Some(JsonView::Array(arms)) => {
            lemma_union_settles(arms, v);
        },
        _ => match schema.get("oneOf"@) {
            Some(JsonView::Array(arms)) => {
                lemma_union_settles(arms, v);
            },
            _ => {
                let types = types_of(schema);
                if types.len() == 0 || is_of_some_type(types, v) {
                    if v is Object && schema.get("properties"@) is Some {
                        lemma_object_settles(schema, v);
                        if types.len() > 0 {
                            let i = choose|i: int|
                                0 <= i < types.len() && is_of_type(#[trigger] types[i], v);
                            assert(is_of_type(types[i], w));
                        }
                    }
                } else {
                    lemma_first_settles(types, v, false);
                }
            },
        },
    }
}

proof fn lemma_field_settles(schema: JsonView, key: Seq<char>, v: JsonView)
    requires
        reads_finite(v),
        field_coerced(schema, key, v) is Keep,
    ensures
        ({
            let w = field_coerced(schema, key, v)->Keep_0;
            field_coerced(schema, key, w) == FieldView::Keep(w)
        }),
    decreases v, 2nat,
{
    if let Some(ps) = property(schema, key) {
        let defs = definitions(schema);
        if let Some(rs) = resolved(ps, defs, definition_count(defs)) {
            lemma_value_settles(rs, v);
        }
    }
}

proof fn lemma_object_settles(schema: JsonView, v: JsonView)
    requires
        reads_finite(v),
        v is Object,
        gathered(fields_coerced(schema, v)) is Ok,
    ensures
        ({
            let w = gathered(fields_coerced(schema, v))->Ok_0;
            &&& w is Object
            &&& gathered(fields_coerced(schema, w)) == Ok::<JsonView, Seq<char>>(w)
        }),
    decreases v, 0nat,
{
    let m = v->Object_0;
    let outcomes = fields_coerced(schema, v);
    let w = gathered(outcomes)->Ok_0;
    let kept = w->Object_0;
    let again = fields_coerced(schema, w);
    assert forall|key: Seq<char>| #[trigger] kept.contains_key(key) implies again[key]
        == FieldView::Keep(kept[key]) by {
        assert(outcomes.contains_key(key) && outcomes[key] is Keep);
        assert(m.contains_key(key));
        assert(outcomes[key] == field_coerced(schema, key, m[key]));
        lemma_field_settles(schema, key, m[key]);
    }
    assert forall|key: Seq<char>| !is_first_failure(again, key) by {
        if is_first_failure(again, key) {
            assert(kept.contains_key(key));
        }
    }
    match gathered(again) {
        Ok(x) => {
            assert(x->Object_0 =~= kept);
        },
        Err(_) => {},
    }
}

/// Arguments that were validated are valid as they are: validating them once more changes
/// nothing.
pub proof fn law_second_validation_changes_nothing(schema: JsonView, arguments: JsonView)
    requires
        reads_finite(arguments),
        arguments_coerced(schema, arguments) is Ok,
    ensures
        arguments_coerced(schema, arguments_coerced(schema, arguments)->Ok_0)
            == arguments_coerced(schema, arguments),
{
    lemma_object_settles(schema, arguments);
}

/// Whether a field is a null that the schema neither asks for nor allows.
pub open spec fn is_unwanted_null(schema: JsonView, key: Seq<char>, v: JsonView) -> bool {
    let defs = definitions(schema);
    &&& v is Null
    &&& property(schema, key) is Some
    &&& !is_required(schema, key)
    &&& match resolved(property(schema, key)->0, defs, definition_count(defs)) {
        Some(rs) => !allows_null(rs),
        None => false,
    }
}

proof fn lemma_some_failure_is_first(failures: Set<Seq<char>>) -> (first: Seq<char>)
    requires
        failures.finite(),
        failures.len() > 0,
    ensures
        failures.contains(first),
        forall|other: Seq<char>| #[trigger] failures.contains(other) ==> text::text_le(first, other),
    decreases failures.len(),
{
    let one = failures.choose();
    text::lemma_text_le_total(one, one);
    let rest = failures.remove(one);
    if rest.len() == 0 {
        assert forall|other: Seq<char>| #[trigger] failures.contains(other) implies text::text_le(
            one,
            other,
        ) by {
            if other != one {
                assert(rest.contains(other));
            }
        }
        one
    } else {
        let least = lemma_some_failure_is_first(rest);
        text::lemma_text_le_total(one, least);
        let first = if text::text_le(one, least) {
            one
        } else {
            least
        };
        assert forall|other: Seq<char>| #[trigger] failures.contains(other) implies text::text_le(
            first,
            other,
        ) by {
            if other != one {
                assert(rest.contains(other));
                if first == one {
                    text::lemma_text_le_transitive(one, least, other);
                }
            }
        }
        first
    }
}

/// Validated arguments have the fields of the arguments and no others; what is missing is
/// a null that the schema neither asks for nor allows, and a field that the schema does
/// not name is as it was. What is no object is refused.
pub proof fn law_validation_keeps_the_fields(schema: JsonView, arguments: JsonView)
    requires
        arguments is Object ==> arguments->Object_0.dom().finite(),
    ensures
        !(arguments is Object) ==> arguments_coerced(schema, arguments) is Err,
        match arguments_coerced(schema, arguments) {
            Ok(w) => {
                &&& w is Object
                &&& forall|key: Seq<char>| #[trigger]
                    w->Object_0.contains_key(key) <==> arguments->Object_0.contains_key(key)
                        && !is_unwanted_null(schema, key, arguments->Object_0[key])
                &&& forall|key: Seq<char>| #[trigger]
                    w->Object_0.contains_key(key) && property(schema, key) is None
                        ==> w->Object_0[key] == arguments->Object_0[key]
            },
            Err(_) => true,
        },
{
    if arguments_coerced(schema, arguments) is Ok {
        let m = arguments->Object_0;
        let outcomes = fields_coerced(schema, arguments);
        let failures = m.dom().filter(|key: Seq<char>| outcomes[key] is Fail);
        if failures.len() > 0 {
            let first = lemma_some_failure_is_first(failures);
            assert forall|other: Seq<char>| #[trigger]
                outcomes.contains_key(other) && outcomes[other] is Fail implies text::text_le(
                first,
                other,
            ) by {
                assert(failures.contains(other));
            }
            assert(is_first_failure(outcomes, first));
        }
        let kept = arguments_coerced(schema, arguments)->Ok_0->Object_0;
        assert forall|key: Seq<char>| #[trigger]
            kept.contains_key(key) <==> m.contains_key(key) && !is_unwanted_null(
            schema,
            key,
            m[key],
        ) by {
            if m.contains_key(key) {
                assert(outcomes.contains_key(key));
                assert(outcomes[key] == field_coerced(schema, key, m[key]));
                if outcomes[key] is Fail {
                    assert(failures.contains(key));
                }
            }
        }
        assert forall|key: Seq<char>| #[trigger]
            kept.contains_key(key) && property(schema, key) is None implies kept[key] == m[key] by {
            assert(outcomes[key] == field_coerced(schema, key, m[key]));
        }
    }
}

} // verus!
