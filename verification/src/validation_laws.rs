//! What the checking of arguments comes to.
use vstd::prelude::*;
use crate::json::{JsonView, NumberView};
use crate::json_text;
use crate::text;
use crate::validation;

verus! {

proof fn lemma_type_names()
    ensures
        "number"@.len() == 6,
        "number"@[0] == 'n',
        "integer"@.len() == 7,
        "integer"@[0] == 'i',
        "boolean"@.len() == 7,
        "boolean"@[0] == 'b',
        "string"@.len() == 6,
        "string"@[0] == 's',
        "null"@.len() == 4,
        "array"@.len() == 5,
        "object"@.len() == 6,
        "object"@[0] == 'o',
        "true"@.len() == 4,
        "false"@.len() == 5,
{
    reveal_strlit("number");
    reveal_strlit("integer");
    reveal_strlit("boolean");
    reveal_strlit("string");
    reveal_strlit("null");
    reveal_strlit("array");
    reveal_strlit("object");
    reveal_strlit("true");
    reveal_strlit("false");
}

/// A value is of the type that its kind has a name for, numbers of two, and of no other.
pub proof fn law_kinds_have_names(t: Seq<char>, v: JsonView)
    ensures
        v is Number ==> (validation::is_of_type(t, v) <==> t == "number"@ || t == "integer"@),
        v is Bool ==> (validation::is_of_type(t, v) <==> t == "boolean"@),
        v is Str ==> (validation::is_of_type(t, v) <==> t == "string"@),
        v is Null ==> (validation::is_of_type(t, v) <==> t == "null"@),
        v is Array ==> (validation::is_of_type(t, v) <==> t == "array"@),
        v is Object ==> (validation::is_of_type(t, v) <==> t == "object"@),
{
    lemma_type_names();
}

/// A type takes each value of its own as it is; only a number with a fraction is no integer.
pub proof fn law_own_values_are_taken(t: Seq<char>, v: JsonView)
    requires
        validation::is_of_type(t, v),
        t == "integer"@ ==> !(v matches JsonView::Number(NumberView::Decimal(_))),
    ensures
        validation::turned(t, v) == Some(v),
{
    lemma_type_names();
}

/// A fraction is no integer.
pub proof fn law_fraction_is_no_integer(digits: Seq<char>)
    ensures
        validation::turned("integer"@, JsonView::Number(NumberView::Decimal(digits))) is None,
{
    lemma_type_names();
}

/// A type that has no name takes every value, and changes none.
pub proof fn law_unknown_type_takes_all(t: Seq<char>, v: JsonView)
    requires
        t != "number"@,
        t != "integer"@,
        t != "boolean"@,
        t != "string"@,
        t != "null"@,
        t != "array"@,
        t != "object"@,
    ensures
        validation::turned(t, v) == Some(v),
        !validation::is_of_type(t, v),
{
}

/// Arrays and objects are turned into nothing else, and nothing else into them.
pub proof fn law_structures_stay(t: Seq<char>, v: JsonView)
    ensures
        v is Array && (t == "number"@ || t == "integer"@ || t == "boolean"@ || t == "string"@ || t
            == "null"@ || t == "object"@) ==> validation::turned(t, v) is None,
        v is Object && (t == "number"@ || t == "integer"@ || t == "boolean"@ || t == "string"@ || t
            == "null"@ || t == "array"@) ==> validation::turned(t, v) is None,
        (t == "array"@ && !(v is Array)) || (t == "object"@ && !(v is Object))
            ==> validation::turned(t, v) is None,
{
    lemma_type_names();
}

/// A truth value becomes the number one or zero, or the text `true` or `false`, and is told
/// from either again. Only what is false can be null.
pub proof fn law_truth_is_kept(b: bool)
    ensures
        validation::turned("number"@, JsonView::Bool(b)) == Some(
            JsonView::Number(
                NumberView::Unsigned(
                    if b {
                        1
                    } else {
                        0
                    },
                ),
            ),
        ),
        validation::turned("integer"@, JsonView::Bool(b)) == validation::turned(
            "number"@,
            JsonView::Bool(b),
        ),
        validation::turned("string"@, JsonView::Bool(b)) == Some(
            JsonView::Str(
                if b {
                    "true"@
                } else {
                    "false"@
                },
            ),
        ),
        validation::turned("boolean"@, validation::turned("number"@, JsonView::Bool(b))->0) == Some(
            JsonView::Bool(b),
        ),
        validation::turned("boolean"@, validation::turned("string"@, JsonView::Bool(b))->0) == Some(
            JsonView::Bool(b),
        ),
        validation::turned("null"@, JsonView::Bool(b)) == if b {
            None
        } else {
            Some(JsonView::Null)
        },
{
    lemma_type_names();
}

/// Null becomes zero or the empty text, and is told from either again; no truth value is made
/// of it.
pub proof fn law_null_is_kept()
    ensures
        validation::turned("number"@, JsonView::Null) == Some(
            JsonView::Number(NumberView::Unsigned(0)),
        ),
        validation::turned("integer"@, JsonView::Null) == Some(
            JsonView::Number(NumberView::Unsigned(0)),
        ),
        validation::turned("string"@, JsonView::Null) == Some(JsonView::Str(Seq::empty())),
        validation::turned("boolean"@, JsonView::Null) is None,
        validation::turned("null"@, validation::turned("number"@, JsonView::Null)->0) == Some(
            JsonView::Null,
        ),
        validation::turned("null"@, validation::turned("string"@, JsonView::Null)->0) == Some(
            JsonView::Null,
        ),
{
    lemma_type_names();
}

/// A text is true or false only where it says so, and null only where it is empty.
pub proof fn law_texts_are_read_strictly(s: Seq<char>)
    ensures
        validation::turned("boolean"@, JsonView::Str(s)) == Some(JsonView::Bool(true)) <==> s
            == "true"@,
        validation::turned("boolean"@, JsonView::Str(s)) == Some(JsonView::Bool(false)) <==> s
            == "false"@,
        validation::turned("boolean"@, JsonView::Str(s)) is Some ==> s == "true"@ || s == "false"@,
        validation::turned("null"@, JsonView::Str(s)) == if s.len() == 0 {
            Some(JsonView::Null)
        } else {
            None
        },
{
    lemma_type_names();
}

/// One is true, zero is false and null, and no other whole number is any of them; a number
/// is no text.
pub proof fn law_numbers_are_read_strictly(n: u64, less: i64)
    requires
        less < 0,
    ensures
        validation::turned("boolean"@, JsonView::Number(NumberView::Unsigned(n))) == if n == 1 {
            Some(JsonView::Bool(true))
        } else if n == 0 {
            Some(JsonView::Bool(false))
        } else {
            None
        },
        validation::turned("null"@, JsonView::Number(NumberView::Unsigned(n))) == if n == 0 {
            Some(JsonView::Null)
        } else {
            None
        },
        validation::turned("boolean"@, JsonView::Number(NumberView::Negative(less))) is None,
        validation::turned("null"@, JsonView::Number(NumberView::Negative(less))) is None,
        validation::turned("string"@, JsonView::Number(NumberView::Unsigned(n))) is None,
        validation::turned("string"@, JsonView::Number(NumberView::Negative(less))) is None,
{
    lemma_type_names();
}

proof fn lemma_written(n: nat, sign: Seq<char>)
    requires
        sign == seq!['-'] || sign == seq!['+'] || sign == Seq::<char>::empty(),
    ensures
        validation::whole_value(sign + text::decimal_text(n)) == Some(
            if sign == seq!['-'] {
                -(n as int)
            } else {
                n as int
            },
        ),
{
    text::law_decimal_text_reads_back(n);
    let d = text::decimal_text(n);
    let s = sign + d;
    if sign.len() == 0 {
        assert(s =~= d);
        assert('0' <= d[0] <= '9');
    } else {
        assert(s[0] == sign[0]);
        assert(s.skip(1) =~= d);
        assert(seq!['-'][0] == '-');
        assert(seq!['+'][0] == '+');
    }
}

/// A whole number that is written out, with a sign or without, is the integer that was
/// written, as far as integers go.
pub proof fn law_written_integer_is_read(n: nat)
    ensures
        n < 0x8000_0000_0000_0000 ==> {
            &&& validation::turned("integer"@, JsonView::Str(text::decimal_text(n))) == Some(
                JsonView::Number(NumberView::Unsigned(n as u64)),
            )
            &&& validation::turned("integer"@, JsonView::Str(seq!['+'] + text::decimal_text(n)))
                == Some(JsonView::Number(NumberView::Unsigned(n as u64)))
        },
        0 < n <= 0x8000_0000_0000_0000 ==> validation::turned(
            "integer"@,
            JsonView::Str(seq!['-'] + text::decimal_text(n)),
        ) == Some(JsonView::Number(NumberView::Negative((-(n as int)) as i64))),
        n >= 0x8000_0000_0000_0000 ==> validation::turned(
            "integer"@,
            JsonView::Str(text::decimal_text(n)),
        ) is None,
        n > 0x8000_0000_0000_0000 ==> validation::turned(
            "integer"@,
            JsonView::Str(seq!['-'] + text::decimal_text(n)),
        ) is None,
{
    lemma_type_names();
    lemma_written(n, Seq::empty());
    lemma_written(n, seq!['-']);
    lemma_written(n, seq!['+']);
    assert(Seq::<char>::empty() + text::decimal_text(n) =~= text::decimal_text(n));
}

proof fn lemma_digits_are_digits(s: Seq<char>, i: int)
    requires
        text::digits_value(s) is Some,
        0 <= i < s.len(),
    ensures
        '0' <= s[i] <= '9',
    decreases s.len(),
{
    if i < s.len() - 1 {
        lemma_digits_are_digits(s.drop_last(), i);
    }
}

/// A text with a character that is no digit, behind a sign or not, is no integer, nor is the
/// empty text.
pub proof fn law_other_text_is_no_integer(s: Seq<char>, i: int)
    requires
        s.len() == 0 || (0 <= i < s.len() && !('0' <= s[i] <= '9') && (i > 0 || (s[0] != '-' && s[0]
            != '+'))),
    ensures
        validation::turned("integer"@, JsonView::Str(s)) is None,
{
    lemma_type_names();
    if s.len() > 0 {
        let signed = s[0] == '-' || s[0] == '+';
        if signed {
            if text::digits_value(s.skip(1)) is Some {
                lemma_digits_are_digits(s.skip(1), i - 1);
                assert(s.skip(1)[i - 1] == s[i]);
            }
        } else if text::digits_value(s) is Some {
            lemma_digits_are_digits(s, i);
        }
    }
}

/// A number in a text is what it reads as: where the nearest whole number reads the same, that
/// whole number, else the fraction; what is not finite is null, and what is no number none.
pub proof fn law_text_is_read_as_a_number(n: nat, t: Seq<char>, other: Seq<char>)
    requires
        t != other,
    ensures
        n < 0x8000_0000_0000_0000 ==> validation::number_given(
            Some(Some(t)),
            Some(text::decimal_text(n)),
            Some(Some(t)),
        ) == Some(JsonView::Number(NumberView::Unsigned(n as u64))),
        0 < n <= 0x8000_0000_0000_0000 ==> validation::number_given(
            Some(Some(t)),
            Some(seq!['-'] + text::decimal_text(n)),
            Some(Some(t)),
        ) == Some(JsonView::Number(NumberView::Negative((-(n as int)) as i64))),
        n == 0x8000_0000_0000_0000 ==> validation::number_given(
            Some(Some(t)),
            Some(text::decimal_text(n)),
            Some(Some(t)),
        ) == Some(JsonView::Number(NumberView::Unsigned(0x7fff_ffff_ffff_ffff))),
        n > 0x8000_0000_0000_0000 ==> validation::number_given(
            Some(Some(t)),
            Some(text::decimal_text(n)),
            Some(Some(t)),
        ) == Some(JsonView::Number(NumberView::Decimal(t))),
        validation::number_given(Some(Some(t)), Some(text::decimal_text(n)), Some(Some(other)))
            == Some(JsonView::Number(NumberView::Decimal(t))),
        validation::number_given(Some(None), Some(text::decimal_text(n)), Some(Some(other)))
            == Some(JsonView::Null),
        validation::number_given(None, Some(text::decimal_text(n)), Some(Some(t))) is None,
{
    lemma_written(n, Seq::empty());
    lemma_written(n, seq!['-']);
    assert(Seq::<char>::empty() + text::decimal_text(n) =~= text::decimal_text(n));
}

proof fn lemma_texts_in(items: Seq<JsonView>, t: Seq<char>)
    ensures
        validation::texts_in(items).contains(t) <==> items.contains(JsonView::Str(t)),
    decreases items.len(),
{
    if items.len() > 0 {
        let front = items.drop_last();
        let before = validation::texts_in(front);
        lemma_texts_in(front, t);
        if items.contains(JsonView::Str(t)) {
            let i = choose|i: int| 0 <= i < items.len() && items[i] == JsonView::Str(t);
            if i < items.len() - 1 {
                assert(front[i] == JsonView::Str(t));
                let j = choose|j: int| 0 <= j < before.len() && before[j] == t;
                assert(validation::texts_in(items)[j] == t);
            } else {
                assert(validation::texts_in(items).last() == t);
            }
        }
        if validation::texts_in(items).contains(t) {
            let j = choose|j: int|
                0 <= j < validation::texts_in(items).len() && validation::texts_in(items)[j] == t;
            if j < before.len() {
                assert(before[j] == t);
                let i = choose|i: int| 0 <= i < front.len() && front[i] == JsonView::Str(t);
                assert(items[i] == JsonView::Str(t));
            } else {
                assert(items[items.len() - 1] == JsonView::Str(t));
            }
        }
    }
}

/// A schema allows the type that it names, or those that it lists; one without types allows
/// none by name.
pub proof fn law_schema_names_its_types(schema: JsonView, t: Seq<char>)
    ensures
        validation::types_of(schema).contains(t) <==> (schema.field_text("type"@) == Some(t) || (
        schema.field_items("type"@) is Some && schema.field_items("type"@)->0.contains(
            JsonView::Str(t),
        ))),
        schema.get("type"@) is None ==> validation::types_of(schema).len() == 0,
{
    match schema.get("type"@) {
        Some(JsonView::Str(s)) => {
            assert(seq![s][0] == s);
        },
        Some(JsonView::Array(items)) => {
            lemma_texts_in(items, t);
        },
        _ => {},
    }
}

/// A schema asks for the fields that it lists, and for no others.
pub proof fn law_schema_lists_what_it_asks_for(schema: JsonView, key: Seq<char>)
    ensures
        validation::is_required(schema, key) <==> schema.field_items("required"@) is Some
            && schema.field_items("required"@)->0.contains(JsonView::Str(key)),
        validation::property(schema, key) == schema.get2("properties"@, key),
{
    match schema.get("required"@) {
        Some(JsonView::Array(items)) => {
            lemma_texts_in(items, key);
        },
        _ => {},
    }
}

/// A schema allows null where null is one of its types, or where an arm of its unions does, and
/// nowhere else.
pub proof fn law_null_is_allowed(schema: JsonView)
    ensures
        schema.field_text("type"@) == Some("null"@) ==> validation::allows_null(schema),
        schema.field_items("type"@) is Some && schema.field_items("type"@)->0.contains(
            JsonView::Str("null"@),
        ) ==> validation::allows_null(schema),
        forall|arms: Seq<JsonView>, i: int|
            #![trigger arms[i]]
            (schema.field_items("anyOf"@) == Some(arms) || schema.field_items("oneOf"@) == Some(
                arms,
            )) && 0 <= i < arms.len() && validation::allows_null(arms[i])
                ==> validation::allows_null(schema),
        validation::allows_null(schema) ==> {
            ||| validation::types_of(schema).contains("null"@)
            ||| exists|arms: Seq<JsonView>, i: int|
                #![trigger arms[i]]
                (schema.field_items("anyOf"@) == Some(arms) || schema.field_items("oneOf"@) == Some(
                    arms,
                )) && 0 <= i < arms.len() && validation::allows_null(arms[i])
        },
{
    match schema.get("type"@) {
        Some(JsonView::Str(s)) => {
            assert(validation::types_of(schema)[0] == s);
        },
        Some(JsonView::Array(items)) => {
            lemma_texts_in(items, "null"@);
        },
        _ => {},
    }
}

/// The schema of a choice of texts is one of a text, lists the texts in their order, and says
/// what it was given to say.
pub proof fn law_choice_is_described(
    values: Seq<&str>,
    description: Option<Seq<char>>,
    default: Option<Seq<char>>,
)
    ensures
        ({
            let schema = validation::enum_schema(values, description, default);
            &&& schema.field_text("type"@) == Some("string"@)
            &&& schema.field_items("enum"@) is Some
            &&& schema.field_items("enum"@)->0.len() == values.len()
            &&& forall|i: int|
                0 <= i < values.len() ==> #[trigger] schema.field_items("enum"@)->0[i]
                    == JsonView::Str(values[i]@)
            &&& schema.field_text("description"@) == description
            &&& schema.field_text("default"@) == default
        }),
{
    reveal_strlit("type");
    reveal_strlit("enum");
    reveal_strlit("description");
    reveal_strlit("default");
    assert("type"@[0] == 't');
    assert("enum"@[0] == 'e');
    assert("description"@.len() == 11);
    assert("default"@.len() == 7);
}

/// A value becomes what the first of the types makes of it that takes it, and null is passed
/// over where it is to be.
pub proof fn law_first_type_counts(
    types: Seq<Seq<char>>,
    v: JsonView,
    skip_null: bool,
    i: int,
)
    requires
        0 <= i < types.len(),
        !(skip_null && types[i] == "null"@),
        validation::turned(types[i], v) is Some,
        forall|j: int|
            0 <= j < i ==> (skip_null && #[trigger] types[j] == "null"@) || validation::turned(
                types[j],
                v,
            ) is None,
    ensures
        validation::turned_into_first(types, v, skip_null) == validation::turned(types[i], v),
    decreases i,
{
    if i > 0 {
        let rest = types.skip(1);
        assert(rest[i - 1] == types[i]);
        assert forall|j: int| 0 <= j < i - 1 implies (skip_null && #[trigger] rest[j] == "null"@)
            || validation::turned(rest[j], v) is None by {
            assert(rest[j] == types[j + 1]);
        }
        assert((skip_null && types[0] == "null"@) || validation::turned(types[0], v) is None);
        law_first_type_counts(rest, v, skip_null, i - 1);
    }
}

/// Where no type takes a value, it becomes nothing.
pub proof fn law_no_type_no_value(types: Seq<Seq<char>>, v: JsonView, skip_null: bool)
    requires
        forall|j: int|
            0 <= j < types.len() ==> (skip_null && #[trigger] types[j] == "null"@)
                || validation::turned(types[j], v) is None,
    ensures
        validation::turned_into_first(types, v, skip_null) is None,
    decreases types.len(),
{
    if types.len() > 0 {
        let rest = types.skip(1);
        assert forall|j: int| 0 <= j < rest.len() implies (skip_null && #[trigger] rest[j]
            == "null"@) || validation::turned(rest[j], v) is None by {
            assert(rest[j] == types[j + 1]);
        }
        assert((skip_null && types[0] == "null"@) || validation::turned(types[0], v) is None);
        law_no_type_no_value(rest, v, skip_null);
    }
}

/// A union keeps a value that an arm names the type of.
pub proof fn law_union_keeps_what_matches(
    arms: Seq<JsonView>,
    v: JsonView,
    i: int,
    t: Seq<char>,
)
    requires
        0 <= i < arms.len(),
        arms[i].field_text("type"@) == Some(t),
        validation::is_of_type(t, v),
    ensures
        validation::union_coerced(arms, v) == Ok::<JsonView, Seq<char>>(v),
{
    assert(validation::types_of(arms[i])[0] == t);
    assert(validation::is_of_some_type(validation::types_of(arms[i]), v));
}

proof fn lemma_first_arm(arms: Seq<JsonView>, v: JsonView, i: int)
    requires
        0 <= i < arms.len(),
        validation::turned_into_first(validation::types_of(arms[i]), v, true) is Some,
        forall|j: int|
            0 <= j < i ==> validation::turned_into_first(
                validation::types_of(#[trigger] arms[j]),
                v,
                true,
            ) is None,
    ensures
        validation::turned_into_arm(arms, v) == validation::turned_into_first(
            validation::types_of(arms[i]),
            v,
            true,
        ),
    decreases i,
{
    if i > 0 {
        let rest = arms.skip(1);
        assert(rest[i - 1] == arms[i]);
        assert forall|j: int| 0 <= j < i - 1 implies validation::turned_into_first(
            validation::types_of(#[trigger] rest[j]),
            v,
            true,
        ) is None by {
            assert(rest[j] == arms[j + 1]);
        }
        assert(validation::turned_into_first(validation::types_of(arms[0]), v, true) is None);
        lemma_first_arm(rest, v, i - 1);
    }
}

proof fn lemma_no_arm(arms: Seq<JsonView>, v: JsonView)
    requires
        forall|j: int|
            0 <= j < arms.len() ==> validation::turned_into_first(
                validation::types_of(#[trigger] arms[j]),
                v,
                true,
            ) is None,
    ensures
        validation::turned_into_arm(arms, v) is None,
    decreases arms.len(),
{
    if arms.len() > 0 {
        let rest = arms.skip(1);
        assert forall|j: int| 0 <= j < rest.len() implies validation::turned_into_first(
            validation::types_of(#[trigger] rest[j]),
            v,
            true,
        ) is None by {
            assert(rest[j] == arms[j + 1]);
        }
        assert(validation::turned_into_first(validation::types_of(arms[0]), v, true) is None);
        lemma_no_arm(rest, v);
    }
}

/// A value that no arm of a union names the type of becomes what the first arm makes of it
/// that takes it.
pub proof fn law_union_takes_the_first_arm(arms: Seq<JsonView>, v: JsonView, i: int)
    requires
        0 <= i < arms.len(),
        forall|j: int|
            0 <= j < arms.len() ==> !validation::is_of_some_type(
                validation::types_of(#[trigger] arms[j]),
                v,
            ),
        validation::turned_into_first(validation::types_of(arms[i]), v, true) is Some,
        forall|j: int|
            0 <= j < i ==> validation::turned_into_first(
                validation::types_of(#[trigger] arms[j]),
                v,
                true,
            ) is None,
    ensures
        validation::union_coerced(arms, v) == Ok::<JsonView, Seq<char>>(
            validation::turned_into_first(validation::types_of(arms[i]), v, true)->0,
        ),
{
    lemma_first_arm(arms, v, i);
}

/// A union refuses a value that no arm takes, and says which value that is.
pub proof fn law_union_refuses_the_rest(arms: Seq<JsonView>, v: JsonView)
    requires
        forall|j: int|
            0 <= j < arms.len() ==> !validation::is_of_some_type(
                validation::types_of(#[trigger] arms[j]),
                v,
            ) && validation::turned_into_first(validation::types_of(arms[j]), v, true) is None,
    ensures
        validation::union_coerced(arms, v) is Err,
        text::holds(validation::union_coerced(arms, v)->Err_0, json_text::debug_text_of_json(v)),
{
    lemma_no_arm(arms, v);
    let d = json_text::debug_text_of_json(v);
    let e = validation::union_coerced(arms, v)->Err_0;
    let head = "value "@;
    assert(e.subrange(head.len() as int, head.len() as int + d.len()) =~= d);
    assert(text::stands_at(e, d, head.len() as int));
}

/// A schema with arms goes by them, whichever of the two ways it lists them.
pub proof fn law_arms_count(schema: JsonView, v: JsonView)
    ensures
        schema.field_items("anyOf"@) is Some ==> validation::value_coerced(schema, v)
            == validation::union_coerced(schema.field_items("anyOf"@)->0, v),
        schema.field_items("anyOf"@) is None && schema.field_items("oneOf"@) is Some
            ==> validation::value_coerced(schema, v) == validation::union_coerced(
            schema.field_items("oneOf"@)->0,
            v,
        ),
{
}

/// A value of another type becomes what the only type of a schema makes of it, or is refused.
pub proof fn law_only_type_counts(schema: JsonView, t: Seq<char>, v: JsonView)
    requires
        schema.field_items("anyOf"@) is None,
        schema.field_items("oneOf"@) is None,
        schema.field_text("type"@) == Some(t),
        !validation::is_of_type(t, v),
    ensures
        match validation::turned(t, v) {
            Some(w) => validation::value_coerced(schema, v) == Ok::<JsonView, Seq<char>>(w),
            None => validation::value_coerced(schema, v) is Err,
        },
{
    let types = validation::types_of(schema);
    assert(types =~= seq![t]);
    assert(!validation::is_of_some_type(types, v));
    if validation::turned(t, v) is Some {
        law_first_type_counts(types, v, false, 0);
    } else {
        law_no_type_no_value(types, v, false);
    }
}

/// A reference leads to the definition that its last part names, and what does not refer to a
/// definition stands for itself.
pub proof fn law_reference_leads_to_its_definition(
    schema: JsonView,
    defs: Map<Seq<char>, JsonView>,
    before: Seq<char>,
    name: Seq<char>,
)
    requires
        !name.contains('/'),
    ensures
        schema.field_text("$ref"@) == Some(before + seq!['/'] + name) || schema.field_text("$ref"@)
            == Some(name) ==> validation::referred(schema, Some(defs)) == if defs.contains_key(
            name,
        ) {
            Some(defs[name])
        } else {
            None
        },
        schema.field_text("$ref"@) is None ==> validation::referred(schema, Some(defs)) is None,
        validation::referred(schema, None) is None,
{
    text::law_text_is_parted_at_the_last(before, '/', name);
}

/// What a schema stands for refers to no definition, and is the schema itself where that does
/// not refer to one.
pub proof fn law_references_are_followed(
    schema: JsonView,
    defs: Option<Map<Seq<char>, JsonView>>,
    steps: nat,
)
    ensures
        validation::resolved(schema, defs, steps) is Some ==> validation::referred(
            validation::resolved(schema, defs, steps)->0,
            defs,
        ) is None,
        validation::referred(schema, defs) is None ==> validation::resolved(schema, defs, steps)
            == Some(schema),
        validation::referred(schema, defs) is Some ==> validation::resolved(schema, defs, steps + 1)
            == validation::resolved(validation::referred(schema, defs)->0, defs, steps),
    decreases steps,
{
    if validation::referred(schema, defs) is Some && steps > 0 {
        law_references_are_followed(
            validation::referred(schema, defs)->0,
            defs,
            (steps - 1) as nat,
        );
    }
}

/// Definitions stand under either of two names; the newer one counts first.
pub proof fn law_definitions_have_two_places(schema: JsonView)
    ensures
        schema.get("$defs"@) is Some ==> validation::definitions(schema) == match schema.get(
            "$defs"@,
        )->0 {
            JsonView::Object(m) => Some(m),
            _ => None,
        },
        schema.get("$defs"@) is None ==> validation::definitions(schema) == match schema.get(
            "definitions"@,
        ) {
            Some(JsonView::Object(m)) => Some(m),
            _ => None,
        },
{
}

/// A field of the arguments that the schema describes comes out as its schema takes it, and
/// where one fails, the arguments are refused, naming a field that the schema describes.
pub proof fn law_fields_follow_their_schemas(
    schema: JsonView,
    arguments: Map<Seq<char>, JsonView>,
    key: Seq<char>,
)
    requires
        arguments.dom().finite(),
        arguments.contains_key(key),
        validation::property(schema, key) is Some,
        validation::property(schema, key)->0.get("$ref"@) is None,
        arguments[key] is Null ==> validation::is_required(schema, key),
    ensures
        match validation::arguments_coerced(schema, JsonView::Object(arguments)) {
            Ok(w) => validation::value_coerced(
                validation::property(schema, key)->0,
                arguments[key],
            ) == match w.get(key) {
                Some(x) => Ok::<JsonView, Seq<char>>(x),
                None => Err(Seq::empty()),
            } && w.get(key) is Some,
            Err(e) => exists|k: Seq<char>| #[trigger]
                arguments.contains_key(k) && validation::property(schema, k) is Some
                    && text::begins(e, "Validation failed: "@ + k + ": "@),
        },
{
    validation::law_validation_keeps_the_fields(schema, JsonView::Object(arguments));
    let outcomes = validation::fields_coerced(schema, JsonView::Object(arguments));
    assert(outcomes.contains_key(key));
    assert(outcomes[key] == validation::field_coerced(schema, key, arguments[key]));
    match validation::arguments_coerced(schema, JsonView::Object(arguments)) {
        Ok(w) => {
            assert(w->Object_0.contains_key(key));
        },
        Err(e) => {
            let k = choose|k: Seq<char>| validation::is_first_failure(outcomes, k);
            assert(outcomes[k] == validation::field_coerced(schema, k, arguments[k]));
            let head = "Validation failed: "@ + k + ": "@;
            assert(arguments.contains_key(k));
            assert(e.take(head.len() as int) =~= head);
        },
    }
}

/// A field whose schema refers to a definition comes out as the definition takes it.
pub proof fn law_field_follows_its_definition(
    schema: JsonView,
    defs: Map<Seq<char>, JsonView>,
    before: Seq<char>,
    name: Seq<char>,
    arguments: Map<Seq<char>, JsonView>,
    key: Seq<char>,
)
    requires
        arguments.dom().finite(),
        arguments.contains_key(key),
        !(arguments[key] is Null),
        validation::definitions(schema) == Some(defs),
        defs.dom().finite(),
        !name.contains('/'),
        defs.contains_key(name),
        defs[name].get("$ref"@) is None,
        validation::property(schema, key) is Some,
        validation::property(schema, key)->0.field_text("$ref"@) == Some(
            before + seq!['/'] + name,
        ),
    ensures
        match validation::arguments_coerced(schema, JsonView::Object(arguments)) {
            Ok(w) => w.get(key) is Some && validation::value_coerced(defs[name], arguments[key])
                == Ok::<JsonView, Seq<char>>(w.get(key)->0),
            Err(_) => true,
        },
        validation::value_coerced(defs[name], arguments[key]) is Err
            ==> validation::arguments_coerced(schema, JsonView::Object(arguments)) is Err,
{
    let ps = validation::property(schema, key)->0;
    law_reference_leads_to_its_definition(ps, defs, before, name);
    law_reference_leads_to_its_definition(defs[name], defs, before, name);
    reveal_with_fuel(validation::resolved, 2);
    assert(validation::resolved(ps, Some(defs), 1) == Some(defs[name]));
    validation::law_references_end_in_time(ps, Some(defs), 1);
    validation::law_validation_keeps_the_fields(schema, JsonView::Object(arguments));
    let outcomes = validation::fields_coerced(schema, JsonView::Object(arguments));
    assert(outcomes.contains_key(key));
    assert(outcomes[key] == validation::field_coerced(schema, key, arguments[key]));
    match validation::arguments_coerced(schema, JsonView::Object(arguments)) {
        Ok(w) => {
            assert(w->Object_0.contains_key(key));
        },
        Err(_) => {},
    }
}

/// A schema that names no types and no arms takes every value as it is, but for the fields of an
/// object that it describes, which are taken as arguments are.
pub proof fn law_open_schema_takes_all(schema: JsonView, v: JsonView)
    requires
        schema.get("type"@) is None,
        schema.field_items("anyOf"@) is None,
        schema.field_items("oneOf"@) is None,
    ensures
        !(v is Object) || schema.get("properties"@) is None ==> validation::value_coerced(schema, v)
            == Ok::<JsonView, Seq<char>>(v),
        v is Object && schema.get("properties"@) is Some ==> validation::value_coerced(schema, v)
            == validation::arguments_coerced(schema, v),
{
}

/// An object that a schema describes field by field is taken as arguments are.
pub proof fn law_inner_objects_are_checked(schema: JsonView, v: JsonView)
    requires
        schema.field_text("type"@) == Some("object"@),
        schema.field_items("anyOf"@) is None,
        schema.field_items("oneOf"@) is None,
        schema.get("properties"@) is Some,
        v is Object,
    ensures
        validation::value_coerced(schema, v) == validation::arguments_coerced(schema, v),
{
    lemma_type_names();
    assert(validation::types_of(schema)[0] == "object"@);
    assert(validation::is_of_some_type(validation::types_of(schema), v));
}

/// Arguments that are no object are refused, whatever the schema.
pub proof fn law_arguments_are_an_object(schema: JsonView, v: JsonView)
    requires
        !(v is Object),
    ensures
        validation::arguments_coerced(schema, v) == Err::<JsonView, Seq<char>>(
            "Validation failed: arguments must be an object"@,
        ),
{
}

/// A schema without a reference stands for itself.
proof fn lemma_stands_for_itself(schema: JsonView, defs: Option<Map<Seq<char>, JsonView>>, n: nat)
    requires
        schema.get("$ref"@) is None,
    ensures
        validation::resolved(schema, defs, n) == Some(schema),
{
}

/// Arguments of which every field is unknown to the schema or taken by its own schema are taken.
pub proof fn law_good_fields_are_accepted(schema: JsonView, arguments: Map<Seq<char>, JsonView>)
    requires
        forall|key: Seq<char>| #[trigger]
            arguments.contains_key(key) ==> validation::property(schema, key) is None || (
            validation::property(schema, key)->0.get("$ref"@) is None && validation::value_coerced(
                validation::property(schema, key)->0,
                arguments[key],
            ) is Ok),
    ensures
        validation::arguments_coerced(schema, JsonView::Object(arguments)) is Ok,
{
    let outcomes = validation::fields_coerced(schema, JsonView::Object(arguments));
    let defs = validation::definitions(schema);
    assert forall|key: Seq<char>| !validation::is_first_failure(outcomes, key) by {
        if outcomes.contains_key(key) {
            assert(arguments.contains_key(key));
            assert(outcomes[key] == validation::field_coerced(schema, key, arguments[key]));
            if validation::property(schema, key) is Some {
                lemma_stands_for_itself(
                    validation::property(schema, key)->0,
                    defs,
                    validation::definition_count(defs),
                );
            }
        }
    }
}

/// A lone field whose schema refers to a definition is taken where the definition takes it, and
/// one whose references never end is refused with that as the reason.
pub proof fn law_lone_field_follows_its_definition(
    schema: JsonView,
    defs: Map<Seq<char>, JsonView>,
    before: Seq<char>,
    name: Seq<char>,
    key: Seq<char>,
    v: JsonView,
)
    requires
        !(v is Null),
        validation::definitions(schema) == Some(defs),
        defs.dom().finite(),
        !name.contains('/'),
        defs.contains_key(name),
        validation::property(schema, key) is Some,
        validation::property(schema, key)->0.field_text("$ref"@) == Some(
            before + seq!['/'] + name,
        ),
    ensures
        defs[name].get("$ref"@) is None && validation::value_coerced(defs[name], v) is Ok
            ==> validation::arguments_coerced(
            schema,
            JsonView::Object(Map::empty().insert(key, v)),
        ) is Ok,
        defs[name] == validation::property(schema, key)->0 ==> validation::arguments_coerced(
            schema,
            JsonView::Object(Map::empty().insert(key, v)),
        ) == Err::<JsonView, Seq<char>>(
            "Validation failed: "@ + key + ": "@ + "schema references itself without end"@,
        ),
{
    let ps = validation::property(schema, key)->0;
    let one = Map::<Seq<char>, JsonView>::empty().insert(key, v);
    let outcomes = validation::fields_coerced(schema, JsonView::Object(one));
    law_reference_leads_to_its_definition(ps, defs, before, name);
    assert(one.contains_key(key));
    assert(outcomes.contains_key(key));
    assert(outcomes[key] == validation::field_coerced(schema, key, v));
    assert forall|other: Seq<char>| #[trigger] outcomes.contains_key(other) implies other == key by {
        assert(one.contains_key(other));
    }
    if defs[name].get("$ref"@) is None {
        law_reference_leads_to_its_definition(defs[name], defs, before, name);
        reveal_with_fuel(validation::resolved, 2);
        assert(validation::resolved(ps, Some(defs), 1) == Some(defs[name]));
        validation::law_references_end_in_time(ps, Some(defs), 1);
        if validation::value_coerced(defs[name], v) is Ok {
            assert(outcomes[key] is Keep);
            assert forall|other: Seq<char>| !validation::is_first_failure(outcomes, other) by {
                if outcomes.contains_key(other) {
                    assert(other == key);
                }
            }
        }
    }
    if defs[name] == ps {
        lemma_never_ends(ps, defs, validation::definition_count(Some(defs)));
        assert(outcomes[key] is Fail);
        text::lemma_text_le_total(key, key);
        assert(validation::is_first_failure(outcomes, key));
        let picked = choose|k: Seq<char>| validation::is_first_failure(outcomes, k);
        assert(outcomes.contains_key(picked));
        assert(picked == key);
    }
}

proof fn lemma_never_ends(schema: JsonView, defs: Map<Seq<char>, JsonView>, n: nat)
    requires
        validation::referred(schema, Some(defs)) == Some(schema),
    ensures
        validation::resolved(schema, Some(defs), n) is None,
    decreases n,
{
    if n > 0 {
        lemma_never_ends(schema, defs, (n - 1) as nat);
    }
}

/// A decimal is true where it is one, and false and null where it is zero, of either sign.
pub proof fn law_decimals_are_read_strictly(digits: Seq<char>)
    ensures
        ({
            let n = NumberView::Decimal(digits);
            let d = json_text::double_of_number(n);
            &&& d == Some("1.0"@) ==> validation::turned("boolean"@, JsonView::Number(n)) == Some(
                JsonView::Bool(true),
            )
            &&& d == Some("0.0"@) || d == Some("-0.0"@) ==> validation::turned(
                "boolean"@,
                JsonView::Number(n),
            ) == Some(JsonView::Bool(false)) && validation::turned("null"@, JsonView::Number(n))
                == Some(JsonView::Null)
            &&& d != Some("1.0"@) && d != Some("0.0"@) && d != Some("-0.0"@)
                ==> validation::turned("boolean"@, JsonView::Number(n)) is None
                && validation::turned("null"@, JsonView::Number(n)) is None
        }),
{
    lemma_type_names();
    reveal_strlit("1.0");
    reveal_strlit("0.0");
    reveal_strlit("-0.0");
    assert("1.0"@[0] == '1' && "0.0"@[0] == '0' && "-0.0"@.len() == 4 && "1.0"@.len() == 3);
}

} // verus!
