//! JSON values and their mathematical model.
//!
//! An object is a finite map from names to values. A list of fields that names
//! one key twice means what its last entry says.
use vstd::prelude::*;
use crate::json_text;
use crate::json_text::number_as_double;
use crate::text;
use crate::text::{same_text, text_at_most};
use crate::views;

verus! {

broadcast use crate::views::group_views;

/// A JSON number. A number with a fraction or an exponent is kept as the
/// shortest decimal text that reads back as the same double.
pub enum Number {
    Unsigned(u64),
    Negative(i64),
    Decimal(String),
}

pub enum NumberView {
    Unsigned(u64),
    Negative(i64),
    Decimal(Seq<char>),
}

pub enum Json {
    Null,
    Bool(bool),
    Number(Number),
    Str(String),
    Array(Vec<Json>),
    Object(Vec<(String, Json)>),
}

/// What a [`Json`] value means.
#[verifier::ext_equal]
pub enum JsonView {
    Null,
    Bool(bool),
    Number(NumberView),
    Str(Seq<char>),
    Array(Seq<JsonView>),
    Object(Map<Seq<char>, JsonView>),
}

impl View for Number {
    type V = NumberView;

    open spec fn view(&self) -> NumberView {
        match *self {
            Number::Unsigned(n) => NumberView::Unsigned(n),
            Number::Negative(n) => NumberView::Negative(n),
            Number::Decimal(text) => NumberView::Decimal(text@),
        }
    }
}

pub open spec fn json_view(json: Json) -> JsonView
    decreases json,
{
    match json {
        Json::Null => JsonView::Null,
        Json::Bool(b) => JsonView::Bool(b),
        Json::Number(n) => JsonView::Number(n@),
        Json::Str(s) => JsonView::Str(s@),
        Json::Array(items) => JsonView::Array(
            Seq::new(
                items@.len(),
                |i: int|
                    if 0 <= i < items@.len() {
                        json_view(items@[i])
                    } else {
                        JsonView::Null
                    },
            ),
        ),
        Json::Object(fields) => JsonView::Object(fields_view(fields@)),
    }
}

/// The map that a list of fields stands for.
pub open spec fn fields_view(fields: Seq<(String, Json)>) -> Map<Seq<char>, JsonView>
    decreases fields,
{
    if fields.len() == 0 {
        Map::empty()
    } else {
        fields_view(fields.drop_last()).insert(fields.last().0@, json_view(fields.last().1))
    }
}

impl View for Json {
    type V = JsonView;

    open spec fn view(&self) -> JsonView {
        json_view(*self)
    }
}

impl JsonView {
    /// The value of field `key`, if this is an object that has it.
    pub open spec fn get(self, key: Seq<char>) -> Option<JsonView> {
        match self {
            JsonView::Object(m) => if m.contains_key(key) {
                Some(m[key])
            } else {
                None
            },
            _ => None,
        }
    }

    pub open spec fn text(self) -> Option<Seq<char>> {
        match self {
            JsonView::Str(s) => Some(s),
            _ => None,
        }
    }

    pub open spec fn boolean(self) -> Option<bool> {
        match self {
            JsonView::Bool(b) => Some(b),
            _ => None,
        }
    }

    pub open spec fn items(self) -> Option<Seq<JsonView>> {
        match self {
            JsonView::Array(s) => Some(s),
            _ => None,
        }
    }

    pub open spec fn fields(self) -> Option<Map<Seq<char>, JsonView>> {
        match self {
            JsonView::Object(m) => Some(m),
            _ => None,
        }
    }

    /// The number, where it is a non-negative integer below 2^64.
    pub open spec fn unsigned(self) -> Option<u64> {
        match self {
            JsonView::Number(NumberView::Unsigned(n)) => Some(n),
            _ => None,
        }
    }

    /// The number, where it is an integer that a signed 64-bit word holds.
    pub open spec fn signed(self) -> Option<i64> {
        match self {
            JsonView::Number(NumberView::Unsigned(n)) => if n <= i64::MAX {
                Some(n as i64)
            } else {
                None
            },
            JsonView::Number(NumberView::Negative(n)) => Some(n),
            _ => None,
        }
    }

    /// The text in field `key`.
    pub open spec fn field_text(self, key: Seq<char>) -> Option<Seq<char>> {
        match self.get(key) {
            Some(v) => v.text(),
            None => None,
        }
    }

    pub open spec fn field_unsigned(self, key: Seq<char>) -> Option<u64> {
        match self.get(key) {
            Some(v) => v.unsigned(),
            None => None,
        }
    }

    pub open spec fn field_boolean(self, key: Seq<char>) -> Option<bool> {
        match self.get(key) {
            Some(v) => v.boolean(),
            None => None,
        }
    }

    pub open spec fn field_items(self, key: Seq<char>) -> Option<Seq<JsonView>> {
        match self.get(key) {
            Some(v) => v.items(),
            None => None,
        }
    }

    /// The value of field `inner` of field `outer`.
    pub open spec fn get2(self, outer: Seq<char>, inner: Seq<char>) -> Option<JsonView> {
        match self.get(outer) {
            Some(v) => v.get(inner),
            None => None,
        }
    }

    pub open spec fn text2(self, outer: Seq<char>, inner: Seq<char>) -> Option<Seq<char>> {
        match self.get2(outer, inner) {
            Some(v) => v.text(),
            None => None,
        }
    }

    pub open spec fn unsigned2(self, outer: Seq<char>, inner: Seq<char>) -> Option<u64> {
        match self.get2(outer, inner) {
            Some(v) => v.unsigned(),
            None => None,
        }
    }

    /// The object without fields.
    pub open spec fn object() -> JsonView {
        JsonView::Object(Map::empty())
    }

    /// This object with field `key` set to `value`.
    pub open spec fn with(self, key: Seq<char>, value: JsonView) -> JsonView {
        match self {
            JsonView::Object(m) => JsonView::Object(m.insert(key, value)),
            _ => self,
        }
    }

    /// This object without field `key`.
    pub open spec fn without(self, key: Seq<char>) -> JsonView {
        match self {
            JsonView::Object(m) => JsonView::Object(m.remove(key)),
            _ => self,
        }
    }

    /// This object with field `key` set to `value` where there is one.
    pub open spec fn with_opt(self, key: Seq<char>, value: Option<JsonView>) -> JsonView {
        match value {
            Some(v) => self.with(key, v),
            None => self,
        }
    }
}

/// The JSON string `s`.
pub open spec fn jtext(s: Seq<char>) -> JsonView {
    JsonView::Str(s)
}

/// The JSON number `n`.
pub open spec fn junsigned(n: u64) -> JsonView {
    JsonView::Number(NumberView::Unsigned(n))
}

pub broadcast proof fn lemma_array_view(items: Vec<Json>)
    ensures
        #[trigger] json_view(Json::Array(items)) == JsonView::Array(views::all(items@)),
{
    assert(json_view(Json::Array(items))->Array_0 =~= views::all(items@));
}

proof fn lemma_fields_push(fields: Seq<(String, Json)>, field: (String, Json))
    ensures
        fields_view(fields.push(field)) == fields_view(fields).insert(
            field.0@,
            json_view(field.1),
        ),
{
    assert(fields.push(field).drop_last() =~= fields);
}

/// Replacing the last entry for a key rebinds that key.
proof fn lemma_fields_update(fields: Seq<(String, Json)>, i: int, field: (String, Json))
    requires
        0 <= i < fields.len(),
        fields[i].0@ == field.0@,
        forall|j: int| i < j < fields.len() ==> (#[trigger] fields[j]).0@ != field.0@,
    ensures
        fields_view(fields.update(i, field)) =~= fields_view(fields).insert(
            field.0@,
            json_view(field.1),
        ),
    decreases fields.len(),
{
    if i == fields.len() - 1 {
        assert(fields.update(i, field).drop_last() =~= fields.drop_last());
    } else {
        lemma_fields_update(fields.drop_last(), i, field);
        assert(fields.update(i, field).drop_last() =~= fields.drop_last().update(i, field));
        assert(fields.last().0@ != field.0@);
    }
}

/// A key that no entry names is not in the map.
proof fn lemma_fields_absent(fields: Seq<(String, Json)>, key: Seq<char>)
    requires
        forall|j: int| 0 <= j < fields.len() ==> (#[trigger] fields[j]).0@ != key,
    ensures
        !fields_view(fields).contains_key(key),
    decreases fields.len(),
{
    if fields.len() > 0 {
        lemma_fields_absent(fields.drop_last(), key);
        assert(fields.last().0@ != key);
    }
}

/// The last entry for a key is the one that counts.
proof fn lemma_fields_last(fields: Seq<(String, Json)>, i: int, key: Seq<char>)
    requires
        0 <= i < fields.len(),
        fields[i].0@ == key,
        forall|j: int| i < j < fields.len() ==> (#[trigger] fields[j]).0@ != key,
    ensures
        fields_view(fields).contains_key(key),
        fields_view(fields)[key] == json_view(fields[i].1),
    decreases fields.len(),
{
    if i < fields.len() - 1 {
        lemma_fields_last(fields.drop_last(), i, key);
        assert(fields.last().0@ != key);
    }
}

/// Where the last entry for `key` stands.
fn find_field(fields: &Vec<(String, Json)>, key: &str) -> (r: Option<usize>)
    ensures
        match r {
            Some(i) => {
                &&& i < fields@.len()
                &&& fields@[i as int].0@ == key@
                &&& forall|j: int| i < j < fields@.len() ==> (#[trigger] fields@[j]).0@ != key@
            },
            None => forall|j: int| 0 <= j < fields@.len() ==> (#[trigger] fields@[j]).0@ != key@,
        },
{
    let mut i: usize = fields.len();
    while i > 0
        invariant
            i <= fields@.len(),
            forall|j: int| i <= j < fields@.len() ==> (#[trigger] fields@[j]).0@ != key@,
        decreases i,
    {
        i = i - 1;
        if same_text(fields[i].0.as_str(), key) {
            return Some(i);
        }
    }
    None
}

impl Json {
    /// The value of field `key`.
    pub fn get<'a>(&'a self, key: &str) -> (r: Option<&'a Json>)
        ensures
            views::opt(r) == self@.get(key@),
            r is Some ==> decreases_to!(*self => *r->0),
    {
        match self {
            Json::Object(fields) => {
                match find_field(fields, key) {
                    Some(i) => {
                        proof {
                            lemma_fields_last(fields@, i as int, key@);
                        }
                        let found = &fields[i].1;
                        Some(found)
                    },
                    None => {
                        proof {
                            lemma_fields_absent(fields@, key@);
                        }
                        None
                    },
                }
            },
            _ => None,
        }
    }

    pub fn as_str<'a>(&'a self) -> (r: Option<&'a str>)
        ensures
            views::opt(r) == self@.text(),
    {
        match self {
            Json::Str(s) => Some(s.as_str()),
            _ => None,
        }
    }

    pub fn as_bool(&self) -> (r: Option<bool>)
        ensures
            r == self@.boolean(),
    {
        match self {
            Json::Bool(b) => Some(*b),
            _ => None,
        }
    }

    pub fn as_u64(&self) -> (r: Option<u64>)
        ensures
            r == self@.unsigned(),
    {
        match self {
            Json::Number(Number::Unsigned(n)) => Some(*n),
            _ => None,
        }
    }

    pub fn as_i64(&self) -> (r: Option<i64>)
        ensures
            r == self@.signed(),
    {
        match self {
            Json::Number(Number::Unsigned(n)) => if *n <= i64::MAX as u64 {
                Some(*n as i64)
            } else {
                None
            },
            Json::Number(Number::Negative(n)) => Some(*n),
            _ => None,
        }
    }

    pub fn as_array<'a>(&'a self) -> (r: Option<&'a Vec<Json>>)
        ensures
            match r {
                Some(v) => self@.items() == Some(views::all(v@)) && decreases_to!(*self => *v),
                None => self@.items() is None,
            },
    {
        match self {
            Json::Array(items) => {
                proof {
                    lemma_array_view(*items);
                }
                Some(items)
            },
            _ => None,
        }
    }

    pub fn is_object(&self) -> (r: bool)
        ensures
            r == (self@ is Object),
    {
        match self {
            Json::Object(_) => true,
            _ => false,
        }
    }

    /// The text in field `key`.
    pub fn field_str<'a>(&'a self, key: &str) -> (r: Option<&'a str>)
        ensures
            views::opt(r) == self@.field_text(key@),
    {
        match self.get(key) {
            Some(v) => v.as_str(),
            None => None,
        }
    }

    pub fn field_u64(&self, key: &str) -> (r: Option<u64>)
        ensures
            r == self@.field_unsigned(key@),
    {
        match self.get(key) {
            Some(v) => v.as_u64(),
            None => None,
        }
    }

    pub fn field_bool(&self, key: &str) -> (r: Option<bool>)
        ensures
            r == self@.field_boolean(key@),
    {
        match self.get(key) {
            Some(v) => v.as_bool(),
            None => None,
        }
    }

    pub fn field_array<'a>(&'a self, key: &str) -> (r: Option<&'a Vec<Json>>)
        ensures
            match r {
                Some(v) => self@.field_items(key@) == Some(views::all(v@)),
                None => self@.field_items(key@) is None,
            },
    {
        match self.get(key) {
            Some(v) => v.as_array(),
            None => None,
        }
    }

    /// The value of field `inner` of field `outer`.
    pub fn get2<'a>(&'a self, outer: &str, inner: &str) -> (r: Option<&'a Json>)
        ensures
            views::opt(r) == self@.get2(outer@, inner@),
    {
        match self.get(outer) {
            Some(v) => v.get(inner),
            None => None,
        }
    }

    pub fn str2<'a>(&'a self, outer: &str, inner: &str) -> (r: Option<&'a str>)
        ensures
            views::opt(r) == self@.text2(outer@, inner@),
    {
        match self.get2(outer, inner) {
            Some(v) => v.as_str(),
            None => None,
        }
    }

    pub fn u64_2(&self, outer: &str, inner: &str) -> (r: Option<u64>)
        ensures
            r == self@.unsigned2(outer@, inner@),
    {
        match self.get2(outer, inner) {
            Some(v) => v.as_u64(),
            None => None,
        }
    }

    /// The object without fields.
    pub fn object() -> (r: Json)
        ensures
            r@ == JsonView::object(),
    {
        let fields: Vec<(String, Json)> = Vec::new();
        assert(fields_view(fields@) =~= Map::empty());
        Json::Object(fields)
    }

    /// A JSON string.
    pub fn text(s: &str) -> (r: Json)
        ensures
            r@ == jtext(s@),
    {
        Json::Str(s.to_owned())
    }

    /// A JSON string from an owned text.
    pub fn string(s: String) -> (r: Json)
        ensures
            r@ == jtext(s@),
    {
        Json::Str(s)
    }

    pub fn unsigned(n: u64) -> (r: Json)
        ensures
            r@ == junsigned(n),
    {
        Json::Number(Number::Unsigned(n))
    }

    /// A JSON array.
    pub fn array(items: Vec<Json>) -> (r: Json)
        ensures
            r@ == JsonView::Array(views::all(items@)),
    {
        proof {
            lemma_array_view(items);
        }
        Json::Array(items)
    }

    /// Sets field `key` of an object; any other value stays as it is.
    pub fn set(&mut self, key: &str, value: Json)
        ensures
            final(self)@ == old(self)@.with(key@, value@),
    {
        match self {
            Json::Object(fields) => {
                match find_field(fields, key) {
                    Some(i) => {
                        let field = (key.to_owned(), value);
                        proof {
                            lemma_fields_update(fields@, i as int, field);
                        }
                        fields.set(i, field);
                    },
                    None => {
                        let field = (key.to_owned(), value);
                        proof {
                            lemma_fields_push(fields@, field);
                        }
                        fields.push(field);
                    },
                }
            },
            _ => {},
        }
    }

    /// This object with field `key` set.
    pub fn with(self, key: &str, value: Json) -> (r: Json)
        ensures
            r@ == self@.with(key@, value@),
    {
        let mut out = self;
        out.set(key, value);
        out
    }
}


/// A list of fields that holds no entry for `key`, and otherwise the same map.
fn fields_without(fields: &Vec<(String, Json)>, key: &str) -> (r: Vec<(String, Json)>)
    ensures
        fields_view(r@) == fields_view(fields@).remove(key@),
    decreases fields,
{
    let mut out: Vec<(String, Json)> = Vec::new();
    let mut i: usize = 0;
    assert(fields_view(fields@.take(0)) =~= Map::empty());
    assert(fields_view(out@) =~= fields_view(fields@.take(0)).remove(key@));
    while i < fields.len()
        invariant
            i <= fields@.len(),
            fields_view(out@) == fields_view(fields@.take(i as int)).remove(key@),
        decreases fields@.len() - i,
    {
        assert(fields@.take(i + 1).drop_last() =~= fields@.take(i as int));
        if !same_text(fields[i].0.as_str(), key) {
            let copy = clone_json(&fields[i].1);
            let field = (fields[i].0.clone(), copy);
            proof {
                lemma_fields_push(out@, field);
            }
            out.push(field);
            assert(fields_view(out@) =~= fields_view(fields@.take(i + 1)).remove(key@));
        } else {
            assert(fields_view(out@) =~= fields_view(fields@.take(i + 1)).remove(key@));
        }
        i = i + 1;
    }
    assert(fields@.take(i as int) =~= fields@);
    out
}

/// A deep copy.
pub fn clone_json(json: &Json) -> (r: Json)
    ensures
        r@ == json@,
    decreases json,
{
    match json {
        Json::Null => Json::Null,
        Json::Bool(b) => Json::Bool(*b),
        Json::Number(n) => Json::Number(n.clone()),
        Json::Str(s) => Json::Str(s.clone()),
        Json::Array(items) => {
            let copy = clone_items(items);
            proof {
                lemma_array_view(copy);
                lemma_array_view(*items);
            }
            Json::Array(copy)
        },
        Json::Object(fields) => {
            let mut out: Vec<(String, Json)> = Vec::new();
            let mut i: usize = 0;
            assert(fields@.take(0) =~= out@);
            while i < fields.len()
                invariant
                    i <= fields@.len(),
                    fields_view(out@) == fields_view(fields@.take(i as int)),
                    decreases_to!(json => fields),
                decreases fields@.len() - i,
            {
                assert(fields@.take(i + 1).drop_last() =~= fields@.take(i as int));
                let copy = clone_json(&fields[i].1);
                let field = (fields[i].0.clone(), copy);
                proof {
                    lemma_fields_push(out@, field);
                }
                out.push(field);
                i = i + 1;
            }
            assert(fields@.take(i as int) =~= fields@);
            Json::Object(out)
        },
    }
}

/// A deep copy of each item.
pub fn clone_items(items: &Vec<Json>) -> (r: Vec<Json>)
    ensures
        views::all(r@) == views::all(items@),
    decreases items,
{
    let mut out: Vec<Json> = Vec::new();
    let mut i: usize = 0;
    while i < items.len()
        invariant
            i <= items@.len(),
            views::all(out@) == views::all(items@).take(i as int),
        decreases items@.len() - i,
    {
        let copy = clone_json(&items[i]);
        out.push(copy);
        proof {
            views::lemma_take_step(views::all(items@), i as int);
        }
        i = i + 1;
    }
    proof {
        views::lemma_take_all(views::all(items@));
    }
    out
}

impl Clone for Number {
    fn clone(&self) -> (r: Number)
        ensures
            r == *self,
    {
        match self {
            Number::Unsigned(n) => Number::Unsigned(*n),
            Number::Negative(n) => Number::Negative(*n),
            Number::Decimal(s) => Number::Decimal(s.clone()),
        }
    }
}

impl Clone for Json {
    fn clone(&self) -> (r: Json)
        ensures
            r@ == self@,
    {
        clone_json(self)
    }
}

impl Json {
    /// This object without field `key`; any other value as it is.
    pub fn without(&self, key: &str) -> (r: Json)
        ensures
            r@ == self@.without(key@),
    {
        match self {
            Json::Object(fields) => Json::Object(fields_without(fields, key)),
            _ => clone_json(self),
        }
    }
}


/// A name is in the map exactly where some entry names it.
proof fn lemma_fields_keys(fields: Seq<(String, Json)>, key: Seq<char>)
    ensures
        fields_view(fields).contains_key(key) <==> exists|j: int|
            0 <= j < fields.len() && (#[trigger] fields[j]).0@ == key,
    decreases fields.len(),
{
    if fields.len() > 0 {
        let init = fields.drop_last();
        lemma_fields_keys(init, key);
        assert forall|j: int| 0 <= j < init.len() implies #[trigger] init[j] == fields[j] by {}
        if fields_view(fields).contains_key(key) {
            if fields.last().0@ == key {
                assert(fields[fields.len() - 1].0@ == key);
            } else {
                let j = choose|j: int| 0 <= j < init.len() && (#[trigger] init[j]).0@ == key;
                assert(fields[j].0@ == key);
            }
        }
        if exists|j: int| 0 <= j < fields.len() && (#[trigger] fields[j]).0@ == key {
            let j = choose|j: int| 0 <= j < fields.len() && (#[trigger] fields[j]).0@ == key;
            if j < fields.len() - 1 {
                assert(init[j].0@ == key);
            }
        }
    }
}

/// Whether `key` is the first key of the map in the order of texts.
pub open spec fn is_least_key(m: Map<Seq<char>, JsonView>, key: Seq<char>) -> bool {
    &&& m.contains_key(key)
    &&& forall|other: Seq<char>| #[trigger] m.contains_key(other) ==> text::text_le(key, other)
}

/// The first key of the map in the order of texts, where it has any.
pub open spec fn least_key(m: Map<Seq<char>, JsonView>) -> Option<Seq<char>> {
    if exists|key: Seq<char>| is_least_key(m, key) {
        Some(choose|key: Seq<char>| is_least_key(m, key))
    } else {
        None
    }
}

pub proof fn lemma_least_key(m: Map<Seq<char>, JsonView>, key: Seq<char>)
    requires
        is_least_key(m, key),
    ensures
        least_key(m) == Some(key),
{
    let picked = choose|k: Seq<char>| is_least_key(m, k);
    text::lemma_text_le_antisymmetric(picked, key);
}

impl Json {
    /// The field names of an object, each once.
    pub fn keys(&self) -> (r: Vec<String>)
        ensures
            views::all(r@).no_duplicates(),
            match self@ {
                JsonView::Object(m) => forall|key: Seq<char>| #[trigger]
                    m.contains_key(key) <==> views::all(r@).contains(key),
                _ => r@.len() == 0,
            },
    {
        let mut out: Vec<String> = Vec::new();
        match self {
            Json::Object(fields) => {
                let ghost m = fields_view(fields@);
                let mut i: usize = 0;
                while i < fields.len()
                    invariant
                        i <= fields@.len(),
                        views::all(out@).no_duplicates(),
                        forall|key: Seq<char>| #[trigger]
                            views::all(out@).contains(key) <==> exists|j: int|
                                0 <= j < i && (#[trigger] fields@[j]).0@ == key,
                    decreases fields@.len() - i,
                {
                    let ghost before = views::all(out@);
                    let ghost new = fields@[i as int].0@;
                    if !text::is_one_of(&out, fields[i].0.as_str()) {
                        out.push(fields[i].0.clone());
                        assert(views::all(out@) == before.push(new));
                        assert(views::all(out@).last() == new);
                    }
                    proof {
                        let all = views::all(out@);
                        assert forall|key: Seq<char>| #[trigger] all.contains(key) implies exists|
                            j: int,
                        |
                            0 <= j < i + 1 && (#[trigger] fields@[j]).0@ == key by {
                            if before.contains(key) {
                                let j = choose|j: int|
                                    0 <= j < i && (#[trigger] fields@[j]).0@ == key;
                                assert(fields@[j].0@ == key);
                            } else {
                                assert(fields@[i as int].0@ == key);
                            }
                        }
                        assert forall|j: int| 0 <= j < i + 1 implies all.contains(
                            (#[trigger] fields@[j]).0@,
                        ) by {
                            if j < i {
                                let key = fields@[j].0@;
                                assert(before.contains(key));
                                let n = choose|n: int| 0 <= n < before.len() && before[n] == key;
                                assert(all[n] == key);
                            } else if !before.contains(new) {
                                assert(all[all.len() - 1] == new);
                            }
                        }
                    }
                    i = i + 1;
                }
                proof {
                    assert forall|key: Seq<char>| #[trigger] m.contains_key(key) <==> views::all(
                        out@,
                    ).contains(key) by {
                        lemma_fields_keys(fields@, key);
                    }
                }
            },
            _ => {},
        }
        out
    }

    /// The first field name of an object, in the order of texts.
    pub fn first_key(&self) -> (r: Option<String>)
        ensures
            views::opt(r) == match self@ {
                JsonView::Object(m) => least_key(m),
                _ => None,
            },
    {
        match self {
            Json::Object(fields) => {
                let ghost m = fields_view(fields@);
                if fields.len() == 0 {
                    assert(least_key(m) is None);
                    return None;
                }
                let mut best: usize = 0;
                let mut i: usize = 1;
                proof {
                    text::lemma_text_le_total(fields@[0].0@, fields@[0].0@);
                }
                while i < fields.len()
                    invariant
                        best < i <= fields@.len(),
                        forall|j: int|
                            0 <= j < i ==> text::text_le(
                                fields@[best as int].0@,
                                (#[trigger] fields@[j]).0@,
                            ),
                    decreases fields@.len() - i,
                {
                    proof {
                        text::lemma_text_le_total(fields@[best as int].0@, fields@[i as int].0@);
                        text::lemma_text_le_total(fields@[i as int].0@, fields@[i as int].0@);
                    }
                    if !text_at_most(fields[best].0.as_str(), fields[i].0.as_str()) {
                        proof {
                            assert forall|j: int| 0 <= j < i implies text::text_le(
                                fields@[i as int].0@,
                                (#[trigger] fields@[j]).0@,
                            ) by {
                                text::lemma_text_le_transitive(
                                    fields@[i as int].0@,
                                    fields@[best as int].0@,
                                    fields@[j].0@,
                                );
                            }
                        }
                        best = i;
                    }
                    i = i + 1;
                }
                proof {
                    let key = fields@[best as int].0@;
                    lemma_fields_keys(fields@, key);
                    assert forall|other: Seq<char>| #[trigger]
                        m.contains_key(other) implies text::text_le(key, other) by {
                        lemma_fields_keys(fields@, other);
                    }
                    lemma_least_key(m, key);
                }
                Some(fields[best].0.clone())
            },
            _ => None,
        }
    }
}

/// Whether two texts are of one double: the two zeros are the same.
pub open spec fn same_double(a: Seq<char>, b: Seq<char>) -> bool {
    a == b || ((a == "0.0"@ || a == "-0.0"@) && (b == "0.0"@ || b == "-0.0"@))
}

/// Whether two numbers are the same: decimals by the doubles that they are. A decimal that
/// is no finite double is none, and two such are the same.
pub open spec fn alike_numbers(a: NumberView, b: NumberView) -> bool {
    match (a, b) {
        (NumberView::Decimal(_), NumberView::Decimal(_)) => match (
            json_text::double_of_number(a),
            json_text::double_of_number(b),
        ) {
            (Some(x), Some(y)) => same_double(x, y),
            (None, None) => true,
            _ => false,
        },
        _ => a == b,
    }
}

/// Whether a value is null, as a decimal that is no finite double is too.
pub open spec fn stands_for_null(v: JsonView) -> bool {
    match v {
        JsonView::Null => true,
        JsonView::Number(n) => n is Decimal && json_text::double_of_number(n) is None,
        _ => false,
    }
}

/// Whether two values are the same, whatever their decimals are written like.
pub open spec fn alike(a: JsonView, b: JsonView) -> bool
    decreases a,
{
    if stands_for_null(a) || stands_for_null(b) {
        stands_for_null(a) && stands_for_null(b)
    } else {
        match (a, b) {
            (JsonView::Number(x), JsonView::Number(y)) => alike_numbers(x, y),
            (JsonView::Array(x), JsonView::Array(y)) => x.len() == y.len() && forall|i: int|
                0 <= i < x.len() ==> alike(#[trigger] x[i], y[i]),
            (JsonView::Object(x), JsonView::Object(y)) => {
                &&& forall|key: Seq<char>| #[trigger] x.contains_key(key) <==> y.contains_key(key)
                &&& forall|key: Seq<char>| #[trigger]
                    x.contains_key(key) ==> alike(x[key], y[key])
            },
            _ => a == b,
        }
    }
}

/// Whether two lists hold the same values in the same order.
pub open spec fn alike_items(a: Seq<JsonView>, b: Seq<JsonView>) -> bool {
    a.len() == b.len() && forall|i: int| 0 <= i < a.len() ==> alike(#[trigger] a[i], b[i])
}

/// A value is the same as itself.
pub proof fn law_value_is_like_itself(v: JsonView)
    ensures
        alike(v, v),
    decreases v,
{
    match v {
        JsonView::Array(x) => {
            assert forall|i: int| 0 <= i < x.len() implies alike(#[trigger] x[i], x[i]) by {
                law_value_is_like_itself(x[i]);
            }
        },
        JsonView::Object(x) => {
            assert forall|key: Seq<char>| #[trigger] x.contains_key(key) implies alike(
                x[key],
                x[key],
            ) by {
                law_value_is_like_itself(x[key]);
            }
        },
        _ => {},
    }
}

/// Which of two values comes first does not matter, and what is the same as the same is the
/// same.
pub proof fn law_alike_goes_on(a: JsonView, b: JsonView, c: JsonView)
    ensures
        alike(a, b) ==> alike(b, a),
        alike(a, b) && alike(b, c) ==> alike(a, c),
    decreases a,
{
    match (a, b) {
        (JsonView::Array(x), JsonView::Array(y)) => {
            if alike(a, b) {
                assert forall|i: int| 0 <= i < y.len() implies alike(#[trigger] y[i], x[i]) by {
                    law_alike_goes_on(x[i], y[i], y[i]);
                }
                if let JsonView::Array(z) = c {
                    if alike(b, c) {
                        assert forall|i: int| 0 <= i < x.len() implies alike(
                            #[trigger] x[i],
                            z[i],
                        ) by {
                            assert(alike(y[i], z[i]));
                            law_alike_goes_on(x[i], y[i], z[i]);
                        }
                    }
                }
            }
        },
        (JsonView::Object(x), JsonView::Object(y)) => {
            if alike(a, b) {
                assert forall|key: Seq<char>| #[trigger] y.contains_key(key) implies alike(
                    y[key],
                    x[key],
                ) by {
                    assert(x.contains_key(key));
                    law_alike_goes_on(x[key], y[key], y[key]);
                }
                if let JsonView::Object(z) = c {
                    if alike(b, c) {
                        assert forall|key: Seq<char>| #[trigger]
                            x.contains_key(key) <==> z.contains_key(key) by {
                            assert(x.contains_key(key) <==> y.contains_key(key));
                        }
                        assert forall|key: Seq<char>| #[trigger] x.contains_key(key) implies alike(
                            x[key],
                            z[key],
                        ) by {
                            assert(y.contains_key(key));
                            law_alike_goes_on(x[key], y[key], z[key]);
                        }
                    }
                }
            }
        },
        _ => {},
    }
}

fn same_double_exec(a: &str, b: &str) -> (r: bool)
    ensures
        r == same_double(a@, b@),
{
    same_text(a, b) || ((same_text(a, "0.0") || same_text(a, "-0.0")) && (same_text(b, "0.0")
        || same_text(b, "-0.0")))
}

/// Whether two numbers are the same.
pub fn same_number(a: &Number, b: &Number) -> (r: bool)
    ensures
        r == alike_numbers(a@, b@),
{
    match (a, b) {
        (Number::Unsigned(x), Number::Unsigned(y)) => *x == *y,
        (Number::Negative(x), Number::Negative(y)) => *x == *y,
        (Number::Decimal(_), Number::Decimal(_)) => match (
            number_as_double(a),
            number_as_double(b),
        ) {
            (Some(x), Some(y)) => same_double_exec(x.as_str(), y.as_str()),
            (None, None) => true,
            _ => false,
        },
        _ => false,
    }
}

fn is_nothing(v: &Json) -> (r: bool)
    ensures
        r == stands_for_null(v@),
{
    match v {
        Json::Null => true,
        Json::Number(n) => match n {
            Number::Decimal(_) => number_as_double(n).is_none(),
            _ => false,
        },
        _ => false,
    }
}

/// Whether two values are the same.
pub fn same_json(a: &Json, b: &Json) -> (r: bool)
    ensures
        r == alike(a@, b@),
    decreases a,
{
    let x_is_nothing: bool = is_nothing(a);
    let y_is_nothing: bool = is_nothing(b);
    if x_is_nothing || y_is_nothing {
        return x_is_nothing && y_is_nothing;
    }
    match (a, b) {
        (Json::Bool(x), Json::Bool(y)) => *x == *y,
        (Json::Number(x), Json::Number(y)) => same_number(x, y),
        (Json::Str(x), Json::Str(y)) => same_text(x.as_str(), y.as_str()),
        (Json::Array(x), Json::Array(y)) => {
            proof {
                lemma_array_view(*x);
                lemma_array_view(*y);
            }
            same_items(x, y)
        },
        (Json::Object(x), Json::Object(y)) => {
            let ghost mx = fields_view(x@);
            let ghost my = fields_view(y@);
            let mut i: usize = 0;
            while i < x.len()
                invariant
                    i <= x@.len(),
                    a@ == JsonView::Object(fields_view(x@)),
                    b@ == JsonView::Object(fields_view(y@)),
                    mx == fields_view(x@),
                    my == fields_view(y@),
                    forall|j: int|
                        0 <= j < i ==> my.contains_key((#[trigger] x@[j]).0@) && alike(
                            mx[x@[j].0@],
                            my[x@[j].0@],
                        ),
                decreases x@.len() - i,
            {
                let key: &str = x[i].0.as_str();
                proof {
                    lemma_fields_keys(x@, key@);
                    assert(x@[i as int].0@ == key@);
                }
                match (a.get(key), b.get(key)) {
                    (Some(u), Some(v)) => {
                        if !same_json(u, v) {
                            return false;
                        }
                    },
                    _ => {
                        return false;
                    },
                }
                i = i + 1;
            }
            let mut k: usize = 0;
            while k < y.len()
                invariant
                    k <= y@.len(),
                    a@ == JsonView::Object(fields_view(x@)),
                    b@ == JsonView::Object(fields_view(y@)),
                    mx == fields_view(x@),
                    my == fields_view(y@),
                    forall|j: int| 0 <= j < k ==> mx.contains_key((#[trigger] y@[j]).0@),
                decreases y@.len() - k,
            {
                let key: &str = y[k].0.as_str();
                proof {
                    lemma_fields_keys(y@, key@);
                    assert(y@[k as int].0@ == key@);
                }
                if a.get(key).is_none() {
                    return false;
                }
                k = k + 1;
            }
            proof {
                assert forall|key: Seq<char>| #[trigger]
                    mx.contains_key(key) <==> my.contains_key(key) by {
                    lemma_fields_keys(x@, key);
                    lemma_fields_keys(y@, key);
                }
                assert forall|key: Seq<char>| #[trigger] mx.contains_key(key) implies alike(
                    mx[key],
                    my[key],
                ) by {
                    lemma_fields_keys(x@, key);
                }
            }
            true
        },
        _ => false,
    }
}

/// Whether two lists hold the same values in the same order.
pub fn same_items(a: &Vec<Json>, b: &Vec<Json>) -> (r: bool)
    ensures
        r == alike_items(views::all(a@), views::all(b@)),
    decreases a,
{
    if a.len() != b.len() {
        assert(views::all(a@).len() != views::all(b@).len());
        return false;
    }
    let mut i: usize = 0;
    while i < a.len()
        invariant
            i <= a@.len(),
            a@.len() == b@.len(),
            forall|j: int|
                0 <= j < i ==> alike(#[trigger] views::all(a@)[j], views::all(b@)[j]),
        decreases a@.len() - i,
    {
        assert(views::all(a@)[i as int] == a@[i as int]@);
        assert(views::all(b@)[i as int] == b@[i as int]@);
        if !same_json(&a[i], &b[i]) {
            return false;
        }
        i = i + 1;
    }
    true
}

/// Values that are not numbers are alike only where they are of one kind and hold the same: equal
/// texts and truth values, arrays of alike values, and objects of alike fields.
pub proof fn law_alike_values_hold_the_same(a: JsonView, b: JsonView)
    requires
        alike(a, b),
    ensures
        a is Str || a is Bool ==> b == a,
        a matches JsonView::Number(NumberView::Unsigned(n)) ==> b == a,
        a matches JsonView::Number(NumberView::Negative(n)) ==> b == a,
        a matches JsonView::Array(x) ==> b matches JsonView::Array(y) && x.len() == y.len() && (
        forall|i: int| 0 <= i < x.len() ==> alike(#[trigger] x[i], y[i])),
        a matches JsonView::Object(x) ==> b matches JsonView::Object(y) && x.dom() == y.dom() && (
        forall|key: Seq<char>| #[trigger] x.contains_key(key) ==> alike(x[key], y[key])),
{
    if let JsonView::Object(x) = a {
        if let JsonView::Object(y) = b {
            assert forall|key: Seq<char>| x.dom().contains(key) == y.dom().contains(key) by {
                assert(x.contains_key(key) <==> y.contains_key(key));
            }
            assert(x.dom() =~= y.dom());
        }
    }
}

/// A field that is set is found, one that is taken out is not, and other fields stay.
pub proof fn law_set_field_is_found(
    object: JsonView,
    key: Seq<char>,
    value: JsonView,
    other: Seq<char>,
)
    requires
        object is Object,
        other != key,
    ensures
        object.with(key, value).get(key) == Some(value),
        object.with(key, value).get(other) == object.get(other),
        object.without(key).get(key) is None,
        object.without(key).get(other) == object.get(other),
        object.with_opt(key, None) == object,
        object.with_opt(key, Some(value)) == object.with(key, value),
        JsonView::object().get(key) is None,
        value is Str ==> object.with(key, value).field_text(key) == Some(value->Str_0),
{
}

} // verus!
