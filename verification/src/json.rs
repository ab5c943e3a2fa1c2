//! JSON values, and how fields are found in them.

use vstd::prelude::*;

use crate::text::{
    i64_written, parse_i64, parse_u64, same_text, text_option, to_chars, u64_written,
};

verus! {

/// A JSON number: the integers that it is, and how it is written.
#[derive(Debug)]
pub struct JsonNumber {
    pub unsigned: Option<u64>,
    pub signed: Option<i64>,
    pub text: String,
}

/// A JSON value. An object holds its fields in the order in which they are
/// searched.
#[derive(Debug)]
pub enum JsonValue {
    Null,
    Bool(bool),
    Number(JsonNumber),
    Text(String),
    Array(Vec<JsonValue>),
    Object(Vec<(String, JsonValue)>),
}

/// The model of a JSON value.
pub enum JsonModel {
    Null,
    Bool(bool),
    Number { unsigned: Option<u64>, signed: Option<i64>, text: Seq<char> },
    Text(Seq<char>),
    Array(Seq<JsonModel>),
    Object(Seq<(Seq<char>, JsonModel)>),
}

/// The model of a JSON value.
pub open spec fn json_model(value: JsonValue) -> JsonModel
    decreases value,
{
    match value {
        JsonValue::Null => JsonModel::Null,
        JsonValue::Bool(b) => JsonModel::Bool(b),
        JsonValue::Number(n) => JsonModel::Number {
            unsigned: n.unsigned,
            signed: n.signed,
            text: n.text@,
        },
        JsonValue::Text(s) => JsonModel::Text(s@),
        JsonValue::Array(items) => JsonModel::Array(
            Seq::new(
                items@.len(),
                |i: int|
                    if 0 <= i < items@.len() {
                        json_model(items@[i])
                    } else {
                        JsonModel::Null
                    },
            ),
        ),
        JsonValue::Object(fields) => JsonModel::Object(
            Seq::new(
                fields@.len(),
                |i: int|
                    if 0 <= i < fields@.len() {
                        (fields@[i].0@, json_model(fields@[i].1))
                    } else {
                        (Seq::empty(), JsonModel::Null)
                    },
            ),
        ),
    }
}

impl View for JsonValue {
    type V = JsonModel;

    open spec fn view(&self) -> JsonModel {
        json_model(*self)
    }
}

/// `serde_json::Value`, a parsed JSON value.
#[verifier::external_type_specification]
#[verifier::external_body]
pub struct ExValue(serde_json::Value);

/// The model of a `serde_json::Value`.
pub uninterp spec fn json_content(value: serde_json::Value) -> JsonModel;

/// What a text is as JSON, if it is JSON.
pub uninterp spec fn json_read(text: Seq<char>) -> Option<JsonModel>;

/// Calls `serde_json::from_str`. Whether the text is JSON, and which value, is a
/// function of its characters alone, named `json_read`.
#[verifier::external_body]
fn read_value(text: &str) -> (r: Option<serde_json::Value>)
    ensures
        json_read(text@) == match r {
            Some(value) => Some(json_content(value)),
            None => None,
        },
{
    serde_json::from_str(text).ok()
}

/// Takes a `serde_json::Value` apart, variant by variant. Of a number it takes
/// what `Number::as_u64` and `Number::as_i64` give and its text; of an object
/// the fields in the map's own order.
#[verifier::external_body]
fn convert_value(value: serde_json::Value) -> (r: JsonValue)
    ensures
        r@ == json_content(value),
{
    match value {
        serde_json::Value::Null => JsonValue::Null,
        serde_json::Value::Bool(b) => JsonValue::Bool(b),
        serde_json::Value::Number(n) => JsonValue::Number(
            JsonNumber { unsigned: n.as_u64(), signed: n.as_i64(), text: n.to_string() },
        ),
        serde_json::Value::String(s) => JsonValue::Text(s),
        serde_json::Value::Array(a) => JsonValue::Array(a.into_iter().map(convert_value).collect()),
        serde_json::Value::Object(o) => JsonValue::Object(
            o.into_iter().map(|(k, v)| (k, convert_value(v))).collect(),
        ),
    }
}

/// Reads a JSON text.
pub fn parse_json(text: &str) -> (r: Option<JsonValue>)
    ensures
        json_read(text@) == match r {
            Some(value) => Some(value@),
            None => None,
        },
{
    match read_value(text) {
        Some(value) => Some(convert_value(value)),
        None => None,
    }
}

/// The model of a value that may be there.
pub open spec fn json_option(value: Option<&JsonValue>) -> Option<JsonModel> {
    match value {
        Some(value) => Some(value@),
        None => None,
    }
}

/// The field `key` of an object, from position `from` on.
pub open spec fn field_from(
    fields: Seq<(Seq<char>, JsonModel)>,
    key: Seq<char>,
    from: int,
) -> Option<JsonModel>
    decreases fields.len() - from,
{
    if from >= fields.len() || from < 0 {
        None
    } else if fields[from].0 == key {
        Some(fields[from].1)
    } else {
        field_from(fields, key, from + 1)
    }
}

/// The field `key` of a value, if it is an object that has one.
pub open spec fn field(value: JsonModel, key: Seq<char>) -> Option<JsonModel> {
    match value {
        JsonModel::Object(fields) => field_from(fields, key, 0),
        _ => None,
    }
}

/// The first field `key` in a value: its own where it is an object that has one,
/// else the first one within its fields or items, at any depth.
pub open spec fn found(value: JsonModel, key: Seq<char>) -> Option<JsonModel>
    decreases value, 0int,
{
    match value {
        JsonModel::Object(fields) => match field_from(fields, key, 0) {
            Some(hit) => Some(hit),
            None => found_in_fields(fields, key, 0),
        },
        JsonModel::Array(items) => found_in_items(items, key, 0),
        _ => None,
    }
}

/// The first field `key` within some items.
pub open spec fn found_in_items(items: Seq<JsonModel>, key: Seq<char>, from: int) -> Option<
    JsonModel,
>
    decreases items, items.len() - from,
{
    if from < 0 || from >= items.len() {
        None
    } else {
        match found(items[from], key) {
            Some(hit) => Some(hit),
            None => found_in_items(items, key, from + 1),
        }
    }
}

/// The first field `key` within some fields.
pub open spec fn found_in_fields(
    fields: Seq<(Seq<char>, JsonModel)>,
    key: Seq<char>,
    from: int,
) -> Option<JsonModel>
    decreases fields, fields.len() - from,
{
    if from < 0 || from >= fields.len() {
        None
    } else {
        match found(fields[from].1, key) {
            Some(hit) => Some(hit),
            None => found_in_fields(fields, key, from + 1),
        }
    }
}

fn find_field<'a>(fields: &'a Vec<(String, JsonValue)>, key: &str) -> (r: Option<&'a JsonValue>)
    ensures
        json_option(r) == field(json_model(JsonValue::Object(*fields)), key@),
{
    let ghost models = json_model(JsonValue::Object(*fields))->Object_0;
    let mut i: usize = 0;
    while i < fields.len()
        invariant
            i <= fields@.len(),
            models == json_model(JsonValue::Object(*fields))->Object_0,
            models.len() == fields@.len(),
            forall|j: int|
                0 <= j < fields@.len() ==> #[trigger] models[j] == (
                    fields@[j].0@,
                    fields@[j].1@,
                ),
            field_from(models, key@, 0) == field_from(models, key@, i as int),
        decreases fields@.len() - i,
    {
        assert(models[i as int] == (fields@[i as int].0@, fields@[i as int].1@));
        if same_text(fields[i].0.as_str(), key) {
            return Some(&fields[i].1);
        }
        i = i + 1;
    }
    None
}

/// The first field `key` in a value, at any depth.
pub fn find_key<'a>(value: &'a JsonValue, key: &str) -> (r: Option<&'a JsonValue>)
    ensures
        json_option(r) == found(value@, key@),
    decreases *value, 0int,
{
    match value {
        JsonValue::Object(fields) => {
            match find_field(fields, key) {
                Some(hit) => Some(hit),
                None => find_in_fields(fields, key, 0),
            }
        },
        JsonValue::Array(items) => find_in_items(items, key, 0),
        _ => None,
    }
}

fn find_in_items<'a>(items: &'a Vec<JsonValue>, key: &str, from: usize) -> (r: Option<
    &'a JsonValue,
>)
    requires
        from <= items@.len(),
    ensures
        json_option(r) == found_in_items(
            json_model(JsonValue::Array(*items))->Array_0,
            key@,
            from as int,
        ),
    decreases *items, items@.len() - from,
{
    let ghost models = json_model(JsonValue::Array(*items))->Array_0;
    if from >= items.len() {
        return None;
    }
    proof {
        assert(models[from as int] == items@[from as int]@);
        assert(decreases_to!(items@ => items@[from as int]));
    }
    match find_key(&items[from], key) {
        Some(hit) => Some(hit),
        None => find_in_items(items, key, from + 1),
    }
}

fn find_in_fields<'a>(fields: &'a Vec<(String, JsonValue)>, key: &str, from: usize) -> (r: Option<
    &'a JsonValue,
>)
    requires
        from <= fields@.len(),
    ensures
        json_option(r) == found_in_fields(
            json_model(JsonValue::Object(*fields))->Object_0,
            key@,
            from as int,
        ),
    decreases *fields, fields@.len() - from,
{
    let ghost models = json_model(JsonValue::Object(*fields))->Object_0;
    if from >= fields.len() {
        return None;
    }
    proof {
        assert(models[from as int] == (fields@[from as int].0@, fields@[from as int].1@));
        assert(decreases_to!(fields@ => fields@[from as int]));
        assert(decreases_to!(fields@[from as int] => fields@[from as int].1));
    }
    match find_key(&fields[from].1, key) {
        Some(hit) => Some(hit),
        None => find_in_fields(fields, key, from + 1),
    }
}

/// The text of a value that is one.
pub open spec fn text_of(value: JsonModel) -> Option<Seq<char>> {
    match value {
        JsonModel::Text(s) => Some(s),
        _ => None,
    }
}

/// The items of a value that is an array.
pub open spec fn items_of(value: JsonModel) -> Option<Seq<JsonModel>> {
    match value {
        JsonModel::Array(items) => Some(items),
        _ => None,
    }
}

/// The text of a value that is a text or a number.
pub open spec fn scalar_text(value: JsonModel) -> Option<Seq<char>> {
    match value {
        JsonModel::Text(s) => Some(s),
        JsonModel::Number { text, .. } => Some(text),
        _ => None,
    }
}

/// The unsigned integer that a value is, or that its text writes.
pub open spec fn unsigned_of(value: JsonModel) -> Option<int> {
    match value {
        JsonModel::Number { unsigned: Some(n), .. } => Some(n as int),
        JsonModel::Text(s) => u64_written(s),
        _ => None,
    }
}

/// The signed integer that a value is, or that its text writes.
pub open spec fn signed_of(value: JsonModel) -> Option<int> {
    match value {
        JsonModel::Number { signed: Some(n), .. } => Some(n as int),
        JsonModel::Text(s) => i64_written(s),
        _ => None,
    }
}

/// The value of the first of some keys that has one.
pub open spec fn first_of<T>(
    value: JsonModel,
    keys: Seq<Seq<char>>,
    read: spec_fn(JsonModel) -> Option<T>,
) -> Option<T>
    decreases keys.len(),
{
    if keys.len() == 0 {
        None
    } else {
        let here = match found(value, keys[0]) {
            Some(hit) => read(hit),
            None => None,
        };
        match here {
            Some(x) => Some(x),
            None => first_of(value, keys.drop_first(), read),
        }
    }
}

impl JsonValue {
    /// The field `key`, if the value is an object that has one.
    pub fn get(&self, key: &str) -> (r: Option<&JsonValue>)
        ensures
            json_option(r) == field(self@, key@),
    {
        match self {
            JsonValue::Object(fields) => find_field(fields, key),
            _ => None,
        }
    }

    /// The text, if the value is one.
    pub fn as_str(&self) -> (r: Option<&String>)
        ensures
            match r {
                Some(s) => text_of(self@) == Some(s@),
                None => text_of(self@) is None,
            },
    {
        match self {
            JsonValue::Text(s) => Some(s),
            _ => None,
        }
    }

    /// The items, if the value is an array.
    pub fn as_array(&self) -> (r: Option<&Vec<JsonValue>>)
        ensures
            match r {
                Some(items) => items_of(self@) == Some(json_models(items@)),
                None => items_of(self@) is None,
            },
    {
        match self {
            JsonValue::Array(items) => {
                assert(json_models(items@) =~= json_model(*self)->Array_0);
                Some(items)
            },
            _ => None,
        }
    }

    /// The text, if the value is a text or a number.
    pub fn scalar(&self) -> (r: Option<String>)
        ensures
            text_option(r) == scalar_text(self@),
    {
        match self {
            JsonValue::Text(s) => Some(s.clone()),
            JsonValue::Number(n) => Some(n.text.clone()),
            _ => None,
        }
    }

    /// The unsigned integer that the value is, or that its text writes.
    pub fn unsigned(&self) -> (r: Option<u64>)
        ensures
            match r {
                Some(n) => unsigned_of(self@) == Some(n as int),
                None => unsigned_of(self@) is None,
            },
    {
        match self {
            JsonValue::Number(n) => n.unsigned,
            JsonValue::Text(s) => parse_u64(&to_chars(s.as_str())),
            _ => None,
        }
    }

    /// The signed integer that the value is, or that its text writes.
    pub fn signed(&self) -> (r: Option<i64>)
        ensures
            match r {
                Some(n) => signed_of(self@) == Some(n as int),
                None => signed_of(self@) is None,
            },
    {
        match self {
            JsonValue::Number(n) => n.signed,
            JsonValue::Text(s) => parse_i64(&to_chars(s.as_str())),
            _ => None,
        }
    }
}

/// The models of some values.
pub open spec fn json_models(values: Seq<JsonValue>) -> Seq<JsonModel> {
    Seq::new(values.len(), |i: int| values[i]@)
}

/// The characters of some keys.
pub open spec fn key_models(keys: Seq<&str>) -> Seq<Seq<char>> {
    Seq::new(keys.len(), |i: int| keys[i]@)
}

/// The unsigned integer of the first of some keys that has one.
pub open spec fn unsigned_at(value: JsonModel, keys: Seq<Seq<char>>) -> Option<int> {
    first_of(value, keys, |hit: JsonModel| unsigned_of(hit))
}

/// The signed integer of the first of some keys that has one.
pub open spec fn signed_at(value: JsonModel, keys: Seq<Seq<char>>) -> Option<int> {
    first_of(value, keys, |hit: JsonModel| signed_of(hit))
}

/// The text of the first of some keys that has one.
pub open spec fn text_at(value: JsonModel, keys: Seq<Seq<char>>) -> Option<Seq<char>> {
    first_of(value, keys, |hit: JsonModel| text_of(hit))
}

/// The unsigned integer of the first of some keys that has one.
pub fn extract_u64(value: &JsonValue, keys: &[&str]) -> (r: Option<u64>)
    ensures
        match r {
            Some(n) => unsigned_at(value@, key_models(keys@)) == Some(n as int),
            None => unsigned_at(value@, key_models(keys@)) is None,
        },
{
    let ghost read = |hit: JsonModel| unsigned_of(hit);
    let ghost all = key_models(keys@);
    let mut i: usize = 0;
    assert(all.skip(0) =~= all);
    while i < keys.len()
        invariant
            i <= keys@.len(),
            all == key_models(keys@),
            read == (|hit: JsonModel| unsigned_of(hit)),
            first_of(value@, all, read) == first_of(value@, all.skip(i as int), read),
        decreases keys@.len() - i,
    {
        assert(all.skip(i as int)[0] == keys@[i as int]@);
        assert(all.skip(i as int).drop_first() =~= all.skip(i + 1));
        if let Some(hit) = find_key(value, keys[i]) {
            if let Some(n) = hit.unsigned() {
                return Some(n);
            }
        }
        i = i + 1;
    }
    None
}

/// The signed integer of the first of some keys that has one.
pub fn extract_i64(value: &JsonValue, keys: &[&str]) -> (r: Option<i64>)
    ensures
        match r {
            Some(n) => signed_at(value@, key_models(keys@)) == Some(n as int),
            None => signed_at(value@, key_models(keys@)) is None,
        },
{
    let ghost read = |hit: JsonModel| signed_of(hit);
    let ghost all = key_models(keys@);
    let mut i: usize = 0;
    assert(all.skip(0) =~= all);
    while i < keys.len()
        invariant
            i <= keys@.len(),
            all == key_models(keys@),
            read == (|hit: JsonModel| signed_of(hit)),
            first_of(value@, all, read) == first_of(value@, all.skip(i as int), read),
        decreases keys@.len() - i,
    {
        assert(all.skip(i as int)[0] == keys@[i as int]@);
        assert(all.skip(i as int).drop_first() =~= all.skip(i + 1));
        if let Some(hit) = find_key(value, keys[i]) {
            if let Some(n) = hit.signed() {
                return Some(n);
            }
        }
        i = i + 1;
    }
    None
}

/// The text of the first of some keys that has one.
pub fn extract_string(value: &JsonValue, keys: &[&str]) -> (r: Option<String>)
    ensures
        text_option(r) == text_at(value@, key_models(keys@)),
{
    let ghost read = |hit: JsonModel| text_of(hit);
    let ghost all = key_models(keys@);
    let mut i: usize = 0;
    assert(all.skip(0) =~= all);
    while i < keys.len()
        invariant
            i <= keys@.len(),
            all == key_models(keys@),
            read == (|hit: JsonModel| text_of(hit)),
            first_of(value@, all, read) == first_of(value@, all.skip(i as int), read),
        decreases keys@.len() - i,
    {
        assert(all.skip(i as int)[0] == keys@[i as int]@);
        assert(all.skip(i as int).drop_first() =~= all.skip(i + 1));
        if let Some(hit) = find_key(value, keys[i]) {
            if let Some(s) = hit.as_str() {
                return Some(s.clone());
            }
        }
        i = i + 1;
    }
    None
}

} // verus!
