//! JSON documents.
//!
//! `serde_json` parses and writes text. The document itself is a value of this
//! crate, so that what is read from it can be stated and proved.

use vstd::prelude::*;

use crate::text::{append_decimal, append_str, decimal, same_str};

verus! {

/// A JSON number.
#[derive(Debug, PartialEq, Eq)]
pub enum JsonNumber {
    /// An integer from zero up to `u64::MAX`.
    Unsigned(u64),
    /// An integer below zero, down to `i64::MIN`.
    Negative(i64),
    /// Any other number, as its text.
    Other(String),
}

/// A JSON document. The fields of an object stand in the order of the map that
/// they were read from.
#[derive(Debug, PartialEq, Eq)]
pub enum Json {
    Null,
    Bool(bool),
    Number(JsonNumber),
    String(String),
    Array(Vec<Json>),
    Object(Vec<(String, Json)>),
}

/// What a JSON number is.
#[verifier::ext_equal]
pub enum NumberView {
    Unsigned(u64),
    Negative(i64),
    Other(Seq<char>),
}

/// What a JSON document is.
#[verifier::ext_equal]
pub enum JsonView {
    Null,
    Bool(bool),
    Number(NumberView),
    String(Seq<char>),
    Array(Seq<JsonView>),
    Object(Seq<(Seq<char>, JsonView)>),
}

impl View for JsonNumber {
    type V = NumberView;

    open spec fn view(&self) -> NumberView {
        match self {
            JsonNumber::Unsigned(n) => NumberView::Unsigned(*n),
            JsonNumber::Negative(n) => NumberView::Negative(*n),
            JsonNumber::Other(text) => NumberView::Other(text@),
        }
    }
}

/// What a document of this crate is.
pub open spec fn json_view(json: Json) -> JsonView
    decreases json,
{
    match json {
        Json::Null => JsonView::Null,
        Json::Bool(b) => JsonView::Bool(b),
        Json::Number(n) => JsonView::Number(n@),
        Json::String(s) => JsonView::String(s@),
        Json::Array(items) => JsonView::Array(item_views(items@)),
        Json::Object(fields) => JsonView::Object(field_views(fields@)),
    }
}

/// What the items of an array are.
pub open spec fn item_views(items: Seq<Json>) -> Seq<JsonView>
    decreases items,
{
    if items.len() == 0 {
        seq![]
    } else {
        item_views(items.drop_last()).push(json_view(items.last()))
    }
}

/// The keys of the fields of an object with what stands under them.
pub open spec fn field_views(fields: Seq<(String, Json)>) -> Seq<(Seq<char>, JsonView)>
    decreases fields,
{
    if fields.len() == 0 {
        seq![]
    } else {
        field_views(fields.drop_last()).push((fields.last().0@, json_view(fields.last().1)))
    }
}

impl View for Json {
    type V = JsonView;

    open spec fn view(&self) -> JsonView {
        json_view(*self)
    }
}

/// The views of items stand in the order of the items.
pub proof fn item_views_index(items: Seq<Json>)
    ensures
        item_views(items).len() == items.len(),
        forall|i: int| 0 <= i < items.len() ==> #[trigger] item_views(items)[i] == items[i]@,
    decreases items.len(),
{
    if items.len() > 0 {
        item_views_index(items.drop_last());
    }
}

/// The views of fields stand in the order of the fields.
pub proof fn field_views_index(fields: Seq<(String, Json)>)
    ensures
        field_views(fields).len() == fields.len(),
        forall|i: int|
            0 <= i < fields.len() ==> #[trigger] field_views(fields)[i] == (
                fields[i].0@,
                fields[i].1@,
            ),
    decreases fields.len(),
{
    if fields.len() > 0 {
        field_views_index(fields.drop_last());
    }
}

/// `serde_json::Value`, a parsed document of `serde_json`.
#[verifier::external_type_specification]
#[verifier::external_body]
pub struct ExValue(serde_json::Value);

/// `serde_json::Error`, the reason why a text is not a JSON document.
#[verifier::external_type_specification]
#[verifier::external_body]
pub struct ExError(serde_json::Error);

/// The document that a `serde_json::Value` holds.
pub uninterp spec fn value_json(value: serde_json::Value) -> JsonView;

/// The document that `serde_json::from_slice` reads from a text, or `None` where
/// the text is not one JSON document.
pub uninterp spec fn parsed_json(text: Seq<u8>) -> Option<JsonView>;

/// `serde_json::from_slice` at the type `serde_json::Value`. Whether it accepts
/// the text, and which document it returns, is a function of the text alone.
#[verifier::external_body]
pub(crate) fn parse_value(text: &[u8]) -> (r: Result<serde_json::Value, serde_json::Error>)
    ensures
        match r {
            Ok(value) => parsed_json(text@) == Some(value_json(value)),
            Err(_) => parsed_json(text@) is None,
        },
{
    serde_json::from_slice(text)
}

/// One level of a `serde_json::Value`. A number is given by what `as_u64`,
/// `as_i64` and `to_string` of `serde_json::Number` return for it.
enum ValueParts<'a> {
    Null,
    Bool(bool),
    Number(Option<u64>, Option<i64>, String),
    String(String),
    Array(Vec<&'a serde_json::Value>),
    Object(Vec<(String, &'a serde_json::Value)>),
}

impl<'a> ValueParts<'a> {
    /// The document that these parts make up.
    spec fn document(self) -> JsonView {
        match self {
            ValueParts::Null => JsonView::Null,
            ValueParts::Bool(b) => JsonView::Bool(b),
            ValueParts::Number(unsigned, signed, text) => JsonView::Number(
                match (unsigned, signed) {
                    (Some(n), _) => NumberView::Unsigned(n),
                    (None, Some(n)) => NumberView::Negative(n),
                    (None, None) => NumberView::Other(text@),
                },
            ),
            ValueParts::String(s) => JsonView::String(s@),
            ValueParts::Array(items) => JsonView::Array(
                items@.map_values(|item: &serde_json::Value| value_json(*item)),
            ),
            ValueParts::Object(fields) => JsonView::Object(
                fields@.map_values(
                    |field: (String, &serde_json::Value)| (field.0@, value_json(*field.1)),
                ),
            ),
        }
    }
}

/// The variants of `serde_json::Value` with their fields, the entries of a
/// `serde_json::Map` in the order in which it hands them out.
#[verifier::external_body]
fn parts_of<'a>(value: &'a serde_json::Value) -> (r: ValueParts<'a>)
    ensures
        r.document() == value_json(*value),
{
    match value {
        serde_json::Value::Null => ValueParts::Null,
        serde_json::Value::Bool(b) => ValueParts::Bool(*b),
        serde_json::Value::Number(n) => ValueParts::Number(n.as_u64(), n.as_i64(), n.to_string()),
        serde_json::Value::String(s) => ValueParts::String(s.clone()),
        serde_json::Value::Array(items) => ValueParts::Array(items.iter().collect()),
        serde_json::Value::Object(map) => {
            ValueParts::Object(map.iter().map(|entry| (entry.0.clone(), entry.1)).collect())
        },
    }
}

/// The compact JSON text that `to_string` of `serde_json::Value` writes for a
/// document.
pub uninterp spec fn json_text(json: JsonView) -> Seq<char>;

/// `to_string` of `serde_json::Value`. The text is a function of the document
/// that the value holds: of its kind, its characters, its items in their order,
/// and its fields in the order of the map.
#[verifier::external_body]
pub(crate) fn write_value(value: &serde_json::Value) -> (r: String)
    ensures
        r@ == json_text(value_json(*value)),
{
    value.to_string()
}

/// `serde_json::Value::get` with a string: what an object holds under that key,
/// and `None` where it has no such key or the value is no object.
#[verifier::external_body]
pub(crate) fn member<'a>(value: &'a serde_json::Value, key: &str) -> (r: Option<
    &'a serde_json::Value,
>)
    ensures
        match r {
            Some(found) => value_json(*value).field(key@) == Some(value_json(*found)),
            None => value_json(*value).field(key@) is None,
        },
{
    value.get(key)
}

/// The document of this crate that a `serde_json::Value` holds.
pub(crate) fn json_of(value: &serde_json::Value) -> (r: Json)
    ensures
        r@ == value_json(*value),
    decreases value_json(*value),
{
    match parts_of(value) {
        ValueParts::Null => Json::Null,
        ValueParts::Bool(b) => Json::Bool(b),
        ValueParts::Number(Some(n), _, _) => Json::Number(JsonNumber::Unsigned(n)),
        ValueParts::Number(None, Some(n), _) => Json::Number(JsonNumber::Negative(n)),
        ValueParts::Number(None, None, text) => Json::Number(JsonNumber::Other(text)),
        ValueParts::String(s) => Json::String(s),
        ValueParts::Array(items) => {
            let mut out: Vec<Json> = Vec::new();
            let n: usize = items.len();
            for i in 0..n
                invariant
                    n == items@.len(),
                    value_json(*value) == ValueParts::Array(items).document(),
                    out@.len() == i,
                    forall|j: int| 0 <= j < i ==> (#[trigger] out@[j])@ == value_json(*items@[j]),
            {
                assert(value_json(*value)->Array_0[i as int] == value_json(*items@[i as int]));
                out.push(json_of(items[i]));
            }
            proof {
                item_views_index(out@);
                assert(item_views(out@) =~= value_json(*value)->Array_0);
            }
            Json::Array(out)
        },
        ValueParts::Object(fields) => {
            let mut out: Vec<(String, Json)> = Vec::new();
            let n: usize = fields.len();
            for i in 0..n
                invariant
                    n == fields@.len(),
                    value_json(*value) == ValueParts::Object(fields).document(),
                    out@.len() == i,
                    forall|j: int|
                        0 <= j < i ==> (#[trigger] out@[j]).0@ == fields@[j].0@ && out@[j].1@
                            == value_json(*fields@[j].1),
            {
                assert(value_json(*value)->Object_0[i as int].1 == value_json(
                    *fields@[i as int].1,
                ));
                out.push((fields[i].0.clone(), json_of(fields[i].1)));
            }
            proof {
                field_views_index(out@);
                assert(field_views(out@) =~= value_json(*value)->Object_0);
            }
            Json::Object(out)
        },
    }
}

/// Reads one JSON document. `None` where the text is not one.
pub fn parse_json(text: &[u8]) -> (r: Option<Json>)
    ensures
        match r {
            Some(json) => parsed_json(text@) == Some(json@),
            None => parsed_json(text@) is None,
        },
{
    match parse_value(text) {
        Ok(value) => Some(json_of(&value)),
        Err(_) => None,
    }
}

/// What stands under a key, in the first field that has it.
pub open spec fn lookup(fields: Seq<(Seq<char>, JsonView)>, key: Seq<char>) -> Option<JsonView>
    decreases fields.len(),
{
    if fields.len() == 0 {
        None
    } else if fields[0].0 == key {
        Some(fields[0].1)
    } else {
        lookup(fields.drop_first(), key)
    }
}

impl JsonView {
    /// What stands under a key. Only an object has keys.
    pub open spec fn field(self, key: Seq<char>) -> Option<JsonView> {
        match self {
            JsonView::Object(fields) => lookup(fields, key),
            _ => None,
        }
    }

    /// The characters of a string.
    pub open spec fn text(self) -> Option<Seq<char>> {
        match self {
            JsonView::String(s) => Some(s),
            _ => None,
        }
    }

    /// The string under a key.
    pub open spec fn text_field(self, key: Seq<char>) -> Option<Seq<char>> {
        match self.field(key) {
            Some(value) => value.text(),
            None => None,
        }
    }
}

/// What stands under a key among the fields of an object.
pub fn get_field<'a>(fields: &'a Vec<(String, Json)>, key: &str) -> (r: Option<&'a Json>)
    ensures
        match r {
            Some(value) => lookup(field_views(fields@), key@) == Some(value@),
            None => lookup(field_views(fields@), key@) is None,
        },
{
    let n: usize = fields.len();
    let ghost all = field_views(fields@);
    proof {
        field_views_index(fields@);
    }
    assert(all.skip(0) == all);
    for i in 0..n
        invariant
            n == fields@.len(),
            all == field_views(fields@),
            all.len() == n,
            forall|j: int| 0 <= j < n ==> #[trigger] all[j] == (fields@[j].0@, fields@[j].1@),
            lookup(all, key@) == lookup(all.skip(i as int), key@),
    {
        let ghost rest = all.skip(i as int);
        assert(rest[0] == (fields@[i as int].0@, fields@[i as int].1@));
        if same_str(fields[i].0.as_str(), key) {
            return Some(&fields[i].1);
        }
        assert(rest.drop_first() == all.skip(i + 1));
    }
    None
}

impl Json {
    /// What stands under a key. Only an object has keys.
    pub fn get<'a>(&'a self, key: &str) -> (r: Option<&'a Json>)
        ensures
            match r {
                Some(value) => self@.field(key@) == Some(value@),
                None => self@.field(key@) is None,
            },
    {
        match self {
            Json::Object(fields) => get_field(fields, key),
            _ => None,
        }
    }

    /// The characters of a string.
    pub fn as_str<'a>(&'a self) -> (r: Option<&'a str>)
        ensures
            match r {
                Some(s) => self@.text() == Some(s@),
                None => self@.text() is None,
            },
    {
        match self {
            Json::String(s) => Some(s.as_str()),
            _ => None,
        }
    }

    /// The string under a key.
    pub fn get_str<'a>(&'a self, key: &str) -> (r: Option<&'a str>)
        ensures
            match r {
                Some(s) => self@.text_field(key@) == Some(s@),
                None => self@.text_field(key@) is None,
            },
    {
        match self.get(key) {
            Some(value) => value.as_str(),
            None => None,
        }
    }
}

/// The text of a number: the decimal digits of an integer, behind a minus sign
/// where it is below zero, or the text that it was given by.
pub open spec fn number_text(n: NumberView) -> Seq<char> {
    match n {
        NumberView::Unsigned(n) => decimal(n as nat),
        NumberView::Negative(n) => if n < 0 {
            "-"@ + decimal((-n) as nat)
        } else {
            decimal(n as nat)
        },
        NumberView::Other(text) => text,
    }
}

/// The text of a number.
pub fn append_number(out: &mut Vec<char>, n: &JsonNumber)
    ensures
        final(out)@ == old(out)@ + number_text(n@),
{
    match n {
        JsonNumber::Unsigned(n) => append_decimal(out, *n),
        JsonNumber::Negative(n) => {
            let n: i64 = *n;
            if n < 0 {
                append_str(out, "-");
                append_decimal(out, (0 - (n as i128)) as u64);
                assert(out@ == old(out)@ + ("-"@ + decimal((-n) as nat)));
            } else {
                append_decimal(out, n as u64);
            }
        },
        JsonNumber::Other(text) => append_str(out, text.as_str()),
    }
}

} // verus!
