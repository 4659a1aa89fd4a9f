//! Best-effort detection of provider errors hidden behind an HTTP 2xx status.
//!
//! A number of OpenAI-compatible gateways return a normal-looking HTTP status and
//! put the actual failure in a JSON envelope instead. This module deliberately
//! recognizes only high-confidence shapes so a normal model response is not treated
//! as a provider failure.

use vstd::prelude::*;

use crate::json::{
    append_number, field_views, get_field, item_views_index, json_of, json_text, lookup, member,
    number_text, parse_value, parsed_json, value_json, write_value, Json, JsonNumber, JsonView,
    NumberView,
};
use crate::sse::{data_lines, data_text, event_name, SseEvent};
use crate::text::{
    append, append_str, blank, chars_of, is_blank, is_str, join, joined, lines, lines_of, lower,
    lowered, string_of, text_of, texts, trim, trimmed, words, words_of,
};
use vstd::utf8::encode_utf8;

verus! {

/// The number of characters of a provider's message that are kept.
pub const MAX_ERROR_MESSAGE_CHARS: usize = 512;

/// A message on one line: its words with one space between each two of them, cut
/// behind `MAX_ERROR_MESSAGE_CHARS` characters.
pub open spec fn concise(message: Seq<char>) -> Seq<char> {
    let line = joined(words_of(message), " "@);
    if line.len() <= MAX_ERROR_MESSAGE_CHARS {
        line
    } else {
        line.take(MAX_ERROR_MESSAGE_CHARS as int) + "..."@
    }
}

fn concise_chars(message: &[char]) -> (r: Vec<char>)
    ensures
        r@ == concise(message@),
{
    let mut line: Vec<char> = join(&words(message), " ");
    if line.len() > MAX_ERROR_MESSAGE_CHARS {
        line.truncate(MAX_ERROR_MESSAGE_CHARS);
        append_str(&mut line, "...");
    }
    line
}

/// Puts a message on one line and cuts it where it is long.
pub fn truncate_message(message: &str) -> (r: String)
    ensures
        r@ == concise(message@),
{
    let chars: Vec<char> = chars_of(message);
    string_of(concise_chars(chars.as_slice()).as_slice())
}

/// The keys under which a message may stand, the preferred one first.
pub open spec fn message_keys() -> Seq<Seq<char>> {
    seq!["message"@, "msg"@, "detail"@, "error_description"@]
}

/// The keys under which a business code may stand.
pub open spec fn code_keys() -> Seq<Seq<char>> {
    seq!["code"@, "error_code"@, "errorCode"@]
}

/// The keys under which the kind of an error may stand, the preferred one first.
pub open spec fn kind_keys() -> Seq<Seq<char>> {
    seq!["type"@, "code"@, "status"@]
}

/// The characters of each of a sequence of string slices.
pub open spec fn names(keys: Seq<&str>) -> Seq<Seq<char>> {
    keys.map_values(|key: &str| key@)
}

fn message_key_names() -> (r: Vec<&'static str>)
    ensures
        names(r@) == message_keys(),
{
    let r: Vec<&'static str> = vec!["message", "msg", "detail", "error_description"];
    assert(names(r@) =~= message_keys());
    r
}

fn code_key_names() -> (r: Vec<&'static str>)
    ensures
        names(r@) == code_keys(),
{
    let r: Vec<&'static str> = vec!["code", "error_code", "errorCode"];
    assert(names(r@) =~= code_keys());
    r
}

fn kind_key_names() -> (r: Vec<&'static str>)
    ensures
        names(r@) == kind_keys(),
{
    let r: Vec<&'static str> = vec!["type", "code", "status"];
    assert(names(r@) =~= kind_keys());
    r
}

/// The label that a value gives: a string that is not blank, or the text of a
/// number.
pub open spec fn value_label(value: JsonView) -> Option<Seq<char>> {
    match value {
        JsonView::String(s) => if blank(s) {
            None
        } else {
            Some(s)
        },
        JsonView::Number(n) => Some(number_text(n)),
        _ => None,
    }
}

/// The label under the first of the keys that has one.
pub open spec fn label(
    fields: Seq<(Seq<char>, JsonView)>,
    keys: Seq<Seq<char>>,
) -> Option<Seq<char>>
    decreases keys.len(),
{
    if keys.len() == 0 {
        None
    } else {
        match lookup(fields, keys[0]) {
            Some(value) => match value_label(value) {
                Some(text) => Some(text),
                None => label(fields, keys.drop_first()),
            },
            None => label(fields, keys.drop_first()),
        }
    }
}

/// The label under the first of the keys that has one.
pub fn field_label(object: &Vec<(String, Json)>, keys: &Vec<&str>) -> (r: Option<String>)
    ensures
        match r {
            Some(text) => label(field_views(object@), names(keys@)) == Some(text@),
            None => label(field_views(object@), names(keys@)) is None,
        },
{
    let n: usize = keys.len();
    let ghost all = names(keys@);
    let ghost fields = field_views(object@);
    assert(all.skip(0) == all);
    for i in 0..n
        invariant
            n == keys@.len(),
            all == names(keys@),
            fields == field_views(object@),
            label(fields, all) == label(fields, all.skip(i as int)),
    {
        assert(all.skip(i as int)[0] == keys@[i as int]@);
        assert(all.skip(i as int).drop_first() == all.skip(i + 1));
        match get_field(object, keys[i]) {
            Some(Json::String(s)) => {
                let chars: Vec<char> = chars_of(s.as_str());
                if !is_blank(chars.as_slice()) {
                    return Some(s.clone());
                }
            },
            Some(Json::Number(number)) => {
                let mut text: Vec<char> = Vec::new();
                append_number(&mut text, number);
                assert(text@ == number_text(number@));
                return Some(string_of(text.as_slice()));
            },
            _ => {},
        }
    }
    None
}

/// The string under the first of the keys that has one.
pub open spec fn first_text(
    fields: Seq<(Seq<char>, JsonView)>,
    keys: Seq<Seq<char>>,
) -> Option<Seq<char>>
    decreases keys.len(),
{
    if keys.len() == 0 {
        None
    } else {
        match lookup(fields, keys[0]) {
            Some(JsonView::String(s)) => Some(s),
            _ => first_text(fields, keys.drop_first()),
        }
    }
}

fn first_string<'a>(object: &'a Vec<(String, Json)>, keys: &Vec<&str>) -> (r: Option<&'a str>)
    ensures
        match r {
            Some(text) => first_text(field_views(object@), names(keys@)) == Some(text@),
            None => first_text(field_views(object@), names(keys@)) is None,
        },
{
    let n: usize = keys.len();
    let ghost all = names(keys@);
    let ghost fields = field_views(object@);
    assert(all.skip(0) == all);
    for i in 0..n
        invariant
            n == keys@.len(),
            all == names(keys@),
            fields == field_views(object@),
            first_text(fields, all) == first_text(fields, all.skip(i as int)),
    {
        assert(all.skip(i as int)[0] == keys@[i as int]@);
        assert(all.skip(i as int).drop_first() == all.skip(i + 1));
        match get_field(object, keys[i]) {
            Some(Json::String(s)) => {
                return Some(s.as_str());
            },
            _ => {},
        }
    }
    None
}

/// Whether a message that is not blank stands under one of the message keys.
pub open spec fn has_message(fields: Seq<(Seq<char>, JsonView)>) -> bool {
    exists|i: int|
        0 <= i < message_keys().len() && (lookup(
            fields,
            #[trigger] message_keys()[i],
        ) matches Some(JsonView::String(s)) && !blank(s))
}

/// Whether a message that is not blank stands under one of the message keys.
pub fn has_message_field(object: &Vec<(String, Json)>) -> (r: bool)
    ensures
        r == has_message(field_views(object@)),
{
    let keys: Vec<&'static str> = message_key_names();
    let n: usize = keys.len();
    let ghost fields = field_views(object@);
    for i in 0..n
        invariant
            n == keys@.len(),
            names(keys@) == message_keys(),
            fields == field_views(object@),
            forall|j: int|
                0 <= j < i ==> !(lookup(
                    fields,
                    #[trigger] message_keys()[j],
                ) matches Some(JsonView::String(s)) && !blank(s)),
    {
        assert(message_keys()[i as int] == keys@[i as int]@);
        match get_field(object, keys[i]) {
            Some(Json::String(s)) => {
                let chars: Vec<char> = chars_of(s.as_str());
                if !is_blank(chars.as_slice()) {
                    return true;
                }
            },
            _ => {},
        }
    }
    false
}

/// Whether a business code stands for success.
pub open spec fn success_code(code: JsonView) -> bool {
    match code {
        JsonView::Number(NumberView::Unsigned(n)) => n == 0 || n == 200,
        JsonView::Number(NumberView::Negative(n)) => n == 0 || n == 200,
        JsonView::String(s) => {
            let word = lowered(trimmed(s));
            ||| word == ""@
            ||| word == "0"@
            ||| word == "200"@
            ||| word == "ok"@
            ||| word == "success"@
            ||| word == "succeed"@
        },
        _ => false,
    }
}

/// Whether a business code stands for success.
pub fn is_success_code(code: &Json) -> (r: bool)
    ensures
        r == success_code(code@),
{
    match code {
        Json::Number(JsonNumber::Unsigned(n)) => *n == 0 || *n == 200,
        Json::Number(JsonNumber::Negative(n)) => *n == 0 || *n == 200,
        Json::String(s) => {
            let chars: Vec<char> = chars_of(s.as_str());
            let word: Vec<char> = lower(trim(chars.as_slice()));
            let w: &[char] = word.as_slice();
            is_str(w, "") || is_str(w, "0") || is_str(w, "200") || is_str(w, "ok") || is_str(
                w,
                "success",
            ) || is_str(w, "succeed")
        },
        _ => false,
    }
}

/// Whether a code that does not stand for success stands under a code key.
pub open spec fn has_failure_code(fields: Seq<(Seq<char>, JsonView)>) -> bool {
    exists|i: int|
        0 <= i < code_keys().len() && (lookup(fields, #[trigger] code_keys()[i]) matches Some(code)
            && !success_code(code))
}

/// Whether a code that does not stand for success stands under a code key.
fn has_failure_code_field(object: &Vec<(String, Json)>) -> (r: bool)
    ensures
        r == has_failure_code(field_views(object@)),
{
    let keys: Vec<&'static str> = code_key_names();
    let n: usize = keys.len();
    let ghost fields = field_views(object@);
    for i in 0..n
        invariant
            n == keys@.len(),
            names(keys@) == code_keys(),
            fields == field_views(object@),
            forall|j: int|
                0 <= j < i ==> !(lookup(fields, #[trigger] code_keys()[j]) matches Some(code)
                    && !success_code(code)),
    {
        assert(code_keys()[i as int] == keys@[i as int]@);
        match get_field(object, keys[i]) {
            Some(code) => {
                if !is_success_code(code) {
                    return true;
                }
            },
            None => {},
        }
    }
    false
}

/// Whether the value under `error` tells of a failure. An empty object, a blank
/// string, `null`, `false`, an empty array and a number do not.
pub open spec fn meaningful_error(value: JsonView) -> bool {
    match value {
        JsonView::String(message) => !blank(message),
        JsonView::Object(fields) => {
            ||| label(fields, seq!["type"@, "status"@]) is Some
            ||| has_message(fields)
            ||| has_failure_code(fields)
            ||| (lookup(fields, "param"@) matches Some(JsonView::String(param)) && !blank(param))
        },
        JsonView::Bool(b) => b,
        JsonView::Array(items) => items.len() > 0,
        JsonView::Null => false,
        JsonView::Number(_) => false,
    }
}

/// Whether the value under `error` tells of a failure.
pub fn is_meaningful_error(value: &Json) -> (r: bool)
    ensures
        r == meaningful_error(value@),
{
    match value {
        Json::String(message) => {
            let chars: Vec<char> = chars_of(message.as_str());
            !is_blank(chars.as_slice())
        },
        Json::Object(object) => {
            let keys: Vec<&str> = vec!["type", "status"];
            assert(names(keys@) =~= seq!["type"@, "status"@]);
            if field_label(object, &keys).is_some() {
                return true;
            }
            if has_message_field(object) || has_failure_code_field(object) {
                return true;
            }
            match get_field(object, "param") {
                Some(Json::String(param)) => {
                    let chars: Vec<char> = chars_of(param.as_str());
                    !is_blank(chars.as_slice())
                },
                _ => false,
            }
        },
        Json::Bool(b) => *b,
        Json::Array(items) => {
            proof {
                item_views_index(items@);
            }
            items.len() > 0
        },
        Json::Null => false,
        Json::Number(_) => false,
    }
}

/// A message behind the kind of error, where there is one.
pub open spec fn labelled(kind: Option<Seq<char>>, message: Seq<char>) -> Seq<char> {
    match kind {
        Some(kind) => kind + ": "@ + message,
        None => message,
    }
}

fn labelled_string(kind: &Option<String>, message: &[char]) -> (r: String)
    ensures
        r@ == labelled(
            match *kind {
                Some(k) => Some(k@),
                None => None,
            },
            message@,
        ),
{
    let mut out: Vec<char> = Vec::new();
    match kind {
        Some(k) => {
            append_str(&mut out, k.as_str());
            append_str(&mut out, ": ");
        },
        None => {},
    }
    append(&mut out, message);
    assert(kind is Some ==> out@ == kind->0@ + ": "@ + message@);
    assert(kind is None ==> out@ == message@);
    string_of(out.as_slice())
}

/// What an object that tells of a failure says: its kind and its message, with
/// `fallback` in place of a message that it does not have.
pub open spec fn object_message(
    fields: Seq<(Seq<char>, JsonView)>,
    fallback: Seq<char>,
) -> Seq<char> {
    labelled(
        label(fields, kind_keys()),
        match first_text(fields, message_keys()) {
            Some(message) => concise(message),
            None => fallback,
        },
    )
}

/// What an object that tells of a failure says.
pub fn format_object_message(object: &Vec<(String, Json)>, fallback: &str) -> (r: String)
    ensures
        r@ == object_message(field_views(object@), fallback@),
{
    let kind: Option<String> = field_label(object, &kind_key_names());
    let text: Vec<char> = match first_string(object, &message_key_names()) {
        Some(message) => concise_chars(chars_of(message).as_slice()),
        None => chars_of(fallback),
    };
    labelled_string(&kind, text.as_slice())
}

/// What the value under `error` says. An object with a kind and no message is
/// given by its JSON text, `written`.
pub open spec fn error_message(
    error: JsonView,
    parent: Seq<(Seq<char>, JsonView)>,
    written: Seq<char>,
) -> Seq<char> {
    match error {
        JsonView::String(message) => concise(message),
        JsonView::Object(fields) => {
            let kind = label(fields, kind_keys());
            match first_text(fields, message_keys()) {
                Some(message) => labelled(kind, concise(message)),
                None => match kind {
                    Some(_) => labelled(kind, concise(written)),
                    None => "upstream error"@,
                },
            }
        },
        JsonView::Bool(true) => object_message(parent, "upstream reported failure"@),
        _ => object_message(parent, "upstream error"@),
    }
}

/// What the value under `error` of `parent` says. `written` is its JSON text.
pub fn format_error_value(
    error: &Json,
    parent: &Vec<(String, Json)>,
    written: &str,
) -> (r: String)
    ensures
        r@ == error_message(error@, field_views(parent@), written@),
{
    match error {
        Json::String(message) => truncate_message(message.as_str()),
        Json::Object(object) => {
            let kind: Option<String> = field_label(object, &kind_key_names());
            match first_string(object, &message_key_names()) {
                Some(message) => {
                    let text: Vec<char> = concise_chars(chars_of(message).as_slice());
                    labelled_string(&kind, text.as_slice())
                },
                None => {
                    if kind.is_some() {
                        let text: Vec<char> = concise_chars(chars_of(written).as_slice());
                        labelled_string(&kind, text.as_slice())
                    } else {
                        format_object_message(object, "upstream error")
                    }
                },
            }
        },
        Json::Bool(b) => {
            if *b {
                format_object_message(parent, "upstream reported failure")
            } else {
                format_object_message(parent, "upstream error")
            }
        },
        _ => format_object_message(parent, "upstream error"),
    }
}

/// Whether `success` or `ok` is `false`.
pub open spec fn reports_failure(fields: Seq<(Seq<char>, JsonView)>) -> bool {
    ||| lookup(fields, "success"@) == Some(JsonView::Bool(false))
    ||| lookup(fields, "ok"@) == Some(JsonView::Bool(false))
}

fn is_false(value: Option<&Json>) -> (r: bool)
    ensures
        r == (value matches Some(v) && v@ == JsonView::Bool(false)),
{
    match value {
        Some(Json::Bool(b)) => !*b,
        _ => false,
    }
}

fn is_failure_report(object: &Vec<(String, Json)>) -> (r: bool)
    ensures
        r == reports_failure(field_views(object@)),
{
    is_false(get_field(object, "success")) || is_false(get_field(object, "ok"))
}

/// Whether the word under `status` names a failure.
pub open spec fn failure_status(status: Seq<char>) -> bool {
    let word = lowered(status);
    ||| word == "error"@
    ||| word == "failed"@
    ||| word == "failure"@
    ||| word == "cancelled"@
    ||| word == "canceled"@
    ||| word == "overloaded"@
}

fn is_failure_status(status: &str) -> (r: bool)
    ensures
        r == failure_status(status@),
{
    let word: Vec<char> = lower(chars_of(status).as_slice());
    let w: &[char] = word.as_slice();
    is_str(w, "error") || is_str(w, "failed") || is_str(w, "failure") || is_str(w, "cancelled")
        || is_str(w, "canceled") || is_str(w, "overloaded")
}

/// Whether the word under `type` names an error.
pub open spec fn error_type(kind: Seq<char>) -> bool {
    let word = lowered(kind);
    ||| word == "error"@
    ||| word == "error_event"@
}

fn is_error_type(kind: &str) -> (r: bool)
    ensures
        r == error_type(kind@),
{
    let word: Vec<char> = lower(chars_of(kind).as_slice());
    let w: &[char] = word.as_slice();
    is_str(w, "error") || is_str(w, "error_event")
}

/// What an object under `data` says, if it is an error envelope. `written` is the
/// JSON text of what stands under its `error`.
pub open spec fn data_message(
    fields: Seq<(Seq<char>, JsonView)>,
    written: Seq<char>,
) -> Option<Seq<char>> {
    if lookup(fields, "error"@) matches Some(error) && meaningful_error(error) {
        Some(error_message(lookup(fields, "error"@)->0, fields, written))
    } else if reports_failure(fields) {
        Some(object_message(fields, "upstream reported failure"@))
    } else if has_failure_code(fields) && has_message(fields) {
        Some(object_message(fields, "upstream business error"@))
    } else {
        None
    }
}

/// What an object says, if it is an error envelope. The first shape that fits
/// decides: a meaningful `error`, a `false` under `success` or `ok`, a `status`
/// that names a failure, a `status` of 400 or more beside a message, a `type`
/// that names an error, a business code beside a message, and last an envelope
/// one level below, under `data`. `written` and `nested` are the JSON texts of
/// what stands under `error`, here and one level below.
pub open spec fn envelope_message(
    fields: Seq<(Seq<char>, JsonView)>,
    written: Seq<char>,
    nested: Seq<char>,
) -> Option<Seq<char>> {
    if lookup(fields, "error"@) matches Some(error) && meaningful_error(error) {
        Some(error_message(lookup(fields, "error"@)->0, fields, written))
    } else if reports_failure(fields) {
        Some(object_message(fields, "upstream reported failure"@))
    } else if lookup(fields, "status"@) matches Some(JsonView::String(s)) && failure_status(s) {
        Some(object_message(fields, lookup(fields, "status"@)->0->String_0))
    } else if (lookup(fields, "status"@) matches Some(JsonView::Number(NumberView::Unsigned(n)))
        && n >= 400) && has_message(fields) {
        Some(object_message(fields, "upstream HTTP-style failure"@))
    } else if lookup(fields, "type"@) matches Some(JsonView::String(kind)) && error_type(kind) {
        Some(object_message(fields, "upstream error"@))
    } else if has_failure_code(fields) && has_message(fields) {
        Some(object_message(fields, "upstream business error"@))
    } else if lookup(fields, "data"@) matches Some(JsonView::Object(data)) {
        data_message(lookup(fields, "data"@)->0->Object_0, nested)
    } else {
        None
    }
}

/// What a document says, if it is an error envelope. Only an object can be one.
pub open spec fn document_message(
    json: JsonView,
    written: Seq<char>,
    nested: Seq<char>,
) -> Option<Seq<char>> {
    match json {
        JsonView::Object(fields) => envelope_message(fields, written, nested),
        _ => None,
    }
}

fn nested_error_message(data: &Vec<(String, Json)>, written: &str) -> (r: Option<String>)
    ensures
        text_of(r) == data_message(field_views(data@), written@),
{
    if let Some(error) = get_field(data, "error") {
        if is_meaningful_error(error) {
            return Some(format_error_value(error, data, written));
        }
    }
    if is_failure_report(data) {
        return Some(format_object_message(data, "upstream reported failure"));
    }
    if has_failure_code_field(data) && has_message_field(data) {
        return Some(format_object_message(data, "upstream business error"));
    }
    None
}

/// What a document says, if it is an error envelope. `written` and `nested` are
/// the JSON texts of what stands under `error`, and under `error` of `data`.
pub fn value_error_message(value: &Json, written: &str, nested: &str) -> (r: Option<String>)
    ensures
        text_of(r) == document_message(value@, written@, nested@),
{
    let object: &Vec<(String, Json)> = match value {
        Json::Object(object) => object,
        _ => return None,
    };
    if let Some(error) = get_field(object, "error") {
        if is_meaningful_error(error) {
            return Some(format_error_value(error, object, written));
        }
    }
    if is_failure_report(object) {
        return Some(format_object_message(object, "upstream reported failure"));
    }
    match get_field(object, "status") {
        Some(Json::String(status)) => {
            if is_failure_status(status.as_str()) {
                return Some(format_object_message(object, status.as_str()));
            }
        },
        Some(Json::Number(JsonNumber::Unsigned(status))) => {
            if *status >= 400 && has_message_field(object) {
                return Some(format_object_message(object, "upstream HTTP-style failure"));
            }
        },
        _ => {},
    }
    if let Some(Json::String(kind)) = get_field(object, "type") {
        if is_error_type(kind.as_str()) {
            return Some(format_object_message(object, "upstream error"));
        }
    }
    // Common relay shape: {"code": 1006, "msg": "..."}. A business code is
    // considered meaningful only when an accompanying message is present.
    if has_failure_code_field(object) && has_message_field(object) {
        return Some(format_object_message(object, "upstream business error"));
    }
    // A few relays wrap their response one level below `data` while keeping the
    // same error envelope. Limit this to that conventional wrapper to avoid walking
    // arbitrary model-generated JSON.
    if let Some(Json::Object(data)) = get_field(object, "data") {
        return nested_error_message(data, nested);
    }
    None
}

/// The JSON text of what stands somewhere in a document, empty where nothing does.
pub open spec fn text_at(json: Option<JsonView>) -> Seq<char> {
    match json {
        Some(json) => json_text(json),
        None => seq![],
    }
}

/// What stands under `error` in the object under `data`.
pub open spec fn nested_error(json: JsonView) -> Option<JsonView> {
    match json.field("data"@) {
        Some(data) => data.field("error"@),
        None => None,
    }
}

/// What a body says, if it is an error envelope.
pub open spec fn body_message(body: Seq<u8>) -> Option<Seq<char>> {
    match parsed_json(body) {
        Some(json) => document_message(
            json,
            text_at(json.field("error"@)),
            text_at(nested_error(json)),
        ),
        None => None,
    }
}

fn write_member(value: Option<&serde_json::Value>) -> (r: String)
    ensures
        r@ == text_at(
            match value {
                Some(value) => Some(value_json(*value)),
                None => None,
            },
        ),
{
    match value {
        Some(value) => write_value(value),
        None => String::new(),
    }
}

/// Return a concise error message when `body` is an obvious error envelope.
pub fn json_error_message(body: &[u8]) -> (r: Option<String>)
    ensures
        text_of(r) == body_message(body@),
{
    match parse_value(body) {
        Ok(value) => {
            let written: String = write_member(member(&value, "error"));
            let nested: String = match member(&value, "data") {
                Some(data) => write_member(member(data, "error")),
                None => String::new(),
            };
            value_error_message(&json_of(&value), written.as_str(), nested.as_str())
        },
        Err(_) => None,
    }
}

/// A line without the carriage returns at its end.
pub open spec fn without_crs(line: Seq<char>) -> Seq<char>
    decreases line.len(),
{
    if line.len() > 0 && line.last() == '\r' {
        without_crs(line.drop_last())
    } else {
        line
    }
}

/// The lines of a block, each without the carriage returns at its end.
pub open spec fn clean_lines(block: Seq<char>) -> Seq<Seq<char>> {
    lines_of(block).map_values(|line: Seq<char>| without_crs(line))
}

fn drop_crs(line: &mut Vec<char>)
    ensures
        final(line)@ == without_crs(old(line)@),
{
    while line.len() > 0 && line[line.len() - 1] == '\r'
        invariant
            without_crs(line@) == without_crs(old(line)@),
        decreases line@.len(),
    {
        let ghost before = line@;
        line.truncate(line.len() - 1);
        assert(line@ == before.drop_last());
    }
}

fn split_clean_lines(block: &[char]) -> (r: Vec<Vec<char>>)
    ensures
        texts(r@) == clean_lines(block@),
{
    let raw: Vec<Vec<char>> = lines(block);
    let mut out: Vec<Vec<char>> = Vec::new();
    let n: usize = raw.len();
    for i in 0..n
        invariant
            n == raw@.len(),
            out@.len() == i,
            forall|j: int| 0 <= j < i ==> (#[trigger] out@[j])@ == without_crs(raw@[j]@),
    {
        let mut line: Vec<char> = Vec::new();
        append(&mut line, raw[i].as_slice());
        drop_crs(&mut line);
        out.push(line);
    }
    assert forall|j: int| 0 <= j < n implies texts(out@)[j] == clean_lines(block@)[j] by {
        assert(lines_of(block@)[j] == texts(raw@)[j]);
        assert(out@[j]@ == without_crs(raw@[j]@));
    }
    assert(texts(out@) =~= clean_lines(block@));
    out
}

/// Whether the name of an event says that it carries an error.
pub open spec fn error_event(name: Seq<char>) -> bool {
    let word = lowered(name);
    ||| word == "error"@
    ||| word == "response.error"@
    ||| word == "response.failed"@
}

/// What an event with this name and these data lines says, if it is an error.
/// `said` is what the data says where it is an error envelope.
pub open spec fn event_message(
    name: Seq<char>,
    data: Seq<Seq<char>>,
    said: Option<Seq<char>>,
) -> Option<Seq<char>> {
    let text = trimmed(joined(data, "\n"@));
    if data.len() == 0 {
        if error_event(name) {
            Some("upstream emitted an error event"@)
        } else {
            None
        }
    } else if error_event(name) {
        if said is Some {
            said
        } else if text.len() > 0 && text != "[DONE]"@ {
            Some(concise(text))
        } else {
            Some("upstream emitted an error event"@)
        }
    } else if text == "[DONE]"@ {
        None
    } else {
        said
    }
}

/// What an event says, if it is an error. `said` is what its data says where it
/// is an error envelope.
pub fn event_error_message(event: &SseEvent, said: Option<String>) -> (r: Option<String>)
    ensures
        text_of(r) == event_message(event.name_text(), texts(event.data@), text_of(said)),
{
    let is_error: bool = match &event.name {
        Some(name) => {
            let word: Vec<char> = lower(name.as_slice());
            let w: &[char] = word.as_slice();
            is_str(w, "error") || is_str(w, "response.error") || is_str(w, "response.failed")
        },
        None => {
            proof {
                reveal_strlit("error");
                reveal_strlit("response.error");
                reveal_strlit("response.failed");
                assert(lowered(event.name_text()).len() == 0);
            }
            false
        },
    };
    assert(is_error == error_event(event.name_text()));
    if event.data.len() == 0 {
        if is_error {
            return Some(string_of(chars_of("upstream emitted an error event").as_slice()));
        }
        return None;
    }
    let data: Vec<char> = event.text();
    let text: &[char] = trim(data.as_slice());
    if is_error {
        if said.is_some() {
            return said;
        }
        if text.len() > 0 && !is_str(text, "[DONE]") {
            return Some(string_of(concise_chars(text).as_slice()));
        }
        return Some(string_of(chars_of("upstream emitted an error event").as_slice()));
    }
    if is_str(text, "[DONE]") {
        return None;
    }
    said
}

/// What a block says, if it is an error event.
pub open spec fn block_message(block: Seq<char>) -> Option<Seq<char>> {
    let lines = clean_lines(block);
    event_message(
        match event_name(lines) {
            Some(name) => name,
            None => seq![],
        },
        data_lines(lines),
        body_message(encode_utf8(data_text(lines))),
    )
}

/// What a block says, if it is an error event.
pub fn block_error_message(block: &[char]) -> (r: Option<String>)
    ensures
        text_of(r) == block_message(block@),
{
    let event: SseEvent = SseEvent::read(&split_clean_lines(block));
    if event.data.len() == 0 {
        return event_error_message(&event, None);
    }
    let data: String = string_of(event.text().as_slice());
    let said: Option<String> = json_error_message(data.as_str().as_bytes());
    event_error_message(&event, said)
}

/// Inspect one complete SSE event. `None` means it is not an error event.
pub fn sse_error_message(block: &str) -> (r: Option<String>)
    ensures
        text_of(r) == block_message(block@),
{
    block_error_message(chars_of(block).as_slice())
}

} // verus!
