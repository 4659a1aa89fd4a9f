//! What holds of the errors that are found behind a 2xx status.

use vstd::prelude::*;
use vstd::utf8::encode_utf8;

use crate::json::{json_text, lookup, number_text, parsed_json, JsonView, NumberView};
use crate::laws::identifying::string_at;
use crate::laws::wording::{
    decimal_is_plain, lowering_by_code_point, number_of, plain_decimal,
};
use crate::semantic_error::{
    block_message, body_message, clean_lines, code_keys, concise, document_message,
    envelope_message, error_event, error_message, error_type, event_message, failure_status,
    first_text, has_failure_code, has_message, kind_keys, label, labelled, meaningful_error,
    message_keys, object_message, reports_failure, success_code, value_label, without_crs,
    MAX_ERROR_MESSAGE_CHARS,
};
use crate::sse::{data_lines, event_name};
use crate::text::{
    blank, blank_is_trimmed_empty, decimal, joined, lines_of, lowered, trimmed, trimmed_start,
    trimmed_start_shape, white_space, word_len, word_len_bounds, words_of,
};

verus! {

/// Whether a text is on one line: the space is its only white space.
pub open spec fn on_one_line(s: Seq<char>) -> bool {
    forall|i: int| 0 <= i < s.len() ==> !white_space(#[trigger] s[i]) || s[i] == ' '
}

proof fn words_have_no_white_space(s: Seq<char>)
    ensures
        forall|i: int, j: int|
            0 <= i < words_of(s).len() && 0 <= j < words_of(s)[i].len() ==> !white_space(
                #[trigger] words_of(s)[i][j],
            ),
    decreases s.len(),
{
    let t = trimmed_start(s);
    trimmed_start_shape(s);
    word_len_bounds(t);
    if t.len() > 0 {
        let n = word_len(t);
        word_is_no_white_space(t);
        words_have_no_white_space(t.skip(n));
        assert forall|i: int, j: int|
            0 <= i < words_of(s).len() && 0 <= j < words_of(s)[i].len() implies !white_space(
            #[trigger] words_of(s)[i][j],
        ) by {
            if i == 0 {
                assert(words_of(s)[0] == t.take(n));
                assert(t.take(n)[j] == t[j]);
            } else {
                assert(words_of(s)[i] == words_of(t.skip(n))[i - 1]);
            }
        }
    }
}

proof fn word_is_no_white_space(s: Seq<char>)
    ensures
        forall|j: int| 0 <= j < word_len(s) ==> !white_space(#[trigger] s[j]),
    decreases s.len(),
{
    if s.len() > 0 && !white_space(s[0]) {
        word_is_no_white_space(s.drop_first());
        word_len_bounds(s);
        assert forall|j: int| 0 <= j < word_len(s) implies !white_space(#[trigger] s[j]) by {
            if j > 0 {
                assert(s.drop_first()[j - 1] == s[j]);
            }
        }
    }
}

proof fn joined_words_are_on_one_line(parts: Seq<Seq<char>>)
    requires
        forall|i: int, j: int|
            0 <= i < parts.len() && 0 <= j < parts[i].len() ==> !white_space(
                #[trigger] parts[i][j],
            ),
    ensures
        on_one_line(joined(parts, " "@)),
    decreases parts.len(),
{
    reveal_strlit(" ");
    if parts.len() > 1 {
        let shorter = parts.drop_last();
        assert forall|i: int, j: int|
            0 <= i < shorter.len() && 0 <= j < shorter[i].len() implies !white_space(
            #[trigger] shorter[i][j],
        ) by {
            assert(shorter[i] == parts[i]);
        }
        joined_words_are_on_one_line(shorter);
        let before = joined(shorter, " "@);
        let whole = joined(parts, " "@);
        let last = parts.last();
        assert forall|i: int| 0 <= i < whole.len() implies !white_space(#[trigger] whole[i])
            || whole[i] == ' ' by {
            if i < before.len() {
                assert(whole[i] == before[i]);
            } else if i == before.len() {
                assert(whole[i] == ' ');
            } else {
                assert(whole[i] == last[i - before.len() - 1]);
                assert(last == parts[parts.len() - 1]);
            }
        }
    } else if parts.len() == 1 {
        let whole = joined(parts, " "@);
        assert(whole == parts[0]);
        assert forall|i: int| 0 <= i < whole.len() implies !white_space(#[trigger] whole[i])
            || whole[i] == ' ' by {
            assert(!white_space(parts[0][i]));
        }
    }
}

/// A provider's message is reported on one line, and at most three characters
/// longer than `MAX_ERROR_MESSAGE_CHARS`.
pub proof fn messages_are_concise(message: Seq<char>)
    ensures
        concise(message).len() <= MAX_ERROR_MESSAGE_CHARS + 3,
        on_one_line(concise(message)),
{
    reveal_strlit("...");
    words_have_no_white_space(message);
    joined_words_are_on_one_line(words_of(message));
    let line = joined(words_of(message), " "@);
    if line.len() > MAX_ERROR_MESSAGE_CHARS {
        let cut = line.take(MAX_ERROR_MESSAGE_CHARS as int);
        assert forall|i: int| 0 <= i < concise(message).len() implies !white_space(
            #[trigger] concise(message)[i],
        ) || concise(message)[i] == ' ' by {
            if i < cut.len() {
                assert(concise(message)[i] == line[i]);
            }
        }
    }
}

/// Whether an object has one of the shapes that tell of a failure, what stands
/// under `data` left aside.
pub open spec fn fails(fields: Seq<(Seq<char>, JsonView)>) -> bool {
    ||| (lookup(fields, "error"@) matches Some(error) && meaningful_error(error))
    ||| reports_failure(fields)
    ||| (has_failure_code(fields) && has_message(fields))
}

/// Whether an object has one of the shapes that tell of a failure only at the top
/// of a document.
pub open spec fn fails_at_top(fields: Seq<(Seq<char>, JsonView)>) -> bool {
    ||| (lookup(fields, "status"@) matches Some(JsonView::String(status)) && failure_status(
        status,
    ))
    ||| (lookup(fields, "status"@) matches Some(JsonView::Number(NumberView::Unsigned(status)))
        && status >= 400 && has_message(fields))
    ||| (lookup(fields, "type"@) matches Some(JsonView::String(kind)) && error_type(kind))
}

/// A document is taken for a failure if and only if it is an object that has one
/// of the shapes itself, or whose `data` has one. The order in which the shapes
/// are looked at, and the JSON texts that may be quoted, have no part in it.
pub proof fn failures_have_exactly_these_shapes(
    json: JsonView,
    written: Seq<char>,
    nested: Seq<char>,
)
    ensures
        document_message(json, written, nested) is Some <==> (json matches JsonView::Object(fields)
            && (fails(fields) || fails_at_top(fields) || (lookup(
            fields,
            "data"@,
        ) matches Some(JsonView::Object(data)) && fails(data)))),
{
}

/// An object with none of the keys that are looked at is no failure.
pub proof fn other_objects_are_no_failures(
    fields: Seq<(Seq<char>, JsonView)>,
    written: Seq<char>,
    nested: Seq<char>,
)
    requires
        lookup(fields, "error"@) is None,
        lookup(fields, "success"@) is None,
        lookup(fields, "ok"@) is None,
        lookup(fields, "status"@) is None,
        lookup(fields, "type"@) is None,
        lookup(fields, "data"@) is None,
        forall|i: int|
            0 <= i < code_keys().len() ==> lookup(fields, #[trigger] code_keys()[i]) is None,
    ensures
        document_message(JsonView::Object(fields), written, nested) is None,
{
}

/// A business code by itself is no failure, whatever it is: without a message
/// beside it, an object that tells of none otherwise is let through.
pub proof fn business_codes_need_a_message(
    fields: Seq<(Seq<char>, JsonView)>,
    written: Seq<char>,
    nested: Seq<char>,
)
    requires
        !has_message(fields),
        !(lookup(fields, "error"@) matches Some(error) && meaningful_error(error)),
        !reports_failure(fields),
        !fails_at_top(fields),
        !(lookup(fields, "data"@) matches Some(JsonView::Object(data)) && fails(data)),
    ensures
        document_message(JsonView::Object(fields), written, nested) is None,
{
}

/// The keys that are looked at in an object, `data` left aside.
pub open spec fn read_keys() -> Seq<Seq<char>> {
    seq!["error"@, "success"@, "ok"@, "status"@, "type"@] + code_keys() + message_keys()
}

/// Whether two objects hold the same under each of these keys.
pub open spec fn agree_on(
    one: Seq<(Seq<char>, JsonView)>,
    other: Seq<(Seq<char>, JsonView)>,
    keys: Seq<Seq<char>>,
) -> bool {
    forall|i: int|
        0 <= i < keys.len() ==> lookup(one, #[trigger] keys[i]) == lookup(other, keys[i])
}

proof fn labels_rest_on_their_keys(
    one: Seq<(Seq<char>, JsonView)>,
    other: Seq<(Seq<char>, JsonView)>,
    keys: Seq<Seq<char>>,
)
    requires
        agree_on(one, other, keys),
    ensures
        label(one, keys) == label(other, keys),
        first_text(one, keys) == first_text(other, keys),
    decreases keys.len(),
{
    if keys.len() > 0 {
        assert(lookup(one, keys[0]) == lookup(other, keys[0]));
        assert forall|i: int| 0 <= i < keys.drop_first().len() implies lookup(
            one,
            #[trigger] keys.drop_first()[i],
        ) == lookup(other, keys.drop_first()[i]) by {
            assert(keys.drop_first()[i] == keys[i + 1]);
        }
        labels_rest_on_their_keys(one, other, keys.drop_first());
    }
}

proof fn messages_rest_on_the_read_keys(
    one: Seq<(Seq<char>, JsonView)>,
    other: Seq<(Seq<char>, JsonView)>,
)
    requires
        agree_on(one, other, read_keys()),
    ensures
        forall|fallback: Seq<char>| #[trigger]
            object_message(one, fallback) == object_message(other, fallback),
        has_message(one) == has_message(other),
        has_failure_code(one) == has_failure_code(other),
        reports_failure(one) == reports_failure(other),
        agree_on(one, other, seq!["error"@, "status"@, "type"@]),
{
    let keys = read_keys();
    let top = seq!["error"@, "success"@, "ok"@, "status"@, "type"@];
    assert forall|i: int| 0 <= i < 5 implies keys[i] == #[trigger] top[i] by {}
    assert forall|i: int| 0 <= i < 3 implies keys[i + 5] == #[trigger] code_keys()[i] by {}
    assert forall|i: int| 0 <= i < 4 implies keys[i + 8] == #[trigger] message_keys()[i] by {}
    assert(lookup(one, keys[0]) == lookup(other, keys[0]));
    assert(lookup(one, keys[1]) == lookup(other, keys[1]));
    assert(lookup(one, keys[2]) == lookup(other, keys[2]));
    assert(lookup(one, keys[3]) == lookup(other, keys[3]));
    assert(lookup(one, keys[4]) == lookup(other, keys[4]));
    assert(agree_on(one, other, code_keys()));
    assert(agree_on(one, other, message_keys()));
    assert(lookup(one, code_keys()[0]) == lookup(other, code_keys()[0]));
    assert(agree_on(one, other, kind_keys()));
    labels_rest_on_their_keys(one, other, kind_keys());
    labels_rest_on_their_keys(one, other, message_keys());
}

/// The fields of the object under `data`.
pub open spec fn data_of(
    fields: Seq<(Seq<char>, JsonView)>,
) -> Option<Seq<(Seq<char>, JsonView)>> {
    match lookup(fields, "data"@) {
        Some(JsonView::Object(data)) => Some(data),
        _ => None,
    }
}

/// Nothing else in a document is looked at: two objects that hold the same under
/// the keys that are read, and whose `data` holds the same under these keys, say
/// the same. What a model writes elsewhere has no part in it.
pub proof fn nothing_else_is_read(
    one: Seq<(Seq<char>, JsonView)>,
    other: Seq<(Seq<char>, JsonView)>,
    written: Seq<char>,
    nested: Seq<char>,
)
    requires
        agree_on(one, other, read_keys()),
        match (data_of(one), data_of(other)) {
            (Some(one_data), Some(other_data)) => agree_on(one_data, other_data, read_keys()),
            (None, None) => true,
            _ => false,
        },
    ensures
        envelope_message(one, written, nested) == envelope_message(other, written, nested),
{
    let keys = seq!["error"@, "status"@, "type"@];
    messages_rest_on_the_read_keys(one, other);
    assert(lookup(one, keys[0]) == lookup(other, keys[0]));
    assert(lookup(one, keys[1]) == lookup(other, keys[1]));
    assert(lookup(one, keys[2]) == lookup(other, keys[2]));
    assert(error_message_agrees(one, other, written));
    if let (Some(one_data), Some(other_data)) = (data_of(one), data_of(other)) {
        messages_rest_on_the_read_keys(one_data, other_data);
        assert(lookup(one_data, keys[0]) == lookup(other_data, keys[0]));
        assert(error_message_agrees(one_data, other_data, nested));
    }
}

spec fn error_message_agrees(
    one: Seq<(Seq<char>, JsonView)>,
    other: Seq<(Seq<char>, JsonView)>,
    written: Seq<char>,
) -> bool {
    lookup(one, "error"@) matches Some(error) ==> error_message(error, one, written)
        == error_message(error, other, written)
}

/// An event whose name says that it carries an error is always reported, whatever
/// its data is. The case of ASCII letters in the name does not matter.
pub proof fn error_events_are_always_reported(
    name: Seq<char>,
    data: Seq<Seq<char>>,
    said: Option<Seq<char>>,
)
    ensures
        error_event(name) ==> event_message(name, data, said) is Some,
        error_event(lowered(name)) == error_event(name),
{
    assert(lowered(lowered(name)) =~= lowered(name));
}

/// Any other event is reported if and only if its data is an error envelope; the
/// end marker and an event without data never are.
pub proof fn other_events_are_reported_by_their_data(
    name: Seq<char>,
    data: Seq<Seq<char>>,
    said: Option<Seq<char>>,
)
    requires
        !error_event(name),
    ensures
        event_message(name, data, said) == (if data.len() == 0 || trimmed(joined(data, "\n"@))
            == "[DONE]"@ {
            None
        } else {
            said
        }),
{
}

/// Lengths and first letters tell the keys apart that are looked at.
proof fn keys_are_told_apart()
    ensures
        "error"@.len() == 5 && "error"@[0] == 'e',
        "param"@.len() == 5 && "param"@[0] == 'p',
        "success"@.len() == 7 && "success"@[0] == 's',
        "message"@.len() == 7 && "message"@[0] == 'm',
        "status"@.len() == 6 && "status"@[0] == 's',
        "detail"@.len() == 6 && "detail"@[0] == 'd',
        "type"@.len() == 4 && "type"@[0] == 't',
        "code"@.len() == 4 && "code"@[0] == 'c',
        "data"@.len() == 4 && "data"@[0] == 'd',
        "ok"@.len() == 2,
        "msg"@.len() == 3,
        "error_code"@.len() == 10,
        "errorCode"@.len() == 9,
        "error_description"@.len() == 17,
{
    reveal_strlit("error");
    reveal_strlit("param");
    reveal_strlit("success");
    reveal_strlit("message");
    reveal_strlit("status");
    reveal_strlit("detail");
    reveal_strlit("type");
    reveal_strlit("code");
    reveal_strlit("data");
    reveal_strlit("ok");
    reveal_strlit("msg");
    reveal_strlit("error_code");
    reveal_strlit("errorCode");
    reveal_strlit("error_description");
}

/// Whether a string that is not blank stands under a key.
pub open spec fn tells(fields: Seq<(Seq<char>, JsonView)>, key: Seq<char>) -> bool {
    string_at(fields, key) matches Some(s) && trimmed(s).len() > 0
}

/// Whether an object has a message.
pub open spec fn gives_message(fields: Seq<(Seq<char>, JsonView)>) -> bool {
    ||| tells(fields, "message"@)
    ||| tells(fields, "msg"@)
    ||| tells(fields, "detail"@)
    ||| tells(fields, "error_description"@)
}

/// Whether a code stands for success: zero, two hundred, or one of six words.
pub open spec fn fine(code: JsonView) -> bool {
    match code {
        JsonView::Number(NumberView::Unsigned(n)) => n == 0 || n == 200,
        JsonView::Number(NumberView::Negative(n)) => n == 0 || n == 200,
        JsonView::String(s) => {
            let word = lowered(trimmed(s));
            ||| word.len() == 0
            ||| word == "0"@
            ||| word == "200"@
            ||| word == "ok"@
            ||| word == "success"@
            ||| word == "succeed"@
        },
        _ => false,
    }
}

/// Whether something stands under a key that is no code of success.
pub open spec fn not_fine(fields: Seq<(Seq<char>, JsonView)>, key: Seq<char>) -> bool {
    lookup(fields, key) matches Some(code) && !fine(code)
}

/// Whether an object has a code that does not stand for success.
pub open spec fn gives_failure_code(fields: Seq<(Seq<char>, JsonView)>) -> bool {
    not_fine(fields, "code"@) || not_fine(fields, "error_code"@) || not_fine(fields, "errorCode"@)
}

/// Whether a number stands under a key.
pub open spec fn number_at(fields: Seq<(Seq<char>, JsonView)>, key: Seq<char>) -> bool {
    lookup(fields, key) matches Some(JsonView::Number(_))
}

/// Whether what stands under `error` means something.
pub open spec fn means_something(error: JsonView) -> bool {
    match error {
        JsonView::Null => false,
        JsonView::Number(_) => false,
        JsonView::Bool(b) => b,
        JsonView::String(s) => trimmed(s).len() > 0,
        JsonView::Array(items) => items.len() > 0,
        JsonView::Object(fields) => {
            ||| tells(fields, "type"@) || number_at(fields, "type"@)
            ||| tells(fields, "status"@) || number_at(fields, "status"@)
            ||| gives_message(fields)
            ||| gives_failure_code(fields)
            ||| tells(fields, "param"@)
        },
    }
}

/// Whether an object has one of the three shapes that tell of a failure at the top
/// and under `data` alike.
pub open spec fn has_failed(fields: Seq<(Seq<char>, JsonView)>) -> bool {
    ||| (lookup(fields, "error"@) matches Some(error) && means_something(error))
    ||| lookup(fields, "success"@) == Some(JsonView::Bool(false))
    ||| lookup(fields, "ok"@) == Some(JsonView::Bool(false))
    ||| gives_failure_code(fields) && gives_message(fields)
}

/// Whether a document tells of a failure, by the literal words and numbers that
/// stand in it.
pub open spec fn tells_of_failure(json: JsonView) -> bool {
    json matches JsonView::Object(fields) && {
        ||| has_failed(fields)
        ||| (string_at(fields, "status"@) matches Some(status) && {
            let word = lowered(status);
            ||| word == "error"@
            ||| word == "failed"@
            ||| word == "failure"@
            ||| word == "cancelled"@
            ||| word == "canceled"@
            ||| word == "overloaded"@
        })
        ||| (lookup(fields, "status"@) matches Some(JsonView::Number(NumberView::Unsigned(status)))
            && status >= 400 && gives_message(fields))
        ||| (string_at(fields, "type"@) matches Some(kind) && (lowered(kind) == "error"@ || lowered(
            kind,
        ) == "error_event"@))
        ||| (lookup(fields, "data"@) matches Some(JsonView::Object(data)) && has_failed(data))
    }
}

proof fn messages_are_given(fields: Seq<(Seq<char>, JsonView)>)
    ensures
        has_message(fields) <==> gives_message(fields),
{
    let keys = message_keys();
    assert(keys[0] == "message"@ && keys[1] == "msg"@ && keys[2] == "detail"@ && keys[3]
        == "error_description"@);
    assert forall|i: int| 0 <= i < 4 implies ((lookup(fields, #[trigger] keys[i]) matches Some(
        JsonView::String(s),
    ) && !blank(s)) <==> tells(fields, keys[i])) by {
        if let Some(JsonView::String(s)) = lookup(fields, keys[i]) {
            blank_is_trimmed_empty(s);
        }
    }
    if gives_message(fields) {
        let i: int = if tells(fields, "message"@) {
            0
        } else if tells(fields, "msg"@) {
            1
        } else if tells(fields, "detail"@) {
            2
        } else {
            3
        };
        assert(tells(fields, keys[i]));
        assert(has_message(fields));
    }
}

/// A code stands for success if and only if it is zero, two hundred, or, trimmed and
/// with A to Z lowered, empty, `0`, `200`, `ok`, `success` or `succeed`.
pub proof fn success_by_value(code: JsonView)
    ensures
        success_code(code) <==> fine(code),
{
    reveal_strlit("");
    if let JsonView::String(s) = code {
        let word = lowered(trimmed(s));
        if word.len() == 0 {
            assert(word =~= ""@);
        }
    }
}

proof fn failure_codes_are_given(fields: Seq<(Seq<char>, JsonView)>)
    ensures
        has_failure_code(fields) <==> gives_failure_code(fields),
{
    let keys = code_keys();
    assert(keys[0] == "code"@ && keys[1] == "error_code"@ && keys[2] == "errorCode"@);
    assert forall|i: int| 0 <= i < 3 implies ((lookup(fields, #[trigger] keys[i]) matches Some(code)
        && !success_code(code)) <==> not_fine(fields, keys[i])) by {
        if let Some(code) = lookup(fields, keys[i]) {
            success_by_value(code);
        }
    }
    if gives_failure_code(fields) {
        let i: int = if not_fine(fields, "code"@) {
            0
        } else if not_fine(fields, "error_code"@) {
            1
        } else {
            2
        };
        assert(not_fine(fields, keys[i]));
        assert(has_failure_code(fields));
    }
}

/// The label that stands under a key: a string that is not blank, or the text of a
/// number.
pub open spec fn label_at(fields: Seq<(Seq<char>, JsonView)>, key: Seq<char>) -> Option<
    Seq<char>,
> {
    match lookup(fields, key) {
        Some(JsonView::String(s)) => if trimmed(s).len() > 0 {
            Some(s)
        } else {
            None
        },
        Some(JsonView::Number(n)) => Some(number_text(n)),
        _ => None,
    }
}

/// The kind of a failure: the label under `type`, or else under `code`, or else under
/// `status`.
pub open spec fn kind_of(fields: Seq<(Seq<char>, JsonView)>) -> Option<Seq<char>> {
    if label_at(fields, "type"@) is Some {
        label_at(fields, "type"@)
    } else if label_at(fields, "code"@) is Some {
        label_at(fields, "code"@)
    } else {
        label_at(fields, "status"@)
    }
}

/// The message of a failure: the string under `message`, or else under `msg`, or else
/// under `detail`, or else under `error_description`.
pub open spec fn message_of(fields: Seq<(Seq<char>, JsonView)>) -> Option<Seq<char>> {
    if string_at(fields, "message"@) is Some {
        string_at(fields, "message"@)
    } else if string_at(fields, "msg"@) is Some {
        string_at(fields, "msg"@)
    } else if string_at(fields, "detail"@) is Some {
        string_at(fields, "detail"@)
    } else {
        string_at(fields, "error_description"@)
    }
}

proof fn labels_are_found(fields: Seq<(Seq<char>, JsonView)>)
    ensures
        label(fields, kind_keys()) == kind_of(fields),
        first_text(fields, message_keys()) == message_of(fields),
        label(fields, seq!["type"@, "status"@]) is Some <==> label_at(fields, "type"@) is Some
            || label_at(fields, "status"@) is Some,
{
    reveal_with_fuel(label, 5);
    reveal_with_fuel(first_text, 6);
    let kinds = kind_keys();
    assert(kinds.drop_first() =~= seq!["code"@, "status"@]);
    assert(kinds.drop_first().drop_first() =~= seq!["status"@]);
    assert(kinds.drop_first().drop_first().drop_first() =~= Seq::empty());
    let two = seq!["type"@, "status"@];
    assert(two.drop_first() =~= seq!["status"@]);
    assert(two.drop_first().drop_first() =~= Seq::empty());
    let keys = message_keys();
    assert(keys.drop_first() =~= seq!["msg"@, "detail"@, "error_description"@]);
    assert(keys.drop_first().drop_first() =~= seq!["detail"@, "error_description"@]);
    assert(keys.drop_first().drop_first().drop_first() =~= seq!["error_description"@]);
    assert(keys.drop_first().drop_first().drop_first().drop_first() =~= Seq::empty());
    label_by_value(fields, "type"@);
    label_by_value(fields, "code"@);
    label_by_value(fields, "status"@);
}

proof fn label_by_value(fields: Seq<(Seq<char>, JsonView)>, key: Seq<char>)
    ensures
        label_at(fields, key) == (match lookup(fields, key) {
            Some(value) => value_label(value),
            None => None,
        }),
{
    if let Some(JsonView::String(s)) = lookup(fields, key) {
        blank_is_trimmed_empty(s);
    }
}

/// What stands under `error` means something if and only if it is `true`, a string
/// that is not blank, an array that is not empty, or an object with a type, a status,
/// a message, a failure code or a parameter.
pub proof fn errors_mean_something_by_value(error: JsonView)
    ensures
        meaningful_error(error) <==> means_something(error),
{
    match error {
        JsonView::String(s) => blank_is_trimmed_empty(s),
        JsonView::Object(fields) => {
            labels_are_found(fields);
            messages_are_given(fields);
            failure_codes_are_given(fields);
            if let Some(JsonView::String(s)) = lookup(fields, "param"@) {
                blank_is_trimmed_empty(s);
            }
        },
        _ => {},
    }
}

/// A document is reported if and only if the literal words, numbers and flags in it
/// tell of a failure.
pub proof fn documents_are_reported_by_their_words(
    json: JsonView,
    written: Seq<char>,
    nested: Seq<char>,
)
    ensures
        document_message(json, written, nested) is Some <==> tells_of_failure(json),
{
    if let JsonView::Object(fields) = json {
        failure_reasons(fields);
        if let Some(JsonView::Object(data)) = lookup(fields, "data"@) {
            failure_reasons(data);
        }
    }
}

proof fn failure_reasons(fields: Seq<(Seq<char>, JsonView)>)
    ensures
        has_message(fields) <==> gives_message(fields),
        has_failure_code(fields) <==> gives_failure_code(fields),
        lookup(fields, "error"@) matches Some(error) ==> (meaningful_error(error)
            <==> means_something(error)),
        reports_failure(fields) <==> lookup(fields, "success"@) == Some(JsonView::Bool(false))
            || lookup(fields, "ok"@) == Some(JsonView::Bool(false)),
{
    messages_are_given(fields);
    failure_codes_are_given(fields);
    if let Some(error) = lookup(fields, "error"@) {
        errors_mean_something_by_value(error);
    }
}

/// A text behind the kind of a failure, a colon and a space, where it has a kind.
pub open spec fn behind_kind(kind: Option<Seq<char>>, text: Seq<char>) -> Seq<char> {
    match kind {
        Some(kind) => kind.push(':').push(' ') + text,
        None => text,
    }
}

/// What an object says: its kind and its message, or what stands in for a message.
pub open spec fn says(fields: Seq<(Seq<char>, JsonView)>, otherwise: Seq<char>) -> Seq<char> {
    behind_kind(
        kind_of(fields),
        match message_of(fields) {
            Some(message) => concise(message),
            None => otherwise,
        },
    )
}

/// What stands under `error` says: a string itself; an object its kind and message,
/// its JSON text where it has a kind alone, and the plain words where it has neither;
/// anything else what the object around it says.
pub open spec fn error_says(
    error: JsonView,
    around: Seq<(Seq<char>, JsonView)>,
    written: Seq<char>,
) -> Seq<char> {
    match error {
        JsonView::String(s) => concise(s),
        JsonView::Object(fields) => if message_of(fields) is Some {
            behind_kind(kind_of(fields), concise(message_of(fields)->0))
        } else if kind_of(fields) is Some {
            behind_kind(kind_of(fields), concise(written))
        } else {
            "upstream error"@
        },
        JsonView::Bool(b) => if b {
            says(around, "upstream reported failure"@)
        } else {
            says(around, "upstream error"@)
        },
        _ => says(around, "upstream error"@),
    }
}

proof fn objects_say(fields: Seq<(Seq<char>, JsonView)>, otherwise: Seq<char>)
    ensures
        object_message(fields, otherwise) == says(fields, otherwise),
{
    labels_are_found(fields);
    labels_come_first(
        kind_of(fields),
        match message_of(fields) {
            Some(message) => concise(message),
            None => otherwise,
        },
    );
}

proof fn labels_come_first(kind: Option<Seq<char>>, text: Seq<char>)
    ensures
        labelled(kind, text) == behind_kind(kind, text),
{
    reveal_strlit(": ");
    if let Some(k) = kind {
        assert(k + ": "@ + text =~= k.push(':').push(' ') + text);
    }
}

/// What is reported of an error is what the value says.
pub proof fn errors_say_what_they_hold(
    error: JsonView,
    around: Seq<(Seq<char>, JsonView)>,
    written: Seq<char>,
)
    ensures
        error_message(error, around, written) == error_says(error, around, written),
{
    objects_say(around, "upstream reported failure"@);
    objects_say(around, "upstream error"@);
    if let JsonView::Object(fields) = error {
        labels_are_found(fields);
        labels_come_first(kind_of(fields), concise(written));
        if let Some(message) = message_of(fields) {
            labels_come_first(kind_of(fields), concise(message));
        }
    }
}

/// What is reported of a document that tells of a failure. A meaningful `error` is
/// asked first, then the flags, the word and the number under `status`, the word
/// under `type`, the business codes, and last what stands under `data`, where `error`
/// comes first too, then the flags, then the codes.
pub proof fn reports_say_what_the_first_reason_says(
    fields: Seq<(Seq<char>, JsonView)>,
    written: Seq<char>,
    nested: Seq<char>,
)
    requires
        tells_of_failure(JsonView::Object(fields)),
    ensures
        ({
            let said = document_message(JsonView::Object(fields), written, nested)->0;
            let error = lookup(fields, "error"@);
            let flagged = lookup(fields, "success"@) == Some(JsonView::Bool(false)) || lookup(
                fields,
                "ok"@,
            ) == Some(JsonView::Bool(false));
            if error is Some && means_something(error->0) {
                said == error_says(error->0, fields, written)
            } else if flagged {
                said == says(fields, "upstream reported failure"@)
            } else if string_at(fields, "status"@) matches Some(status) && tells_of_failure(
                JsonView::Object(seq![("status"@, JsonView::String(status))]),
            ) {
                said == says(fields, string_at(fields, "status"@)->0)
            } else if (lookup(fields, "status"@) matches Some(
                JsonView::Number(NumberView::Unsigned(status)),
            ) && status >= 400) && gives_message(fields) {
                said == says(fields, "upstream HTTP-style failure"@)
            } else if string_at(fields, "type"@) matches Some(kind) && (lowered(kind) == "error"@
                || lowered(kind) == "error_event"@) {
                said == says(fields, "upstream error"@)
            } else if gives_failure_code(fields) && gives_message(fields) {
                said == says(fields, "upstream business error"@)
            } else {
                let data = lookup(fields, "data"@)->0->Object_0;
                let inner = lookup(data, "error"@);
                if inner is Some && means_something(inner->0) {
                    said == error_says(inner->0, data, nested)
                } else if lookup(data, "success"@) == Some(JsonView::Bool(false)) || lookup(
                    data,
                    "ok"@,
                ) == Some(JsonView::Bool(false)) {
                    said == says(data, "upstream reported failure"@)
                } else {
                    said == says(data, "upstream business error"@)
                }
            }
        }),
{
    documents_are_reported_by_their_words(JsonView::Object(fields), written, nested);
    failure_reasons(fields);
    objects_say(fields, "upstream reported failure"@);
    objects_say(fields, "upstream HTTP-style failure"@);
    objects_say(fields, "upstream error"@);
    objects_say(fields, "upstream business error"@);
    if let Some(error) = lookup(fields, "error"@) {
        errors_say_what_they_hold(error, fields, written);
    }
    if let Some(JsonView::String(status)) = lookup(fields, "status"@) {
        objects_say(fields, status);
        a_status_alone(status, written, nested);
    }
    if let Some(JsonView::Object(data)) = lookup(fields, "data"@) {
        failure_reasons(data);
        objects_say(data, "upstream reported failure"@);
        objects_say(data, "upstream business error"@);
        if let Some(error) = lookup(data, "error"@) {
            errors_say_what_they_hold(error, data, nested);
        }
    }
}

proof fn one_field(key: Seq<char>, value: JsonView, other: Seq<char>)
    ensures
        lookup(seq![(key, value)], other) == (if other == key {
            Some(value)
        } else {
            None
        }),
{
    let fields = seq![(key, value)];
    assert(fields[0] == (key, value));
    assert(fields.drop_first() =~= Seq::empty());
    reveal_with_fuel(lookup, 2);
}

proof fn one_field_is_all(key: Seq<char>, value: JsonView)
    ensures
        ({
            let fields = seq![(key, value)];
            &&& lookup(fields, key) == Some(value)
            &&& key != "error"@ ==> lookup(fields, "error"@) is None
            &&& key != "success"@ ==> lookup(fields, "success"@) is None
            &&& key != "ok"@ ==> lookup(fields, "ok"@) is None
            &&& key != "status"@ ==> lookup(fields, "status"@) is None
            &&& key != "type"@ ==> lookup(fields, "type"@) is None
            &&& key != "data"@ ==> lookup(fields, "data"@) is None
            &&& key != "code"@ ==> lookup(fields, "code"@) is None
            &&& key != "error_code"@ ==> lookup(fields, "error_code"@) is None
            &&& key != "errorCode"@ ==> lookup(fields, "errorCode"@) is None
            &&& key != "message"@ ==> lookup(fields, "message"@) is None
            &&& key != "msg"@ ==> lookup(fields, "msg"@) is None
            &&& key != "detail"@ ==> lookup(fields, "detail"@) is None
            &&& key != "error_description"@ ==> lookup(fields, "error_description"@) is None
        }),
{
    one_field(key, value, key);
    one_field(key, value, "error"@);
    one_field(key, value, "success"@);
    one_field(key, value, "ok"@);
    one_field(key, value, "status"@);
    one_field(key, value, "type"@);
    one_field(key, value, "data"@);
    one_field(key, value, "code"@);
    one_field(key, value, "error_code"@);
    one_field(key, value, "errorCode"@);
    one_field(key, value, "message"@);
    one_field(key, value, "msg"@);
    one_field(key, value, "detail"@);
    one_field(key, value, "error_description"@);
}

/// An object whose only field is a word under `status` is reported if and only if the
/// word, with A to Z lowered, is `error`, `failed`, `failure`, `cancelled`, `canceled`
/// or `overloaded`. What is reported is the word, a colon, and the word again.
pub proof fn a_status_alone(status: Seq<char>, written: Seq<char>, nested: Seq<char>)
    ensures
        ({
            let json = JsonView::Object(seq![("status"@, JsonView::String(status))]);
            let word = lowered(status);
            let failure = word == "error"@ || word == "failed"@ || word == "failure"@ || word
                == "cancelled"@ || word == "canceled"@ || word == "overloaded"@;
            &&& document_message(json, written, nested) is Some <==> failure
            &&& tells_of_failure(json) <==> failure
            &&& failure ==> document_message(json, written, nested) == Some(
                status.push(':').push(' ') + status,
            )
        }),
{
    let fields = seq![("status"@, JsonView::String(status))];
    let json = JsonView::Object(fields);
    keys_are_told_apart();
    one_field_is_all("status"@, JsonView::String(status));
    documents_are_reported_by_their_words(json, written, nested);
    assert(!gives_message(fields));
    objects_say(fields, status);
    if document_message(json, written, nested) is Some {
        let word = lowered(status);
        reveal_strlit("error");
        reveal_strlit("failed");
        reveal_strlit("failure");
        reveal_strlit("cancelled");
        reveal_strlit("canceled");
        reveal_strlit("overloaded");
        assert(word[0] == 'e' || word[0] == 'f' || word[0] == 'c' || word[0] == 'o');
        lowering_by_code_point(status);
        assert(lowered(status)[0] == word[0]);
        assert(!white_space(status[0]));
        blank_is_trimmed_empty(status);
        assert(kind_of(fields) == Some(status));
        failure_reasons(fields);
    }
}

/// A finished, running, queued or cut-off response is no failure by its status.
pub proof fn ordinary_statuses_are_let_through(written: Seq<char>, nested: Seq<char>)
    ensures
        document_message(
            JsonView::Object(seq![("status"@, JsonView::String("completed"@))]),
            written,
            nested,
        ) is None,
        document_message(
            JsonView::Object(seq![("status"@, JsonView::String("in_progress"@))]),
            written,
            nested,
        ) is None,
        document_message(
            JsonView::Object(seq![("status"@, JsonView::String("queued"@))]),
            written,
            nested,
        ) is None,
        document_message(
            JsonView::Object(seq![("status"@, JsonView::String("incomplete"@))]),
            written,
            nested,
        ) is None,
{
    reveal_strlit("error");
    reveal_strlit("failed");
    reveal_strlit("failure");
    reveal_strlit("cancelled");
    reveal_strlit("canceled");
    reveal_strlit("overloaded");
    reveal_strlit("completed");
    reveal_strlit("in_progress");
    reveal_strlit("queued");
    reveal_strlit("incomplete");
    assert(lowered("in_progress"@).len() == 11);
    assert(lowered("completed"@)[1] == 'o');
    assert("cancelled"@[1] == 'a');
    assert(lowered("queued"@)[0] == 'q');
    assert("failed"@[0] == 'f');
    assert(lowered("incomplete"@)[0] == 'i');
    assert("overloaded"@[0] == 'o');
    a_status_alone("completed"@, written, nested);
    a_status_alone("in_progress"@, written, nested);
    a_status_alone("queued"@, written, nested);
    a_status_alone("incomplete"@, written, nested);
}

/// An object whose only field is a word under `type` is reported if and only if the
/// word, with A to Z lowered, is `error` or `error_event`.
pub proof fn a_type_alone(kind: Seq<char>, written: Seq<char>, nested: Seq<char>)
    ensures
        document_message(
            JsonView::Object(seq![("type"@, JsonView::String(kind))]),
            written,
            nested,
        ) is Some <==> lowered(kind) == "error"@ || lowered(kind) == "error_event"@,
{
    let json = JsonView::Object(seq![("type"@, JsonView::String(kind))]);
    keys_are_told_apart();
    one_field_is_all("type"@, JsonView::String(kind));
    documents_are_reported_by_their_words(json, written, nested);
}

/// What stands alone under `data` of a document is reported as it would be without
/// the wrapper, where it is an `error` or a flag; a word under `status` or `type`
/// counts at the top only.
pub proof fn wrapped_documents(value: JsonView, written: Seq<char>, nested: Seq<char>)
    ensures
        ({
            let wrapped = |key: Seq<char>|
                JsonView::Object(seq![("data"@, JsonView::Object(seq![(key, value)]))]);
            let plain = |key: Seq<char>| JsonView::Object(seq![(key, value)]);
            &&& document_message(wrapped("error"@), written, nested) is Some <==> document_message(
                plain("error"@),
                written,
                nested,
            ) is Some
            &&& document_message(wrapped("success"@), written, nested) is Some <==> document_message(
                plain("success"@),
                written,
                nested,
            ) is Some
            &&& document_message(wrapped("ok"@), written, nested) is Some <==> document_message(
                plain("ok"@),
                written,
                nested,
            ) is Some
            &&& document_message(wrapped("status"@), written, nested) is None
            &&& document_message(wrapped("type"@), written, nested) is None
            &&& document_message(wrapped("data"@), written, nested) is None
        }),
{
    keys_are_told_apart();
    wrapped_document("error"@, value, written, nested);
    wrapped_document("success"@, value, written, nested);
    wrapped_document("ok"@, value, written, nested);
    wrapped_document("status"@, value, written, nested);
    wrapped_document("type"@, value, written, nested);
    wrapped_document("data"@, value, written, nested);
}

proof fn wrapped_document(
    key: Seq<char>,
    value: JsonView,
    written: Seq<char>,
    nested: Seq<char>,
)
    ensures
        ({
            let inner = seq![(key, value)];
            let wrapped = JsonView::Object(seq![("data"@, JsonView::Object(inner))]);
            &&& document_message(wrapped, written, nested) is Some <==> has_failed(inner)
            &&& document_message(JsonView::Object(inner), written, nested) is Some
                <==> tells_of_failure(JsonView::Object(inner))
            &&& lookup(inner, key) == Some(value)
            &&& key != "error"@ ==> lookup(inner, "error"@) is None
            &&& key != "success"@ ==> lookup(inner, "success"@) is None
            &&& key != "ok"@ ==> lookup(inner, "ok"@) is None
            &&& key != "status"@ ==> lookup(inner, "status"@) is None
            &&& key != "type"@ ==> lookup(inner, "type"@) is None
            &&& key != "data"@ ==> lookup(inner, "data"@) is None
            &&& key != "message"@ && key != "msg"@ && key != "detail"@ && key
                != "error_description"@ ==> !gives_message(inner)
        }),
{
    let inner = seq![(key, value)];
    let fields = seq![("data"@, JsonView::Object(inner))];
    keys_are_told_apart();
    one_field_is_all(key, value);
    one_field_is_all("data"@, JsonView::Object(inner));
    documents_are_reported_by_their_words(JsonView::Object(fields), written, nested);
    documents_are_reported_by_their_words(JsonView::Object(inner), written, nested);
}

/// What a body says is what the document in it says, with the JSON texts of what
/// stands under `error`, and under `error` of `data`. A body that is no JSON document
/// says nothing.
pub proof fn bodies_say_what_their_documents_say(body: Seq<u8>)
    ensures
        match parsed_json(body) {
            None => body_message(body) is None,
            Some(json) => {
                let error = match json {
                    JsonView::Object(fields) => match lookup(fields, "error"@) {
                        Some(error) => json_text(error),
                        None => Seq::empty(),
                    },
                    _ => Seq::empty(),
                };
                let nested = match json {
                    JsonView::Object(fields) => match lookup(fields, "data"@) {
                        Some(JsonView::Object(data)) => match lookup(data, "error"@) {
                            Some(error) => json_text(error),
                            None => Seq::empty(),
                        },
                        _ => Seq::empty(),
                    },
                    _ => Seq::empty(),
                };
                body_message(body) == document_message(json, error, nested)
            },
        },
{
}

/// A message of at most 512 characters on one line is reported whole; of a longer one
/// the first 512 are, and three dots.
pub proof fn messages_are_cut_behind_512_characters(message: Seq<char>)
    ensures
        ({
            let line = joined(words_of(message), seq![' ']);
            &&& line.len() <= 512 ==> concise(message) == line
            &&& line.len() > 512 ==> concise(message) == line.take(512).push('.').push('.').push(
                '.',
            )
        }),
{
    reveal_strlit(" ");
    reveal_strlit("...");
    assert(" "@ =~= seq![' ']);
    let line = joined(words_of(message), seq![' ']);
    if line.len() > 512 {
        assert(concise(message) =~= line.take(512).push('.').push('.').push('.'));
    }
}

/// The text of a number is its digits, behind a minus sign where it is below zero;
/// any other number is given by its own text.
pub proof fn numbers_read_back(unsigned: u64, negative: i64, other: Seq<char>)
    ensures
        number_of(number_text(NumberView::Unsigned(unsigned)), 10) == unsigned,
        plain_decimal(number_text(NumberView::Unsigned(unsigned))),
        negative < 0 ==> plain_decimal(number_text(NumberView::Negative(negative)).skip(1)),
        negative < 0 ==> number_text(NumberView::Negative(negative))[0] == '-',
        negative < 0 ==> number_of(number_text(NumberView::Negative(negative)).skip(1), 10)
            == -negative,
        negative >= 0 ==> plain_decimal(number_text(NumberView::Negative(negative))),
        negative >= 0 ==> number_of(number_text(NumberView::Negative(negative)), 10) == negative,
        number_text(NumberView::Other(other)) == other,
{
    reveal_strlit("-");
    decimal_is_plain(unsigned as nat);
    let text = number_text(NumberView::Negative(negative));
    if negative < 0 {
        let n = (-negative) as nat;
        decimal_is_plain(n);
        assert(text.skip(1) =~= decimal(n));
    } else {
        decimal_is_plain(negative as nat);
    }
}

/// An event is an error by its name if and only if that is, with A to Z lowered,
/// `error`, `response.error` or `response.failed`.
pub proof fn error_events_by_name(name: Seq<char>, said: Option<Seq<char>>)
    ensures
        event_message(name, Seq::empty(), said) is Some <==> lowered(name) == "error"@ || lowered(
            name,
        ) == "response.error"@ || lowered(name) == "response.failed"@,
        error_event(name) <==> lowered(name) == "error"@ || lowered(name) == "response.error"@
            || lowered(name) == "response.failed"@,
{
}

/// An error event says what its data says where that is an error envelope; else the
/// data itself, trimmed and made concise; and where there is none, or only the end
/// marker, that there was an error event.
pub proof fn error_events_say(name: Seq<char>, data: Seq<Seq<char>>, said: Option<Seq<char>>)
    requires
        lowered(name) == "error"@ || lowered(name) == "response.error"@ || lowered(name)
            == "response.failed"@,
    ensures
        ({
            let text = trimmed(joined(data, seq!['\n']));
            event_message(name, data, said) == Some(
                if data.len() > 0 && said is Some {
                    said->0
                } else if data.len() > 0 && text.len() > 0 && text != "[DONE]"@ {
                    concise(text)
                } else {
                    "upstream emitted an error event"@
                },
            )
        }),
{
    reveal_strlit("\n");
    assert("\n"@ =~= seq!['\n']);
}

/// What a block says rests on the name and the data lines of its lines, each without
/// the carriage returns at its end, and on what its data says as a body.
pub proof fn blocks_say_what_their_lines_say(block: Seq<char>)
    ensures
        ({
            let lines = Seq::new(lines_of(block).len(), |i: int| without_crs(lines_of(block)[i]));
            let name = match event_name(lines) {
                Some(name) => name,
                None => Seq::empty(),
            };
            let data = data_lines(lines);
            block_message(block) == event_message(
                name,
                data,
                body_message(encode_utf8(joined(data, seq!['\n']))),
            )
        }),
{
    reveal_strlit("\n");
    assert("\n"@ =~= seq!['\n']);
    let lines = Seq::new(lines_of(block).len(), |i: int| without_crs(lines_of(block)[i]));
    assert(clean_lines(block) =~= lines);
}

} // verus!
