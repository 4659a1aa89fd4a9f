//! What holds of the ids that events carry, told in terms of their characters and
//! of where they stand.

use vstd::prelude::*;

use crate::json::{lookup, JsonView};
use crate::semantic_detector::{
    effective_event, item_id, item_observation, lowercase_hex, observation, response_id,
    response_observation, IdVerdict, SemanticEvidence, SemanticTier,
};
use crate::text::after_prefix;

verus! {

/// Whether a character is one of 0 to 9 and a to f.
pub open spec fn hex_char(c: char) -> bool {
    48 <= c as int <= 57 || 97 <= c as int <= 102
}

/// Whether every character from a place on is one of 0 to 9 and a to f.
pub open spec fn hex_from(s: Seq<char>, from: int) -> bool {
    forall|i: int| from <= i < s.len() ==> hex_char(#[trigger] s[i])
}

/// Whether the first characters of an id are `resp_`.
pub open spec fn response_like(id: Seq<char>) -> bool {
    id.len() >= 5 && id[0] == 'r' && id[1] == 'e' && id[2] == 's' && id[3] == 'p' && id[4] == '_'
}

/// Text is lowercase hexadecimal if and only if it is not empty and every character
/// is one of 0 to 9 and a to f.
pub proof fn hex_by_characters(s: Seq<char>)
    ensures
        lowercase_hex(s) <==> s.len() > 0 && hex_from(s, 0),
{
    if lowercase_hex(s) {
        assert forall|i: int| 0 <= i < s.len() implies hex_char(#[trigger] s[i]) by {}
    }
    if s.len() > 0 && hex_from(s, 0) {
        assert forall|i: int| 0 <= i < s.len() implies '0' <= #[trigger] s[i] <= '9' || 'a' <= s[i]
            <= 'f' by {
            assert(hex_char(s[i]));
        }
    }
}

proof fn hex_behind_a_prefix(s: Seq<char>, prefix: Seq<char>)
    requires
        prefix.is_prefix_of(s),
        s.len() > prefix.len(),
    ensures
        lowercase_hex(s.skip(prefix.len() as int)) <==> hex_from(s, prefix.len() as int),
{
    let n = prefix.len() as int;
    let rest = s.skip(n);
    hex_by_characters(rest);
    if hex_from(rest, 0) {
        assert forall|i: int| n <= i < s.len() implies hex_char(#[trigger] s[i]) by {
            assert(rest[i - n] == s[i]);
        }
    }
    if hex_from(s, n) {
        assert forall|i: int| 0 <= i < rest.len() implies hex_char(#[trigger] rest[i]) by {
            assert(rest[i] == s[i + n]);
        }
    }
}

/// An id of a response is suspect if and only if it is 37 characters long, `resp_`
/// and then 0 to 9 and a to f throughout; it is known to be good if and only if the
/// same holds with 55 characters. Any other id, and a missing one, is unknown.
pub proof fn response_ids_by_characters(id: Seq<char>)
    ensures
        response_observation(Some(id)).verdict == IdVerdict::Suspect <==> id.len() == 37
            && response_like(id) && hex_from(id, 5),
        response_observation(Some(id)).verdict == IdVerdict::KnownGood <==> id.len() == 55
            && response_like(id) && hex_from(id, 5),
        response_observation(None).verdict == IdVerdict::Unknown,
        response_observation(Some(id)).tier == SemanticTier::A,
        response_observation(None).tier == SemanticTier::A,
        response_observation(None).evidence == SemanticEvidence::UnknownResponseId,
        response_observation(Some(id)).evidence == (match response_observation(Some(id)).verdict {
            IdVerdict::Suspect => SemanticEvidence::ResponseId32Hex,
            IdVerdict::KnownGood => SemanticEvidence::ResponseIdKnownGood,
            IdVerdict::Unknown => SemanticEvidence::UnknownResponseId,
        }),
{
    reveal_strlit("resp_");
    let prefix = "resp_"@;
    assert(prefix.is_prefix_of(id) <==> response_like(id)) by {
        if prefix.is_prefix_of(id) {
            assert(prefix[0] == id[0] && prefix[1] == id[1] && prefix[2] == id[2] && prefix[3]
                == id[3] && prefix[4] == id[4]);
        }
        if response_like(id) {
            assert(prefix =~= id.subrange(0, 5));
        }
    }
    if prefix.is_prefix_of(id) && id.len() > 5 {
        hex_behind_a_prefix(id, prefix);
        assert(after_prefix(id, prefix) == Some(id.skip(5)));
    }
}

/// Where the part of an id behind the prefix of an output item starts, or 0 where it
/// has no such prefix.
pub open spec fn item_like(id: Seq<char>) -> int {
    if id.len() >= 3 && id[0] == 'r' && id[1] == 's' && id[2] == '_' {
        3
    } else if id.len() >= 4 && id[0] == 'm' && id[1] == 's' && id[2] == 'g' && id[3] == '_' {
        4
    } else if id.len() >= 3 && id[0] == 'f' && id[1] == 'c' && id[2] == '_' {
        3
    } else if id.len() >= 4 && id[0] == 'c' && id[1] == 't' && id[2] == 'c' && id[3] == '_' {
        4
    } else {
        0
    }
}

proof fn item_prefixes(id: Seq<char>)
    ensures
        "rs_"@.len() == 3,
        "msg_"@.len() == 4,
        "fc_"@.len() == 3,
        "ctc_"@.len() == 4,
        "rs_"@.is_prefix_of(id) <==> item_like(id) == 3 && id[0] == 'r',
        "msg_"@.is_prefix_of(id) <==> item_like(id) == 4 && id[0] == 'm',
        "fc_"@.is_prefix_of(id) <==> item_like(id) == 3 && id[0] == 'f',
        "ctc_"@.is_prefix_of(id) <==> item_like(id) == 4 && id[0] == 'c',
{
    reveal_strlit("rs_");
    reveal_strlit("msg_");
    reveal_strlit("fc_");
    reveal_strlit("ctc_");
    if "rs_"@.is_prefix_of(id) {
        assert("rs_"@[0] == id[0] && "rs_"@[1] == id[1] && "rs_"@[2] == id[2]);
    } else if item_like(id) == 3 && id[0] == 'r' {
        assert("rs_"@ =~= id.subrange(0, 3));
    }
    if "msg_"@.is_prefix_of(id) {
        assert("msg_"@[0] == id[0] && "msg_"@[1] == id[1] && "msg_"@[2] == id[2] && "msg_"@[3]
            == id[3]);
    } else if item_like(id) == 4 && id[0] == 'm' {
        assert("msg_"@ =~= id.subrange(0, 4));
    }
    if "fc_"@.is_prefix_of(id) {
        assert("fc_"@[0] == id[0] && "fc_"@[1] == id[1] && "fc_"@[2] == id[2]);
    } else if item_like(id) == 3 && id[0] == 'f' {
        assert("fc_"@ =~= id.subrange(0, 3));
    }
    if "ctc_"@.is_prefix_of(id) {
        assert("ctc_"@[0] == id[0] && "ctc_"@[1] == id[1] && "ctc_"@[2] == id[2] && "ctc_"@[3]
            == id[3]);
    } else if item_like(id) == 4 && id[0] == 'c' {
        assert("ctc_"@ =~= id.subrange(0, 4));
    }
}

/// An id of an output item is suspect if and only if it is `rs_`, `msg_`, `fc_` or
/// `ctc_` and exactly 32 more characters, each one of 0 to 9 and a to f. With the
/// prefix and anything else behind it, it is session scoped; without one, and where
/// it is missing, it is unknown. No item id is known to be good.
pub proof fn item_ids_by_characters(id: Seq<char>)
    ensures
        item_observation(Some(id)).verdict == IdVerdict::Suspect <==> item_like(id) > 0 && id.len()
            == item_like(id) + 32 && hex_from(id, item_like(id)),
        item_observation(Some(id)).verdict != IdVerdict::KnownGood,
        item_observation(Some(id)).evidence == SemanticEvidence::ItemId32Hex <==> item_observation(
            Some(id),
        ).verdict == IdVerdict::Suspect,
        item_observation(Some(id)).evidence == SemanticEvidence::SessionScopedItemId
            <==> item_like(id) > 0 && item_observation(Some(id)).verdict != IdVerdict::Suspect,
        item_observation(Some(id)).evidence == SemanticEvidence::UnknownItemId <==> item_like(id)
            == 0,
        item_observation(Some(id)).tier == SemanticTier::A,
        item_observation(None).verdict == IdVerdict::Unknown,
        item_observation(None).evidence == SemanticEvidence::UnknownItemId,
        item_observation(None).tier == SemanticTier::A,
{
    item_prefixes(id);
    if "rs_"@.is_prefix_of(id) && id.len() > 3 {
        hex_behind_a_prefix(id, "rs_"@);
    }
    if "msg_"@.is_prefix_of(id) && id.len() > 4 {
        hex_behind_a_prefix(id, "msg_"@);
    }
    if "fc_"@.is_prefix_of(id) && id.len() > 3 {
        hex_behind_a_prefix(id, "fc_"@);
    }
    if "ctc_"@.is_prefix_of(id) && id.len() > 4 {
        hex_behind_a_prefix(id, "ctc_"@);
    }
}

/// The string that stands under a key, and below it under another one.
pub open spec fn string_below(
    fields: Seq<(Seq<char>, JsonView)>,
    outer: Seq<char>,
    inner: Seq<char>,
) -> Option<Seq<char>> {
    if lookup(fields, outer) matches Some(JsonView::Object(below)) && lookup(below, inner) matches
        Some(JsonView::String(_)) {
        Some(lookup(lookup(fields, outer)->0->Object_0, inner)->0->String_0)
    } else {
        None
    }
}

/// The string that stands under a key.
pub open spec fn string_at(fields: Seq<(Seq<char>, JsonView)>, key: Seq<char>) -> Option<
    Seq<char>,
> {
    if lookup(fields, key) matches Some(JsonView::String(_)) {
        Some(lookup(fields, key)->0->String_0)
    } else {
        None
    }
}

/// What stands under a key of a document is what stands under it among the fields of
/// an object; nothing else has keys. Its text is there where it is a string.
pub proof fn only_objects_have_keys(json: JsonView, key: Seq<char>)
    ensures
        match json {
            JsonView::Object(fields) => json.field(key) == lookup(fields, key) && json.text_field(
                key,
            ) == string_at(fields, key),
            _ => json.field(key) is None && json.text_field(key) is None,
        },
        match json {
            JsonView::String(s) => json.text() == Some(s),
            _ => json.text() is None,
        },
{
}

/// The id of a response is the string under `id` of `response`, or else the one
/// under `id`; the id of an item is the string under `id` of `item`, or else the one
/// under `item_id`. A payload that is no object carries none.
pub proof fn ids_stand_where_they_should(payload: JsonView)
    ensures
        match payload {
            JsonView::Object(fields) => {
                &&& response_id(payload) == (match string_below(fields, "response"@, "id"@) {
                    Some(id) => Some(id),
                    None => string_at(fields, "id"@),
                })
                &&& item_id(payload) == (match string_below(fields, "item"@, "id"@) {
                    Some(id) => Some(id),
                    None => string_at(fields, "item_id"@),
                })
            },
            _ => response_id(payload) is None && item_id(payload) is None,
        },
{
}

/// Only two kinds of event are looked at: `response.created` for the id of the
/// response, and `response.output_item.added` for the id of the item. Whatever else
/// an event is, it tells nothing.
pub proof fn two_kinds_of_events_are_looked_at(event: Seq<char>, payload: JsonView)
    ensures
        observation("response.created"@, payload) == response_observation(response_id(payload)),
        observation("response.output_item.added"@, payload) == item_observation(item_id(payload)),
        event != "response.created"@ && event != "response.output_item.added"@ ==> {
            &&& observation(event, payload).verdict == IdVerdict::Unknown
            &&& observation(event, payload).evidence == SemanticEvidence::UnknownItemId
            &&& observation(event, payload).tier == SemanticTier::A
        },
{
    reveal_strlit("response.created");
    reveal_strlit("response.output_item.added");
    assert("response.created"@.len() != "response.output_item.added"@.len());
}

/// The type of an event is its name; where that is empty, the string under `type` of
/// its payload; and where there is none either, it is empty.
pub proof fn names_come_before_types(name: Seq<char>, payload: JsonView)
    ensures
        name.len() > 0 ==> effective_event(name, payload) == name,
        effective_event(Seq::empty(), payload) == (match payload {
            JsonView::Object(fields) => match string_at(fields, "type"@) {
                Some(kind) => kind,
                None => Seq::empty(),
            },
            _ => Seq::empty(),
        }),
{
}

/// Evidence is suspect if and only if its name says that an id has 32 digits.
pub proof fn suspect_evidence_by_name(evidence: SemanticEvidence)
    ensures
        evidence.suspect() <==> evidence.name() == "response_id_32hex"@ || evidence.name()
            == "item_id_32hex"@,
        SemanticEvidence::ResponseId32Hex.name() == "response_id_32hex"@,
        SemanticEvidence::ItemId32Hex.name() == "item_id_32hex"@,
{
    reveal_strlit("response_id_known_good");
    reveal_strlit("response_id_32hex");
    reveal_strlit("item_id_32hex");
    reveal_strlit("item_id_session_scoped");
    reveal_strlit("response_id_unknown");
    reveal_strlit("item_id_unknown");
    assert(evidence.name().len() == 17 ==> evidence == SemanticEvidence::ResponseId32Hex);
    assert(evidence.name().len() == 13 ==> evidence == SemanticEvidence::ItemId32Hex);
}

/// What stands under a key is what the first field with that key holds.
pub proof fn the_first_field_with_a_key_counts(
    before: Seq<(Seq<char>, JsonView)>,
    key: Seq<char>,
    value: JsonView,
    behind: Seq<(Seq<char>, JsonView)>,
)
    requires
        forall|i: int| 0 <= i < before.len() ==> (#[trigger] before[i]).0 != key,
    ensures
        lookup(before.push((key, value)) + behind, key) == Some(value),
        lookup(before, key) is None,
    decreases before.len(),
{
    let all = before.push((key, value)) + behind;
    if before.len() > 0 {
        let rest = before.drop_first();
        assert(before[0].0 != key);
        assert(all[0] == before[0]);
        assert(all.drop_first() =~= rest.push((key, value)) + behind);
        assert forall|i: int| 0 <= i < rest.len() implies (#[trigger] rest[i]).0 != key by {
            assert(rest[i] == before[i + 1]);
        }
        the_first_field_with_a_key_counts(rest, key, value, behind);
    } else {
        assert(all[0] == (key, value));
    }
}

} // verus!
