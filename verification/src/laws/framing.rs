//! What holds of lines, fields and blocks of an event stream, told in terms of how
//! their text is put together.

use vstd::prelude::*;
use vstd::utf8::encode_utf8;

use crate::json::parsed_json;
use crate::laws::identifying::names_come_before_types;
use crate::laws::wording::{lines_end_at_line_feeds, trimming_takes_white_space_off};
use crate::probe_stream::block_event;
use crate::semantic_detector::effective_event;
use crate::semantic_error::without_crs;
use crate::sse::{
    block_len, block_len_bounds, data_lines, data_text, delimiter_len, event_name, field_value,
    first_block,
};
use crate::text::{after_prefix, joined, lines_of, trimmed, white_space};

verus! {

/// A line sets a field if and only if it is the field's name, a colon and a value;
/// one space behind the colon is no part of the value.
pub proof fn fields_by_their_text(field: Seq<char>, value: Seq<char>, line: Seq<char>)
    ensures
        field_value(field.push(':').push(' ') + value, field) == Some(value),
        value.len() == 0 || value[0] != ' ' ==> field_value(field.push(':') + value, field)
            == Some(value),
        field_value(line, field) is None <==> !field.push(':').is_prefix_of(line),
{
    let n = field.len() as int;
    let spaced = field.push(':').push(' ') + value;
    assert(field =~= spaced.subrange(0, n));
    assert(spaced.skip(n)[0] == ':' && spaced.skip(n)[1] == ' ');
    assert(spaced.skip(n).skip(2) =~= value);
    let plain = field.push(':') + value;
    assert(field =~= plain.subrange(0, n));
    assert(plain.skip(n)[0] == ':');
    if value.len() > 0 {
        assert(plain.skip(n)[1] == value[0]);
    }
    assert(plain.skip(n).skip(1) =~= value);
    let named = field.push(':');
    if named.is_prefix_of(line) {
        assert(named =~= line.subrange(0, n + 1));
        assert(field =~= line.subrange(0, n)) by {
            assert forall|i: int| 0 <= i < n implies field[i] == line.subrange(0, n)[i] by {
                assert(named[i] == line.subrange(0, n + 1)[i]);
            }
        }
        assert(line.skip(n)[0] == named[n]);
    }
    if field_value(line, field) is Some {
        assert(line.skip(n)[0] == ':');
        assert(named =~= line.subrange(0, n + 1)) by {
            assert forall|i: int| 0 <= i < n implies named[i] == line.subrange(0, n + 1)[i] by {
                assert(field[i] == line.subrange(0, n)[i]);
            }
        }
    }
}

/// One line gives an event its name where it sets `event`, trimmed, and a data line
/// where it sets `data`. Any other line, a comment among them, gives neither.
pub proof fn one_line_sets_one_field(line: Seq<char>)
    ensures
        event_name(seq![line]) == (match field_value(line, "event"@) {
            Some(value) => Some(trimmed(value)),
            None => None,
        }),
        data_lines(seq![line]) == (match field_value(line, "data"@) {
            Some(value) => seq![value],
            None => Seq::<Seq<char>>::empty(),
        }),
        event_name(Seq::empty()) is None,
        data_lines(Seq::empty()).len() == 0,
{
    let lines = seq![line];
    assert(lines.drop_last() =~= Seq::empty());
    assert(lines.last() == line);
    assert(event_name(Seq::empty()) is None);
    assert(data_lines(Seq::empty()) =~= Seq::empty());
    assert(data_lines(lines) =~= (match field_value(line, "data"@) {
        Some(value) => seq![value],
        None => Seq::<Seq<char>>::empty(),
    }));
}

/// The data lines of lines in two parts are those of the first and then those of
/// the second; the name is that of the second part, or else that of the first.
pub proof fn lines_set_fields_in_order(first: Seq<Seq<char>>, second: Seq<Seq<char>>)
    ensures
        data_lines(first + second) == data_lines(first) + data_lines(second),
        event_name(first + second) == (if event_name(second) is Some {
            event_name(second)
        } else {
            event_name(first)
        }),
    decreases second.len(),
{
    let all = first + second;
    if second.len() == 0 {
        assert(all =~= first);
        assert(data_lines(second) =~= Seq::empty());
        assert(data_lines(all) =~= data_lines(first) + data_lines(second));
    } else {
        assert(all.drop_last() =~= first + second.drop_last());
        assert(all.last() == second.last());
        lines_set_fields_in_order(first, second.drop_last());
        assert(data_lines(all) =~= data_lines(first) + data_lines(second));
    }
}

/// A line loses all carriage returns at its end, and nothing else.
pub proof fn carriage_returns_come_off(line: Seq<char>, n: nat)
    requires
        line.len() == 0 || line[line.len() - 1] != '\r',
    ensures
        without_crs(line + Seq::new(n, |i: int| '\r')) == line,
    decreases n,
{
    let tail = Seq::new(n, |i: int| '\r');
    let all = line + tail;
    if n > 0 {
        assert(all.last() == '\r');
        assert(all.drop_last() =~= line + Seq::new((n - 1) as nat, |i: int| '\r'));
        carriage_returns_come_off(line, (n - 1) as nat);
    } else {
        assert(all =~= line);
    }
}

/// Whether an empty line stands at a place, written with line feeds alone or with a
/// carriage return before each.
pub open spec fn empty_line_at(s: Seq<char>, i: int) -> bool {
    ||| i + 1 < s.len() && s[i] == '\n' && s[i + 1] == '\n'
    ||| i + 3 < s.len() && s[i] == '\r' && s[i + 1] == '\n' && s[i + 2] == '\r' && s[i + 3] == '\n'
}

/// A text has a complete block if and only if it has an empty line. The block ends at
/// the first one, and what follows begins right behind it.
pub proof fn blocks_end_at_the_first_empty_line(s: Seq<char>)
    ensures
        first_block(s) is None <==> forall|i: int| 0 <= i < s.len() ==> !#[trigger] empty_line_at(
            s,
            i,
        ),
        first_block(s) matches Some((block, rest)) ==> {
            let n = block.len() as int;
            &&& empty_line_at(s, n)
            &&& forall|i: int| 0 <= i < n ==> !#[trigger] empty_line_at(s, i)
            &&& block == s.take(n)
            &&& rest == (if s[n] == '\n' {
                s.skip(n + 2)
            } else {
                s.skip(n + 4)
            })
        },
{
    first_empty_line(s);
    block_len_bounds(s);
    if let Some(n) = block_len(s) {
        let i = n as int;
        delimiters_are_empty_lines(s, i);
        assert(s.skip(i)[0] == s[i]);
    }
}

proof fn delimiters_are_empty_lines(s: Seq<char>, i: int)
    requires
        0 <= i < s.len(),
    ensures
        delimiter_len(s.skip(i)) > 0 <==> empty_line_at(s, i),
        delimiter_len(s.skip(i)) > 0 ==> delimiter_len(s.skip(i)) == (if s[i] == '\n' {
            2nat
        } else {
            4nat
        }),
{
    let t = s.skip(i);
    assert(t.len() == s.len() - i);
    assert(t[0] == s[i]);
    if t.len() >= 2 {
        assert(t[1] == s[i + 1]);
    }
    if t.len() >= 4 {
        assert(t[2] == s[i + 2]);
        assert(t[3] == s[i + 3]);
    }
}

proof fn first_empty_line(s: Seq<char>)
    ensures
        match block_len(s) {
            Some(n) => n < s.len() && empty_line_at(s, n as int) && forall|i: int|
                0 <= i < n ==> !#[trigger] empty_line_at(s, i),
            None => forall|i: int| 0 <= i < s.len() ==> !#[trigger] empty_line_at(s, i),
        },
    decreases s.len(),
{
    if s.len() > 0 {
        delimiters_are_empty_lines(s, 0);
        assert(s.skip(0) =~= s);
        if delimiter_len(s) == 0 {
            let t = s.drop_first();
            first_empty_line(t);
            assert forall|i: int| 0 <= i < t.len() implies #[trigger] empty_line_at(t, i)
                == empty_line_at(s, i + 1) by {}
            match block_len(t) {
                Some(n) => {
                    assert(empty_line_at(t, n as int) == empty_line_at(s, n as int + 1));
                    assert forall|i: int| 0 <= i < n + 1 implies !#[trigger] empty_line_at(
                        s,
                        i,
                    ) by {
                        if i > 0 {
                            assert(empty_line_at(t, i - 1) == empty_line_at(s, i));
                        }
                    }
                },
                None => {
                    assert forall|i: int| 0 <= i < s.len() implies !#[trigger] empty_line_at(
                        s,
                        i,
                    ) by {
                        if i > 0 {
                            assert(empty_line_at(t, i - 1) == empty_line_at(s, i));
                        }
                    }
                },
            }
        }
    }
}

/// A block holds an event if and only if it has data, the data is not the end marker,
/// and it is a JSON document. The payload is that document, read from the data lines
/// with a line feed between each two, and the type is the name of the event or else
/// the one that the payload gives.
pub proof fn blocks_hold_events_by_their_data(block: Seq<char>)
    ensures
        ({
            let data = data_lines(lines_of(block));
            let text = joined(data, seq!['\n']);
            let document = parsed_json(encode_utf8(text));
            &&& block_event(block) is Some <==> data.len() > 0 && trimmed(text) != "[DONE]"@
                && document is Some
            &&& block_event(block) matches Some((kind, payload)) ==> {
                &&& document == Some(payload)
                &&& kind == (match event_name(lines_of(block)) {
                    Some(name) => if name.len() > 0 {
                        name
                    } else {
                        effective_event(Seq::empty(), payload)
                    },
                    None => effective_event(Seq::empty(), payload),
                })
            }
        }),
{
    reveal_strlit("\n");
    assert("\n"@ =~= seq!['\n']);
    if let Some((kind, payload)) = block_event(block) {
        if let Some(name) = event_name(lines_of(block)) {
            names_come_before_types(name, payload);
            if name.len() == 0 {
                assert(name =~= Seq::empty());
            }
        }
    }
}

/// An event as it is written: its name and its data, each on a line of its own.
pub open spec fn written_event(name: Seq<char>, data: Seq<char>) -> Seq<char> {
    ("event: "@ + name).push('\n') + ("data: "@ + data)
}

/// What is written as an event is read as this event: its name comes back, and its
/// data is the payload where it is a JSON document.
pub proof fn written_events_are_read_back(name: Seq<char>, data: Seq<char>)
    requires
        name.len() > 0,
        !white_space(name[0]) && !white_space(name[name.len() - 1]),
        !name.contains('\n'),
        !data.contains('\n'),
        trimmed(data) != "[DONE]"@,
    ensures
        block_event(written_event(name, data)) == (match parsed_json(encode_utf8(data)) {
            Some(payload) => Some((name, payload)),
            None => None,
        }),
        event_name(lines_of(written_event(name, data))) == Some(name),
        data_lines(lines_of(written_event(name, data))) == seq![data],
{
    reveal_strlit("event: ");
    reveal_strlit("data: ");
    reveal_strlit("event");
    reveal_strlit("data");
    let first = "event: "@ + name;
    let second = "data: "@ + data;
    assert(!first.contains('\n')) by {
        assert forall|i: int| 0 <= i < first.len() implies #[trigger] first[i] != '\n' by {
            if i >= 7 {
                assert(first[i] == name[i - 7]);
                assert(name.contains(name[i - 7]));
            }
        }
    }
    assert(!second.contains('\n')) by {
        assert forall|i: int| 0 <= i < second.len() implies #[trigger] second[i] != '\n' by {
            if i >= 6 {
                assert(second[i] == data[i - 6]);
                assert(data.contains(data[i - 6]));
            }
        }
    }
    let last = first[first.len() - 1];
    assert(last == name[name.len() - 1]);
    assert(last != '\r');
    lines_end_at_line_feeds(first, second);
    lines_end_at_line_feeds(second, Seq::empty());
    let lines = lines_of(written_event(name, data));
    assert(lines =~= seq![first] + seq![second]);
    assert("event: "@ =~= "event"@.push(':').push(' '));
    assert("data: "@ =~= "data"@.push(':').push(' '));
    fields_by_their_text("event"@, name, second);
    fields_by_their_text("data"@, data, first);
    assert(!"event"@.push(':').is_prefix_of(second)) by {
        assert("event"@.push(':')[0] == 'e' && second[0] == 'd');
    }
    assert(!"data"@.push(':').is_prefix_of(first)) by {
        assert("data"@.push(':')[0] == 'd' && first[0] == 'e');
    }
    trimming_takes_white_space_off(Seq::empty(), name, Seq::empty());
    assert(Seq::<char>::empty() + name + Seq::<char>::empty() =~= name);
    one_line_sets_one_field(first);
    one_line_sets_one_field(second);
    lines_set_fields_in_order(seq![first], seq![second]);
    assert(data_lines(lines) =~= seq![data]);
    blocks_hold_events_by_their_data(written_event(name, data));
    assert(joined(data_lines(lines), seq!['\n']) == data);
}

/// The data of a block is its data lines with a line feed between each two.
pub proof fn data_lines_are_joined_by_line_feeds(lines: Seq<Seq<char>>)
    ensures
        data_text(lines) == joined(data_lines(lines), seq!['\n']),
{
    reveal_strlit("\n");
    assert("\n"@ =~= seq!['\n']);
}

} // verus!
