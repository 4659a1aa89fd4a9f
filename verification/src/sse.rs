//! Server-sent events, as they come out of a byte stream.
//!
//! Bytes become text, text becomes blocks between empty lines, and a block
//! becomes an event with a name and data. Each step keeps what is not complete
//! yet for the bytes that follow.

use vstd::prelude::*;
use vstd::slice::slice_subrange;

use crate::text::{
    after_prefix, append, join, joined, strip_prefix, texts, trim, trimmed,
};

verus! {

/// `char::from_u32` returns the character of every Unicode scalar value, and
/// `None` for every other number.
pub assume_specification[ char::from_u32 ](i: u32) -> (r: Option<char>)
    ensures
        r == (if i < 0xD800 || 0xDFFF < i && i <= 0x10FFFF {
            Some(i as char)
        } else {
            None
        }),
;

/// What the first bytes of a UTF-8 text are.
pub enum Head {
    /// A character and the number of bytes that it takes.
    Whole(char, nat),
    /// Bytes that no text can start with, and their number.
    Broken(nat),
    /// The start of a character whose other bytes have not come yet, or nothing.
    Partial,
}

/// How many bytes the character takes that starts with this byte, or zero where
/// no character does.
pub open spec fn width(lead: u8) -> nat {
    if lead <= 0x7F {
        1
    } else if 0xC2 <= lead <= 0xDF {
        2
    } else if 0xE0 <= lead <= 0xEF {
        3
    } else if 0xF0 <= lead <= 0xF4 {
        4
    } else {
        0
    }
}

/// Whether a byte may follow the first one of a character of several bytes. The
/// narrower ranges leave out overlong forms, surrogates and what lies beyond the
/// last code point.
pub open spec fn second_byte(lead: u8, byte: u8) -> bool {
    &&& (if lead == 0xE0 {
        0xA0u8
    } else if lead == 0xF0 {
        0x90u8
    } else {
        0x80u8
    }) <= byte
    &&& byte <= (if lead == 0xED {
        0x9Fu8
    } else if lead == 0xF4 {
        0x8Fu8
    } else {
        0xBFu8
    })
}

/// Whether a byte may be the third or fourth one of a character.
pub open spec fn later_byte(byte: u8) -> bool {
    0x80 <= byte <= 0xBF
}

/// The code point that the bytes of one character stand for.
pub open spec fn code_point(bytes: Seq<u8>) -> int {
    let w = width(bytes[0]);
    if w == 1 {
        bytes[0] as int
    } else if w == 2 {
        (bytes[0] - 0xC0) * 0x40 + (bytes[1] - 0x80)
    } else if w == 3 {
        (bytes[0] - 0xE0) * 0x1000 + (bytes[1] - 0x80) * 0x40 + (bytes[2] - 0x80)
    } else {
        (bytes[0] - 0xF0) * 0x40000 + (bytes[1] - 0x80) * 0x1000 + (bytes[2] - 0x80) * 0x40 + (
        bytes[3] - 0x80)
    }
}

/// What a text starts with.
pub open spec fn head(bytes: Seq<u8>) -> Head {
    let w = width(bytes[0]);
    if bytes.len() == 0 {
        Head::Partial
    } else if w == 0 {
        Head::Broken(1)
    } else if w == 1 {
        Head::Whole(code_point(bytes) as char, 1)
    } else if bytes.len() == 1 {
        Head::Partial
    } else if !second_byte(bytes[0], bytes[1]) {
        Head::Broken(1)
    } else if w == 2 {
        Head::Whole(code_point(bytes) as char, 2)
    } else if bytes.len() == 2 {
        Head::Partial
    } else if !later_byte(bytes[2]) {
        Head::Broken(2)
    } else if w == 3 {
        Head::Whole(code_point(bytes) as char, 3)
    } else if bytes.len() == 3 {
        Head::Partial
    } else if !later_byte(bytes[3]) {
        Head::Broken(3)
    } else {
        Head::Whole(code_point(bytes) as char, 4)
    }
}

/// The characters of a byte sequence, with U+FFFD for each run of bytes that no
/// text can hold.
pub open spec fn decoded(bytes: Seq<u8>) -> Seq<char>
    decreases bytes.len(),
{
    match head(bytes) {
        Head::Whole(c, n) => seq![c] + decoded(bytes.skip(n as int)),
        Head::Broken(n) => seq!['\u{FFFD}'] + decoded(bytes.skip(n as int)),
        Head::Partial => seq![],
    }
}

/// The bytes at the end of a byte sequence that start a character and do not
/// complete it.
pub open spec fn undecoded(bytes: Seq<u8>) -> Seq<u8>
    decreases bytes.len(),
{
    match head(bytes) {
        Head::Whole(c, n) => undecoded(bytes.skip(n as int)),
        Head::Broken(n) => undecoded(bytes.skip(n as int)),
        Head::Partial => bytes,
    }
}

/// The character that bytes start with, and where the next one starts.
enum Next {
    Char(char, usize),
    Wait,
}

fn next_char(bytes: &Vec<u8>, pos: usize) -> (r: Next)
    requires
        pos <= bytes@.len(),
    ensures
        match r {
            Next::Char(c, end) => pos < end <= bytes@.len() && match head(
                bytes@.skip(pos as int),
            ) {
                Head::Whole(d, n) => c == d && end == pos + n,
                Head::Broken(n) => c == '\u{FFFD}' && end == pos + n,
                Head::Partial => false,
            },
            Next::Wait => head(bytes@.skip(pos as int)) is Partial,
        },
{
    let ghost rest = bytes@.skip(pos as int);
    let left: usize = bytes.len() - pos;
    if left == 0 {
        return Next::Wait;
    }
    let b0: u8 = bytes[pos];
    assert(b0 == rest[0]);
    if b0 <= 0x7F {
        return Next::Char(b0 as char, pos + 1);
    }
    if b0 < 0xC2 || b0 > 0xF4 {
        return Next::Char('\u{FFFD}', pos + 1);
    }
    if left == 1 {
        return Next::Wait;
    }
    let b1: u8 = bytes[pos + 1];
    assert(b1 == rest[1]);
    let low: u8 = if b0 == 0xE0 {
        0xA0
    } else if b0 == 0xF0 {
        0x90
    } else {
        0x80
    };
    let high: u8 = if b0 == 0xED {
        0x9F
    } else if b0 == 0xF4 {
        0x8F
    } else {
        0xBF
    };
    if b1 < low || high < b1 {
        return Next::Char('\u{FFFD}', pos + 1);
    }
    let first: u32 = (b1 - 0x80) as u32;
    if b0 <= 0xDF {
        let code: u32 = ((b0 - 0xC0) as u32) * 0x40 + first;
        return match char::from_u32(code) {
            Some(c) => Next::Char(c, pos + 2),
            None => Next::Wait,
        };
    }
    if left == 2 {
        return Next::Wait;
    }
    let b2: u8 = bytes[pos + 2];
    assert(b2 == rest[2]);
    if b2 < 0x80 || 0xBF < b2 {
        return Next::Char('\u{FFFD}', pos + 2);
    }
    let second: u32 = (b2 - 0x80) as u32;
    if b0 <= 0xEF {
        let code: u32 = ((b0 - 0xE0) as u32) * 0x1000 + first * 0x40 + second;
        return match char::from_u32(code) {
            Some(c) => Next::Char(c, pos + 3),
            None => Next::Wait,
        };
    }
    if left == 3 {
        return Next::Wait;
    }
    let b3: u8 = bytes[pos + 3];
    assert(b3 == rest[3]);
    if b3 < 0x80 || 0xBF < b3 {
        return Next::Char('\u{FFFD}', pos + 3);
    }
    let third: u32 = (b3 - 0x80) as u32;
    let code: u32 = ((b0 - 0xF0) as u32) * 0x40000 + first * 0x1000 + second * 0x40 + third;
    match char::from_u32(code) {
        Some(c) => Next::Char(c, pos + 4),
        None => Next::Wait,
    }
}

/// Decodes bytes that follow those of `remainder`. The characters go to the end
/// of `buffer`; the start of a character that is not complete yet stays in
/// `remainder`.
pub fn append_utf8_safe(buffer: &mut Vec<char>, remainder: &mut Vec<u8>, new_bytes: &[u8])
    ensures
        final(buffer)@ == old(buffer)@ + decoded(old(remainder)@ + new_bytes@),
        final(remainder)@ == undecoded(old(remainder)@ + new_bytes@),
{
    remainder.extend_from_slice(new_bytes);
    let ghost input = remainder@;
    assert(input == old(remainder)@ + new_bytes@);
    let mut pos: usize = 0;
    assert(input.skip(0) == input);
    assert(old(buffer)@ + decoded(input) == buffer@ + decoded(input.skip(0)));
    loop
        invariant
            remainder@ == input,
            pos <= input.len(),
            old(buffer)@ + decoded(input) == buffer@ + decoded(input.skip(pos as int)),
            undecoded(input) == undecoded(input.skip(pos as int)),
        ensures
            pos <= input.len(),
            head(input.skip(pos as int)) is Partial,
            remainder@ == input,
            old(buffer)@ + decoded(input) == buffer@,
            undecoded(input) == input.skip(pos as int),
        decreases input.len() - pos,
    {
        match next_char(remainder, pos) {
            Next::Char(c, end) => {
                let ghost rest = input.skip(pos as int);
                assert(rest.skip(end - pos) == input.skip(end as int));
                assert(buffer@ + (seq![c] + decoded(input.skip(end as int))) == buffer@.push(c)
                    + decoded(input.skip(end as int)));
                buffer.push(c);
                pos = end;
            },
            Next::Wait => {
                assert(buffer@ + decoded(input.skip(pos as int)) == buffer@);
                break;
            },
        }
    }
    let mut kept: Vec<u8> = Vec::new();
    let n: usize = remainder.len();
    for i in pos..n
        invariant
            pos <= n,
            remainder@ == input,
            n == input.len(),
            kept@ == input.subrange(pos as int, i as int),
    {
        kept.push(remainder[i]);
    }
    assert(kept@ == input.skip(pos as int));
    *remainder = kept;
}

/// The length of the delimiter that a text starts with, or zero: an empty line
/// ends a block, written with line feeds or with carriage returns before them.
pub open spec fn delimiter_len(s: Seq<char>) -> nat {
    if s.len() >= 4 && s[0] == '\r' && s[1] == '\n' && s[2] == '\r' && s[3] == '\n' {
        4
    } else if s.len() >= 2 && s[0] == '\n' && s[1] == '\n' {
        2
    } else {
        0
    }
}

/// How many characters stand before the first delimiter, or `None` where the
/// text has none.
pub open spec fn block_len(s: Seq<char>) -> Option<nat>
    decreases s.len(),
{
    if s.len() == 0 {
        None
    } else if delimiter_len(s) > 0 {
        Some(0)
    } else {
        match block_len(s.drop_first()) {
            Some(n) => Some(n + 1),
            None => None,
        }
    }
}

/// The first block of a text and what follows its delimiter, or `None` where no
/// block is complete.
pub open spec fn first_block(s: Seq<char>) -> Option<(Seq<char>, Seq<char>)> {
    match block_len(s) {
        Some(n) => Some((s.take(n as int), s.skip((n + delimiter_len(s.skip(n as int))) as int))),
        None => None,
    }
}

/// A block ends within the text, before its first delimiter.
pub proof fn block_len_bounds(s: Seq<char>)
    ensures
        block_len(s) matches Some(n) ==> n < s.len() && delimiter_len(s.skip(n as int)) > 0 && n
            + delimiter_len(s.skip(n as int)) <= s.len(),
    decreases s.len(),
{
    if s.len() > 0 && delimiter_len(s) == 0 {
        block_len_bounds(s.drop_first());
        if let Some(n) = block_len(s.drop_first()) {
            assert(s.drop_first().skip(n as int) == s.skip(n as int + 1));
        }
    } else if s.len() > 0 {
        assert(s.skip(0) == s);
    }
}

fn delimiter_at(s: &Vec<char>, i: usize) -> (r: usize)
    requires
        i <= s@.len(),
    ensures
        r == delimiter_len(s@.skip(i as int)),
{
    let left: usize = s.len() - i;
    if left >= 4 && s[i] == '\r' && s[i + 1] == '\n' && s[i + 2] == '\r' && s[i + 3] == '\n' {
        4
    } else if left >= 2 && s[i] == '\n' && s[i + 1] == '\n' {
        2
    } else {
        0
    }
}

/// Takes the first complete block out of `buffer`, with its delimiter.
pub fn take_sse_block(buffer: &mut Vec<char>) -> (r: Option<Vec<char>>)
    ensures
        match r {
            Some(block) => first_block(old(buffer)@) == Some((block@, final(buffer)@)),
            None => first_block(old(buffer)@) is None && final(buffer)@ == old(buffer)@,
        },
{
    let ghost all = buffer@;
    let mut i: usize = 0;
    assert(all.skip(0) == all);
    while i < buffer.len()
        invariant
            buffer@ == all,
            all == old(buffer)@,
            i <= all.len(),
            block_len(all) == (match block_len(all.skip(i as int)) {
                Some(n) => Some((n + i) as nat),
                None => None,
            }),
        decreases all.len() - i,
    {
        let d: usize = delimiter_at(buffer, i);
        if d > 0 {
            assert(block_len(all) == Some(i as nat));
            proof {
                block_len_bounds(all);
            }
            let mut block: Vec<char> = Vec::new();
            append(&mut block, slice_subrange(buffer.as_slice(), 0, i));
            let mut rest: Vec<char> = Vec::new();
            append(&mut rest, slice_subrange(buffer.as_slice(), i + d, buffer.len()));
            assert(block@ == all.take(i as int));
            assert(rest@ == all.skip(i + d));
            *buffer = rest;
            return Some(block);
        }
        assert(all.skip(i as int).drop_first() == all.skip(i + 1));
        i = i + 1;
    }
    None
}

/// The value of a line that sets a field: what follows the colon behind the
/// field's name, without one space.
pub open spec fn field_value(line: Seq<char>, field: Seq<char>) -> Option<Seq<char>> {
    match after_prefix(line, field) {
        Some(rest) => if rest.len() > 0 && rest[0] == ':' {
            if rest.len() > 1 && rest[1] == ' ' {
                Some(rest.skip(2))
            } else {
                Some(rest.skip(1))
            }
        } else {
            None
        },
        None => None,
    }
}

/// The value of a line that sets `field`.
pub fn strip_sse_field<'a>(line: &'a [char], field: &str) -> (r: Option<&'a [char]>)
    ensures
        match r {
            Some(value) => field_value(line@, field@) == Some(value@),
            None => field_value(line@, field@) is None,
        },
{
    match strip_prefix(line, field) {
        Some(rest) => {
            if rest.len() == 0 || rest[0] != ':' {
                return None;
            }
            if rest.len() > 1 && rest[1] == ' ' {
                let value: &'a [char] = slice_subrange(rest, 2, rest.len());
                assert(value@ == rest@.skip(2));
                Some(value)
            } else {
                let value: &'a [char] = slice_subrange(rest, 1, rest.len());
                assert(value@ == rest@.skip(1));
                Some(value)
            }
        },
        None => None,
    }
}

/// The name that the lines of a block give their event: the last one, trimmed.
pub open spec fn event_name(lines: Seq<Seq<char>>) -> Option<Seq<char>>
    decreases lines.len(),
{
    if lines.len() == 0 {
        None
    } else {
        match field_value(lines.last(), "event"@) {
            Some(name) => Some(trimmed(name)),
            None => event_name(lines.drop_last()),
        }
    }
}

/// The data lines of a block.
pub open spec fn data_lines(lines: Seq<Seq<char>>) -> Seq<Seq<char>>
    decreases lines.len(),
{
    if lines.len() == 0 {
        seq![]
    } else {
        match field_value(lines.last(), "data"@) {
            Some(data) => data_lines(lines.drop_last()).push(data),
            None => data_lines(lines.drop_last()),
        }
    }
}

/// The data of a block: its data lines with a line feed between each two.
pub open spec fn data_text(lines: Seq<Seq<char>>) -> Seq<char> {
    joined(data_lines(lines), "\n"@)
}

/// An event: its name, where it has one, and its data lines.
pub struct SseEvent {
    pub name: Option<Vec<char>>,
    pub data: Vec<Vec<char>>,
}

impl SseEvent {
    /// Whether this is the event that the lines of a block set.
    pub open spec fn is_of(self, lines: Seq<Seq<char>>) -> bool {
        &&& event_name(lines) == (match self.name {
            Some(name) => Some(name@),
            None => None,
        })
        &&& texts(self.data@) == data_lines(lines)
    }

    /// The name of the event, empty where it has none.
    pub open spec fn name_text(self) -> Seq<char> {
        match self.name {
            Some(name) => name@,
            None => seq![],
        }
    }

    /// Reads the event that the lines of a block set.
    pub fn read(lines: &Vec<Vec<char>>) -> (r: SseEvent)
        ensures
            r.is_of(texts(lines@)),
    {
        let mut name: Option<Vec<char>> = None;
        let mut data: Vec<Vec<char>> = Vec::new();
        let n: usize = lines.len();
        let ghost all = texts(lines@);
        for i in 0..n
            invariant
                n == lines@.len(),
                all == texts(lines@),
                event_name(all.take(i as int)) == (match name {
                    Some(name) => Some(name@),
                    None => None,
                }),
                texts(data@) == data_lines(all.take(i as int)),
        {
            let ghost next = all.take(i + 1);
            assert(next.drop_last() == all.take(i as int));
            assert(next.last() == lines@[i as int]@);
            let line: &[char] = lines[i].as_slice();
            proof {
                event_is_no_data(line@);
            }
            if let Some(value) = strip_sse_field(line, "event") {
                let mut found: Vec<char> = Vec::new();
                append(&mut found, trim(value));
                assert(found@ == trimmed(value@));
                name = Some(found);
            } else if let Some(value) = strip_sse_field(line, "data") {
                let mut found: Vec<char> = Vec::new();
                append(&mut found, value);
                let ghost before = texts(data@);
                data.push(found);
                assert(texts(data@) == before.push(value@));
            }
        }
        assert(all.take(n as int) == all);
        SseEvent { name, data }
    }

    /// The data lines with a line feed between each two.
    pub fn text(&self) -> (r: Vec<char>)
        ensures
            r@ == joined(texts(self.data@), "\n"@),
    {
        join(&self.data, "\n")
    }
}

/// No line sets both the name and the data of an event.
proof fn event_is_no_data(line: Seq<char>)
    ensures
        field_value(line, "event"@) is None || field_value(line, "data"@) is None,
{
    reveal_strlit("event");
    reveal_strlit("data");
    if after_prefix(line, "event"@) is Some && after_prefix(line, "data"@) is Some {
        assert("event"@[0] == line[0]);
        assert("data"@[0] == line[0]);
    }
}

} // verus!
