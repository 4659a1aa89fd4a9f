//! What holds of the way from bytes to text and to blocks, however the bytes are
//! cut into chunks.

use vstd::prelude::*;
use vstd::utf8::{
    decode_first_scalar, decode_utf8, encode_utf8, encode_utf8_decode_utf8,
    encode_utf8_valid_utf8, length_of_first_scalar, pop_first_scalar, valid_first_scalar,
    valid_utf8,
};

use crate::sse::{
    block_len, block_len_bounds, decoded, delimiter_len, first_block, head, later_byte,
    second_byte, undecoded, width, Head,
};

verus! {

/// Decoding bytes in two parts, with what the first part leaves undecoded put
/// before the second, is decoding them at once.
pub proof fn decoding_in_parts(first: Seq<u8>, second: Seq<u8>)
    ensures
        decoded(first + second) == decoded(first) + decoded(undecoded(first) + second),
        undecoded(first + second) == undecoded(undecoded(first) + second),
    decreases first.len(),
{
    match head(first) {
        Head::Whole(c, n) => {
            assert(head(first + second) == head(first));
            assert((first + second).skip(n as int) == first.skip(n as int) + second);
            decoding_in_parts(first.skip(n as int), second);
        },
        Head::Broken(n) => {
            assert(head(first + second) == head(first));
            assert((first + second).skip(n as int) == first.skip(n as int) + second);
            decoding_in_parts(first.skip(n as int), second);
        },
        Head::Partial => {},
    }
}

/// Less than one character stays undecoded.
pub proof fn little_stays_undecoded(bytes: Seq<u8>)
    ensures
        undecoded(bytes).len() < 4,
        undecoded(bytes).len() <= bytes.len(),
        undecoded(bytes) == bytes.skip(bytes.len() - undecoded(bytes).len()),
    decreases bytes.len(),
{
    match head(bytes) {
        Head::Whole(c, n) => {
            little_stays_undecoded(bytes.skip(n as int));
        },
        Head::Broken(n) => {
            little_stays_undecoded(bytes.skip(n as int));
        },
        Head::Partial => {},
    }
}

/// The first character of valid UTF-8 is read as it is.
proof fn head_of_valid(bytes: Seq<u8>)
    requires
        valid_first_scalar(bytes),
    ensures
        head(bytes) == Head::Whole(
            decode_first_scalar(bytes) as char,
            length_of_first_scalar(bytes) as nat,
        ),
{
    let b0 = bytes[0];
    if b0 <= 0x7F {
        assert(b0 <= 0x7F ==> (b0 & 0x7F) == b0) by (bit_vector);
    } else if b0 <= 0xDF {
        let b1 = bytes[1];
        assert(0xC0 <= b0 <= 0xDF && 0x80 <= b1 <= 0xBF ==> (((b0 & 0x1F) as u32) << 6) | ((b1
            & 0x3f) as u32) == (b0 - 0xC0) * 0x40 + (b1 - 0x80)) by (bit_vector);
    } else if b0 <= 0xEF {
        let b1 = bytes[1];
        let b2 = bytes[2];
        assert(0xE0 <= b0 <= 0xEF && 0x80 <= b1 <= 0xBF && 0x80 <= b2 <= 0xBF ==> (((b0
            & 0x0F) as u32) << 12) | (((b1 & 0x3f) as u32) << 6) | ((b2 & 0x3f) as u32) == (b0
            - 0xE0) * 0x1000 + (b1 - 0x80) * 0x40 + (b2 - 0x80)) by (bit_vector);
    } else {
        let b1 = bytes[1];
        let b2 = bytes[2];
        let b3 = bytes[3];
        assert(0xF0 <= b0 <= 0xF7 && 0x80 <= b1 <= 0xBF && 0x80 <= b2 <= 0xBF && 0x80 <= b3
            <= 0xBF ==> (((b0 & 0x07) as u32) << 18) | (((b1 & 0x3f) as u32) << 12) | (((b2
            & 0x3f) as u32) << 6) | ((b3 & 0x3f) as u32) == (b0 - 0xF0) * 0x40000 + (b1 - 0x80)
            * 0x1000 + (b2 - 0x80) * 0x40 + (b3 - 0x80)) by (bit_vector);
    }
}

/// A character that is complete is decoded at once, whatever follows it.
pub proof fn complete_characters_are_decoded(bytes: Seq<u8>)
    requires
        valid_first_scalar(bytes),
    ensures
        decoded(bytes) == seq![decode_first_scalar(bytes) as char] + decoded(
            pop_first_scalar(bytes),
        ),
        undecoded(bytes) == undecoded(pop_first_scalar(bytes)),
{
    head_of_valid(bytes);
    let n = length_of_first_scalar(bytes);
    assert(bytes.skip(n) == pop_first_scalar(bytes));
}

/// Whether bytes start a character and do not complete it: with more bytes they are
/// one.
pub open spec fn starts_character(bytes: Seq<u8>) -> bool {
    exists|more: Seq<u8>|
        more.len() > 0 && valid_first_scalar(#[trigger] (bytes + more)) && length_of_first_scalar(
            bytes + more,
        ) == bytes.len() + more.len()
}

/// What the bytes that start a character look like.
spec fn looks_like_a_start(bytes: Seq<u8>) -> bool {
    ||| bytes.len() == 0
    ||| bytes.len() == 1 && width(bytes[0]) >= 2
    ||| bytes.len() == 2 && width(bytes[0]) >= 3 && second_byte(bytes[0], bytes[1])
    ||| bytes.len() == 3 && width(bytes[0]) == 4 && second_byte(bytes[0], bytes[1])
        && later_byte(bytes[2])
}

/// Bytes with the shape of a character are a valid one.
proof fn shapes_are_valid(bytes: Seq<u8>)
    requires
        bytes.len() == width(bytes[0]),
        bytes.len() >= 2,
        second_byte(bytes[0], bytes[1]),
        bytes.len() >= 3 ==> later_byte(bytes[2]),
        bytes.len() >= 4 ==> later_byte(bytes[3]),
    ensures
        valid_first_scalar(bytes),
        length_of_first_scalar(bytes) == bytes.len(),
{
    let b0 = bytes[0];
    let b1 = bytes[1];
    if bytes.len() == 2 {
        assert(0xC0 <= b0 <= 0xDF && 0x80 <= b1 <= 0xBF ==> (((b0 & 0x1F) as u32) << 6) | ((b1
            & 0x3f) as u32) == (b0 - 0xC0) * 0x40 + (b1 - 0x80)) by (bit_vector);
    } else if bytes.len() == 3 {
        let b2 = bytes[2];
        assert(0xE0 <= b0 <= 0xEF && 0x80 <= b1 <= 0xBF && 0x80 <= b2 <= 0xBF ==> (((b0
            & 0x0F) as u32) << 12) | (((b1 & 0x3f) as u32) << 6) | ((b2 & 0x3f) as u32) == (b0
            - 0xE0) * 0x1000 + (b1 - 0x80) * 0x40 + (b2 - 0x80)) by (bit_vector);
    } else {
        let b2 = bytes[2];
        let b3 = bytes[3];
        assert(0xF0 <= b0 <= 0xF7 && 0x80 <= b1 <= 0xBF && 0x80 <= b2 <= 0xBF && 0x80 <= b3
            <= 0xBF ==> (((b0 & 0x07) as u32) << 18) | (((b1 & 0x3f) as u32) << 12) | (((b2
            & 0x3f) as u32) << 6) | ((b3 & 0x3f) as u32) == (b0 - 0xF0) * 0x40000 + (b1 - 0x80)
            * 0x1000 + (b2 - 0x80) * 0x40 + (b3 - 0x80)) by (bit_vector);
    }
}

proof fn starts_by_their_looks(bytes: Seq<u8>)
    ensures
        starts_character(bytes) <==> looks_like_a_start(bytes),
{
    if starts_character(bytes) {
        let more = choose|more: Seq<u8>|
            more.len() > 0 && valid_first_scalar(#[trigger] (bytes + more))
                && length_of_first_scalar(bytes + more) == bytes.len() + more.len();
        let all = bytes + more;
        head_of_valid(all);
        if bytes.len() > 0 {
            assert(all[0] == bytes[0]);
        }
        if bytes.len() > 1 {
            assert(all[1] == bytes[1]);
        }
        if bytes.len() > 2 {
            assert(all[2] == bytes[2]);
        }
    }
    if looks_like_a_start(bytes) {
        if bytes.len() == 0 {
            let more = seq![0x41u8];
            assert(bytes + more =~= more);
            assert(valid_first_scalar(more)) by {
                assert(0x41u8 & 0x7F == 0x41u8) by (bit_vector);
            }
            assert(valid_first_scalar(bytes + more));
        } else {
            let second = if bytes[0] == 0xE0 {
                0xA0u8
            } else if bytes[0] == 0xF0 {
                0x90u8
            } else {
                0x80u8
            };
            let tail = if bytes.len() == 1 {
                seq![second, 0x80u8, 0x80u8]
            } else {
                seq![0x80u8, 0x80u8]
            };
            let more = tail.take(width(bytes[0]) - bytes.len());
            let all = bytes + more;
            assert(all[0] == bytes[0]);
            shapes_are_valid(all);
            assert(valid_first_scalar(bytes + more));
        }
    }
}

/// Bytes that only start a character wait for those that complete it.
pub proof fn incomplete_characters_wait(bytes: Seq<u8>)
    requires
        starts_character(bytes),
    ensures
        decoded(bytes).len() == 0,
        undecoded(bytes) == bytes,
{
    starts_by_their_looks(bytes);
}

/// Bytes that neither are nor start a character are replaced by one U+FFFD for as
/// many of them as start one, and for one byte at least.
pub proof fn broken_bytes_are_replaced(bytes: Seq<u8>, n: int)
    requires
        0 < n <= bytes.len(),
        !valid_first_scalar(bytes),
        !starts_character(bytes),
        n == 1 || starts_character(bytes.take(n)),
        n < bytes.len() ==> !starts_character(bytes.take(n + 1)),
    ensures
        decoded(bytes) == seq!['\u{FFFD}'] + decoded(bytes.skip(n)),
        undecoded(bytes) == undecoded(bytes.skip(n)),
{
    starts_by_their_looks(bytes);
    starts_by_their_looks(bytes.take(n));
    if n < bytes.len() {
        starts_by_their_looks(bytes.take(n + 1));
    }
    let b0 = bytes[0];
    assert(bytes.take(n)[0] == b0);
    if bytes.len() >= width(b0) && width(b0) >= 2 && second_byte(b0, bytes[1]) && (width(b0) < 3
        || later_byte(bytes[2])) && (width(b0) < 4 || later_byte(bytes[3])) {
        let whole = bytes.take(width(b0) as int);
        shapes_are_valid(whole);
    }
    if b0 <= 0x7F {
        assert(b0 <= 0x7F ==> (b0 & 0x7F) == b0) by (bit_vector);
    }
    assert(head(bytes) == Head::Broken(n as nat));
}

/// Valid UTF-8 is decoded to its characters, and nothing is left over.
pub proof fn valid_utf8_is_decoded(bytes: Seq<u8>)
    requires
        valid_utf8(bytes),
    ensures
        decoded(bytes) == decode_utf8(bytes),
        undecoded(bytes).len() == 0,
    decreases bytes.len(),
{
    if bytes.len() > 0 {
        head_of_valid(bytes);
        let n = length_of_first_scalar(bytes);
        assert(bytes.skip(n) == pop_first_scalar(bytes));
        valid_utf8_is_decoded(pop_first_scalar(bytes));
    }
}

/// Decoding undoes encoding.
pub proof fn decoding_undoes_encoding(text: Seq<char>)
    ensures
        decoded(encode_utf8(text)) == text,
        undecoded(encode_utf8(text)).len() == 0,
{
    encode_utf8_valid_utf8(text);
    encode_utf8_decode_utf8(text);
    valid_utf8_is_decoded(encode_utf8(text));
}

/// A delimiter between blocks.
pub open spec fn delimiter(s: Seq<char>) -> bool {
    s == seq!['\n', '\n'] || s == seq!['\r', '\n', '\r', '\n']
}

/// Taking a block loses nothing: the text is the block, a delimiter and what is
/// left, in this order.
pub proof fn blocks_lose_nothing(text: Seq<char>)
    ensures
        first_block(text) matches Some((block, rest)) ==> exists|between: Seq<char>|
            #[trigger] delimiter(between) && text == block + between + rest,
{
    block_len_bounds(text);
    if let Some(n) = block_len(text) {
        let d = delimiter_len(text.skip(n as int));
        let between = text.subrange(n as int, n as int + d);
        assert(between =~= seq!['\n', '\n'] || between =~= seq!['\r', '\n', '\r', '\n']);
        assert(delimiter(between));
        let (block, rest) = first_block(text)->0;
        assert(text =~= block + between + rest);
    }
}

/// The length of a block does not depend on what follows its delimiter.
proof fn block_len_stays(text: Seq<char>, more: Seq<char>)
    ensures
        block_len(text) is Some ==> block_len(text + more) == block_len(text),
    decreases text.len(),
{
    if text.len() > 0 && delimiter_len(text) == 0 && block_len(text) is Some {
        block_len_stays(text.drop_first(), more);
        assert((text + more).drop_first() == text.drop_first() + more);
        block_len_bounds(text.drop_first());
        let n = block_len(text.drop_first())->0 as int;
        assert(text.drop_first().skip(n) == text.skip(n + 1));
        if delimiter_len(text + more) > 0 {
            // A longer delimiter would start here and run past the end of the text,
            // but the delimiter behind it ends within the text.
            assert(text.drop_first()[n] == text[n + 1]);
            assert(text.drop_first()[n + 1] == text[n + 2]);
            assert(text.skip(n + 1)[0] == text[n + 1]);
            assert(text.skip(n + 1)[1] == text[n + 2]);
            assert(n + 3 <= text.len());
            assert(false);
        }
    }
}

/// A block that is complete stays the first one, whatever comes behind it.
pub proof fn complete_blocks_stay(text: Seq<char>, more: Seq<char>)
    ensures
        first_block(text) matches Some((block, rest)) ==> first_block(text + more) == Some(
            (block, rest + more),
        ),
{
    block_len_stays(text, more);
    block_len_bounds(text);
    if let Some(n) = block_len(text) {
        let i = n as int;
        assert((text + more).skip(i) == text.skip(i) + more);
        assert(delimiter_len(text.skip(i) + more) == delimiter_len(text.skip(i)));
        assert((text + more).take(i) == text.take(i));
        let j = i + delimiter_len(text.skip(i));
        assert((text + more).skip(j) == text.skip(j) + more);
    }
}

} // verus!
