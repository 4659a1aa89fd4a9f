//! Text as sequences of characters.
//!
//! The rest of the crate states its contracts over `Seq<char>`, the view of
//! `str` and `String`. This module holds the operations on such sequences, each
//! as a spec function with the executable function that computes it.

use vstd::prelude::*;
use vstd::slice::slice_subrange;

verus! {

/// `String::push` appends one character at the end of the string.
pub assume_specification[ std::string::String::push ](s: &mut std::string::String, c: char)
    ensures
        final(s)@ == old(s)@.push(c),
;

/// The characters of a string slice.
pub fn chars_of(s: &str) -> (r: Vec<char>)
    ensures
        r@ == s@,
{
    let mut out: Vec<char> = Vec::new();
    for c in it: s.chars()
        invariant
            it.seq() == s@,
            out@ == s@.take(it.index()),
    {
        out.push(c);
    }
    out
}

/// The string with the given characters.
pub fn string_of(s: &[char]) -> (r: String)
    ensures
        r@ == s@,
{
    let mut out: String = String::new();
    let n: usize = s.len();
    for i in 0..n
        invariant
            n == s@.len(),
            out@ == s@.take(i as int),
    {
        out.push(s[i]);
    }
    assert(s@.take(n as int) == s@);
    out
}

/// The characters of an optional string slice.
pub open spec fn str_of(s: Option<&str>) -> Option<Seq<char>> {
    match s {
        Some(s) => Some(s@),
        None => None,
    }
}

/// The characters of an optional string.
pub open spec fn text_of(s: Option<String>) -> Option<Seq<char>> {
    match s {
        Some(s) => Some(s@),
        None => None,
    }
}

/// Appends a slice to a vector of characters.
pub fn append(out: &mut Vec<char>, s: &[char])
    ensures
        final(out)@ == old(out)@ + s@,
{
    let n: usize = s.len();
    for i in 0..n
        invariant
            n == s@.len(),
            out@ == old(out)@ + s@.take(i as int),
    {
        out.push(s[i]);
        assert(old(out)@ + s@.take(i + 1) == (old(out)@ + s@.take(i as int)).push(s@[i as int]));
    }
    assert(s@.take(n as int) == s@);
}

/// Appends a string slice to a vector of characters.
pub fn append_str(out: &mut Vec<char>, s: &str)
    ensures
        final(out)@ == old(out)@ + s@,
{
    let chars: Vec<char> = chars_of(s);
    append(out, chars.as_slice());
}

/// Whether two slices hold the same characters.
pub fn same(a: &[char], b: &[char]) -> (r: bool)
    ensures
        r == (a@ == b@),
{
    if a.len() != b.len() {
        return false;
    }
    let n: usize = a.len();
    for i in 0..n
        invariant
            n == a@.len(),
            a@.len() == b@.len(),
            forall|j: int| 0 <= j < i ==> a@[j] == b@[j],
    {
        if a[i] != b[i] {
            return false;
        }
    }
    assert(a@ == b@);
    true
}

/// Whether a slice holds the characters of a string slice.
pub fn is_str(a: &[char], b: &str) -> (r: bool)
    ensures
        r == (a@ == b@),
{
    let chars: Vec<char> = chars_of(b);
    same(a, chars.as_slice())
}

/// Whether two string slices hold the same characters.
pub fn same_str(a: &str, b: &str) -> (r: bool)
    ensures
        r == (a@ == b@),
{
    let chars: Vec<char> = chars_of(a);
    is_str(chars.as_slice(), b)
}

/// Whether a slice starts with the characters of a string slice.
pub fn starts_with(s: &[char], prefix: &str) -> (r: bool)
    ensures
        r == prefix@.is_prefix_of(s@),
{
    let p: Vec<char> = chars_of(prefix);
    if s.len() < p.len() {
        return false;
    }
    let head: &[char] = slice_subrange(s, 0, p.len());
    same(head, p.as_slice())
}

/// What follows a prefix, or `None` where the text does not start with it.
pub open spec fn after_prefix(s: Seq<char>, prefix: Seq<char>) -> Option<Seq<char>> {
    if prefix.is_prefix_of(s) {
        Some(s.skip(prefix.len() as int))
    } else {
        None
    }
}

/// What follows `prefix` in `s`.
pub fn strip_prefix<'a>(s: &'a [char], prefix: &str) -> (r: Option<&'a [char]>)
    ensures
        match r {
            Some(rest) => after_prefix(s@, prefix@) == Some(rest@),
            None => after_prefix(s@, prefix@) is None,
        },
{
    if starts_with(s, prefix) {
        let n: usize = chars_of(prefix).len();
        let rest: &'a [char] = slice_subrange(s, n, s.len());
        assert(rest@ == s@.skip(prefix@.len() as int));
        Some(rest)
    } else {
        None
    }
}

/// The Unicode `White_Space` property.
pub open spec fn white_space(c: char) -> bool {
    ||| '\u{9}' <= c <= '\u{d}'
    ||| c == '\u{20}'
    ||| c == '\u{85}'
    ||| c == '\u{a0}'
    ||| c == '\u{1680}'
    ||| '\u{2000}' <= c <= '\u{200a}'
    ||| c == '\u{2028}'
    ||| c == '\u{2029}'
    ||| c == '\u{202f}'
    ||| c == '\u{205f}'
    ||| c == '\u{3000}'
}

/// Whether a character is white space.
pub fn is_white_space(c: char) -> (r: bool)
    ensures
        r == white_space(c),
{
    ('\u{9}' <= c && c <= '\u{d}') || c == '\u{20}' || c == '\u{85}' || c == '\u{a0}' || c
        == '\u{1680}' || ('\u{2000}' <= c && c <= '\u{200a}') || c == '\u{2028}' || c == '\u{2029}'
        || c == '\u{202f}' || c == '\u{205f}' || c == '\u{3000}'
}

/// The text without its leading white space.
pub open spec fn trimmed_start(s: Seq<char>) -> Seq<char>
    decreases s.len(),
{
    if s.len() > 0 && white_space(s[0]) {
        trimmed_start(s.drop_first())
    } else {
        s
    }
}

/// The text without its trailing white space.
pub open spec fn trimmed_end(s: Seq<char>) -> Seq<char>
    decreases s.len(),
{
    if s.len() > 0 && white_space(s.last()) {
        trimmed_end(s.drop_last())
    } else {
        s
    }
}

/// The text without leading and trailing white space.
pub open spec fn trimmed(s: Seq<char>) -> Seq<char> {
    trimmed_end(trimmed_start(s))
}

/// Drops leading white space.
pub fn trim_start<'a>(s: &'a [char]) -> (r: &'a [char])
    ensures
        r@ == trimmed_start(s@),
{
    let mut i: usize = 0;
    assert(s@.skip(0) == s@);
    while i < s.len() && is_white_space(s[i])
        invariant
            i <= s@.len(),
            trimmed_start(s@) == trimmed_start(s@.skip(i as int)),
        decreases s@.len() - i,
    {
        assert(s@.skip(i as int).drop_first() == s@.skip(i + 1));
        i = i + 1;
    }
    let r: &'a [char] = slice_subrange(s, i, s.len());
    assert(r@ == s@.skip(i as int));
    r
}

/// Drops trailing white space.
pub fn trim_end<'a>(s: &'a [char]) -> (r: &'a [char])
    ensures
        r@ == trimmed_end(s@),
{
    let mut n: usize = s.len();
    assert(s@.take(n as int) == s@);
    while n > 0 && is_white_space(s[n - 1])
        invariant
            n <= s@.len(),
            trimmed_end(s@) == trimmed_end(s@.take(n as int)),
        decreases n,
    {
        assert(s@.take(n as int).drop_last() == s@.take(n - 1));
        n = n - 1;
    }
    let r: &'a [char] = slice_subrange(s, 0, n);
    assert(r@ == s@.take(n as int));
    r
}

/// Drops leading and trailing white space.
pub fn trim<'a>(s: &'a [char]) -> (r: &'a [char])
    ensures
        r@ == trimmed(s@),
{
    trim_end(trim_start(s))
}

/// Whether a text is empty or white space throughout.
pub open spec fn blank(s: Seq<char>) -> bool {
    forall|i: int| 0 <= i < s.len() ==> white_space(#[trigger] s[i])
}

/// Whether a slice is empty or white space throughout.
pub fn is_blank(s: &[char]) -> (r: bool)
    ensures
        r == blank(s@),
        r == (trimmed(s@).len() == 0),
{
    proof {
        blank_is_trimmed_empty(s@);
    }
    let n: usize = s.len();
    for i in 0..n
        invariant
            n == s@.len(),
            blank(s@) == (trimmed(s@).len() == 0),
            forall|j: int| 0 <= j < i ==> white_space(#[trigger] s@[j]),
    {
        if !is_white_space(s[i]) {
            return false;
        }
    }
    true
}

/// A text is blank if and only if nothing is left of it once it is trimmed.
pub proof fn blank_is_trimmed_empty(s: Seq<char>)
    ensures
        blank(s) <==> trimmed(s).len() == 0,
    decreases s.len(),
{
    if s.len() > 0 && white_space(s[0]) {
        blank_is_trimmed_empty(s.drop_first());
        assert forall|i: int| blank(s.drop_first()) && 0 <= i < s.len() implies white_space(
            #[trigger] s[i],
        ) by {
            if i > 0 {
                assert(s.drop_first()[i - 1] == s[i]);
            }
        }
    } else if s.len() > 0 {
        trimmed_end_keeps_head(s);
        assert(!white_space(s[0]));
    }
}

/// Dropping trailing white space keeps a first character that is none.
pub proof fn trimmed_end_keeps_head(s: Seq<char>)
    requires
        s.len() > 0,
        !white_space(s[0]),
    ensures
        trimmed_end(s).len() > 0,
        trimmed_end(s)[0] == s[0],
    decreases s.len(),
{
    if white_space(s.last()) {
        trimmed_end_keeps_head(s.drop_last());
    }
}

/// A character with ASCII upper case letters lowered.
pub open spec fn lowered_char(c: char) -> char {
    if 'A' <= c <= 'Z' {
        (c as u32 + 32) as char
    } else {
        c
    }
}

/// The text with ASCII upper case letters lowered.
pub open spec fn lowered(s: Seq<char>) -> Seq<char> {
    s.map_values(|c: char| lowered_char(c))
}

/// Lowers one ASCII upper case letter.
pub fn lower_char(c: char) -> (r: char)
    ensures
        r == lowered_char(c),
{
    if 'A' <= c && c <= 'Z' {
        ((c as u8) + 32) as char
    } else {
        c
    }
}

/// Lowers ASCII upper case letters.
pub fn lower(s: &[char]) -> (r: Vec<char>)
    ensures
        r@ == lowered(s@),
{
    let mut out: Vec<char> = Vec::new();
    let n: usize = s.len();
    for i in 0..n
        invariant
            n == s@.len(),
            out@ == lowered(s@.take(i as int)),
    {
        out.push(lower_char(s[i]));
        assert(out@ == lowered(s@.take(i + 1)));
    }
    assert(s@.take(n as int) == s@);
    out
}

/// Whether `needle` occurs somewhere in `s`.
pub open spec fn occurs_in(needle: Seq<char>, s: Seq<char>) -> bool {
    exists|i: int|
        0 <= i <= s.len() - needle.len() && #[trigger] s.subrange(i, i + needle.len()) == needle
}

/// Whether `needle` occurs somewhere in `s`.
pub fn contains(s: &[char], needle: &str) -> (r: bool)
    ensures
        r == occurs_in(needle@, s@),
{
    let p: Vec<char> = chars_of(needle);
    let total: usize = s.len();
    if p.len() > total {
        return false;
    }
    let last: usize = total - p.len();
    let mut i: usize = 0;
    while i <= last
        invariant
            p@ == needle@,
            total == s@.len(),
            p@.len() <= s@.len(),
            last == s@.len() - p@.len(),
            i <= last + 1,
            forall|j: int| 0 <= j < i ==> #[trigger] s@.subrange(j, j + p@.len()) != p@,
        decreases last + 1 - i,
    {
        let window: &[char] = slice_subrange(s, i, i + p.len());
        if same(window, p.as_slice()) {
            return true;
        }
        if i == last {
            return false;
        }
        i = i + 1;
    }
    false
}

/// The views of a sequence of vectors of characters.
pub open spec fn texts(parts: Seq<Vec<char>>) -> Seq<Seq<char>> {
    parts.map_values(|part: Vec<char>| part@)
}

/// The place of the first `c`, or the length of the text where it has none.
pub open spec fn find_char(s: Seq<char>, c: char) -> int
    decreases s.len(),
{
    if s.len() == 0 || s[0] == c {
        0
    } else {
        1 + find_char(s.drop_first(), c)
    }
}

/// `find_char` is the first place of the character, if it has one.
pub proof fn find_char_bounds(s: Seq<char>, c: char)
    ensures
        0 <= find_char(s, c) <= s.len(),
        find_char(s, c) < s.len() ==> s[find_char(s, c)] == c,
        forall|i: int| 0 <= i < find_char(s, c) ==> #[trigger] s[i] != c,
    decreases s.len(),
{
    if s.len() > 0 && s[0] != c {
        find_char_bounds(s.drop_first(), c);
        let k = find_char(s.drop_first(), c);
        assert forall|i: int| 0 <= i < k + 1 implies #[trigger] s[i] != c by {
            if i > 0 {
                assert(s.drop_first()[i - 1] == s[i]);
            }
        }
    }
}

/// The place of the first `c` is the only one with no `c` before it.
pub proof fn find_char_is(s: Seq<char>, c: char, n: int)
    requires
        0 <= n <= s.len(),
        n < s.len() ==> s[n] == c,
        forall|i: int| 0 <= i < n ==> #[trigger] s[i] != c,
    ensures
        find_char(s, c) == n,
{
    find_char_bounds(s, c);
    let k = find_char(s, c);
    if k < n {
        assert(s[k] != c);
    }
}

/// The place of the first `c` at or behind `from`, or the length of the slice.
pub fn position(s: &[char], c: char, from: usize) -> (r: usize)
    requires
        from <= s@.len(),
    ensures
        r == from + find_char(s@.skip(from as int), c),
        from <= r <= s@.len(),
{
    let mut i: usize = from;
    while i < s.len() && s[i] != c
        invariant
            from <= i <= s@.len(),
            forall|j: int| from <= j < i ==> #[trigger] s@[j] != c,
        decreases s@.len() - i,
    {
        i = i + 1;
    }
    proof {
        find_char_is(s@.skip(from as int), c, i - from);
    }
    i
}

/// A line without the carriage return that stands before its line feed.
pub open spec fn without_cr(line: Seq<char>) -> Seq<char> {
    if line.len() > 0 && line.last() == '\r' {
        line.drop_last()
    } else {
        line
    }
}

/// The lines of a text. A line ends with a line feed, with or without a carriage
/// return before it; the last line may end with the text instead.
pub open spec fn lines_of(s: Seq<char>) -> Seq<Seq<char>>
    decreases s.len(),
{
    let n = find_char(s, '\n');
    if s.len() == 0 {
        seq![]
    } else if 0 <= n < s.len() {
        seq![without_cr(s.take(n))] + lines_of(s.skip(n + 1))
    } else {
        seq![s]
    }
}

/// Splits a text into its lines.
pub fn lines(s: &[char]) -> (r: Vec<Vec<char>>)
    ensures
        texts(r@) == lines_of(s@),
{
    let mut out: Vec<Vec<char>> = Vec::new();
    let mut start: usize = 0;
    let total: usize = s.len();
    assert(s@.skip(0) == s@);
    while start < total
        invariant
            start <= total,
            total == s@.len(),
            lines_of(s@) == texts(out@) + lines_of(s@.skip(start as int)),
        decreases total - start,
    {
        let ghost rest = s@.skip(start as int);
        let end: usize = position(s, '\n', start);
        let mut line: Vec<char> = Vec::new();
        append(&mut line, slice_subrange(s, start, end));
        let ghost before = texts(out@);
        if end < total {
            assert(line@ == rest.take(end - start));
            if line.len() > 0 && line[line.len() - 1] == '\r' {
                let ghost whole = line@;
                line.truncate(line.len() - 1);
                assert(line@ == whole.drop_last());
            }
            let ghost found = line@;
            out.push(line);
            assert(texts(out@) == before.push(found));
            assert(rest.skip(end - start + 1) == s@.skip(end + 1));
            assert(before + (seq![found] + lines_of(s@.skip(end + 1))) == before.push(found)
                + lines_of(s@.skip(end + 1)));
            start = end + 1;
        } else {
            assert(line@ == rest);
            let ghost found = line@;
            out.push(line);
            assert(texts(out@) == before.push(found));
            assert(before + seq![found] == before.push(found));
            assert(lines_of(s@.skip(total as int)) == Seq::<Seq<char>>::empty());
            assert(before.push(found) + lines_of(s@.skip(total as int)) == before.push(found));
            start = total;
        }
    }
    assert(texts(out@) + lines_of(s@.skip(total as int)) == texts(out@));
    out
}

/// The parts with `sep` between each two of them.
pub open spec fn joined(parts: Seq<Seq<char>>, sep: Seq<char>) -> Seq<char>
    decreases parts.len(),
{
    if parts.len() == 0 {
        seq![]
    } else if parts.len() == 1 {
        parts[0]
    } else {
        joined(parts.drop_last(), sep) + sep + parts.last()
    }
}

/// Joins parts with a separator.
pub fn join(parts: &Vec<Vec<char>>, sep: &str) -> (r: Vec<char>)
    ensures
        r@ == joined(texts(parts@), sep@),
{
    let mut out: Vec<char> = Vec::new();
    let n: usize = parts.len();
    for i in 0..n
        invariant
            n == parts@.len(),
            out@ == joined(texts(parts@).take(i as int), sep@),
    {
        let ghost next = texts(parts@).take(i + 1);
        assert(next.drop_last() == texts(parts@).take(i as int));
        assert(next.last() == parts@[i as int]@);
        if i > 0 {
            append_str(&mut out, sep);
        }
        append(&mut out, parts[i].as_slice());
        assert(out@ == joined(next, sep@));
    }
    assert(texts(parts@).take(n as int) == texts(parts@));
    out
}

/// The length of the word that a text starts with.
pub open spec fn word_len(s: Seq<char>) -> int
    decreases s.len(),
{
    if s.len() == 0 || white_space(s[0]) {
        0
    } else {
        1 + word_len(s.drop_first())
    }
}

/// A word is no longer than the text, and not empty where the text starts with one.
pub proof fn word_len_bounds(s: Seq<char>)
    ensures
        0 <= word_len(s) <= s.len(),
        s.len() > 0 && !white_space(s[0]) ==> word_len(s) > 0,
    decreases s.len(),
{
    if s.len() > 0 && !white_space(s[0]) {
        word_len_bounds(s.drop_first());
    }
}

/// What is left once leading white space is gone is no longer and starts with none.
pub proof fn trimmed_start_shape(s: Seq<char>)
    ensures
        trimmed_start(s).len() <= s.len(),
        trimmed_start(s).len() > 0 ==> !white_space(trimmed_start(s)[0]),
    decreases s.len(),
{
    if s.len() > 0 && white_space(s[0]) {
        trimmed_start_shape(s.drop_first());
    }
}

/// The words of a text: what white space separates.
pub open spec fn words_of(s: Seq<char>) -> Seq<Seq<char>>
    decreases s.len(),
{
    proof {
        trimmed_start_shape(s);
        word_len_bounds(trimmed_start(s));
    }
    let t = trimmed_start(s);
    if t.len() == 0 {
        seq![]
    } else {
        seq![t.take(word_len(t))] + words_of(t.skip(word_len(t)))
    }
}

/// Splits a text into its words.
pub fn words(s: &[char]) -> (r: Vec<Vec<char>>)
    ensures
        texts(r@) == words_of(s@),
{
    let mut out: Vec<Vec<char>> = Vec::new();
    let mut rest: &[char] = trim_start(s);
    assert(trimmed_start(rest@) == rest@) by {
        trimmed_start_shape(s@);
    }
    assert(words_of(rest@) == words_of(s@));
    assert(Seq::<Seq<char>>::empty() + words_of(s@) == words_of(s@));
    while rest.len() > 0
        invariant
            trimmed_start(rest@) == rest@,
            words_of(s@) == texts(out@) + words_of(rest@),
        decreases rest@.len(),
    {
        let ghost t = rest@;
        let ghost before = texts(out@);
        proof {
            trimmed_start_shape(t);
            word_len_bounds(t);
        }
        let mut n: usize = 0;
        assert(t.skip(0) == t);
        while n < rest.len() && !is_white_space(rest[n])
            invariant
                rest@ == t,
                n <= t.len(),
                word_len(t) == n + word_len(t.skip(n as int)),
            decreases t.len() - n,
        {
            assert(t.skip(n as int).drop_first() == t.skip(n + 1));
            n = n + 1;
        }
        assert(n == word_len(t));
        let mut word: Vec<char> = Vec::new();
        append(&mut word, slice_subrange(rest, 0, n));
        let ghost found = word@;
        assert(found == t.take(n as int));
        out.push(word);
        assert(texts(out@) == before.push(found));
        let tail: &[char] = slice_subrange(rest, n, rest.len());
        assert(tail@ == t.skip(n as int));
        rest = trim_start(tail);
        proof {
            trimmed_start_shape(tail@);
        }
        assert(words_of(rest@) == words_of(tail@));
        assert(before + (seq![found] + words_of(tail@)) == before.push(found) + words_of(tail@));
    }
    assert(words_of(rest@) == Seq::<Seq<char>>::empty());
    assert(texts(out@) + words_of(rest@) == texts(out@));
    out
}

/// A digit of the bases up to sixteen, in lower case.
pub open spec fn digit(d: int) -> char {
    if d < 10 {
        (0x30 + d) as char
    } else {
        (0x61 + d - 10) as char
    }
}

/// The digit for a number below sixteen.
pub fn digit_char(d: u8) -> (r: char)
    requires
        d < 16,
    ensures
        r == digit(d as int),
{
    if d < 10 {
        (0x30 + d) as char
    } else {
        (0x61 + (d - 10)) as char
    }
}

/// The decimal digits of a number.
pub open spec fn decimal(n: nat) -> Seq<char>
    decreases n,
{
    if n < 10 {
        seq![digit(n as int)]
    } else {
        decimal(n / 10).push(digit((n % 10) as int))
    }
}

/// Appends the decimal digits of a number.
pub fn append_decimal(out: &mut Vec<char>, n: u64)
    ensures
        final(out)@ == old(out)@ + decimal(n as nat),
    decreases n,
{
    if n >= 10 {
        append_decimal(out, n / 10);
    }
    out.push(digit_char((n % 10) as u8));
    assert(out@ == old(out)@ + decimal(n as nat));
}

/// The last `width` hexadecimal digits of a number, in lower case.
pub open spec fn hex(n: nat, width: nat) -> Seq<char>
    decreases width,
{
    if width == 0 {
        seq![]
    } else {
        hex(n / 16, (width - 1) as nat).push(digit((n % 16) as int))
    }
}

/// Appends the last `width` hexadecimal digits of a number.
pub fn append_hex(out: &mut Vec<char>, n: u64, width: u8)
    ensures
        final(out)@ == old(out)@ + hex(n as nat, width as nat),
    decreases width,
{
    if width > 0 {
        append_hex(out, n / 16, width - 1);
        out.push(digit_char((n % 16) as u8));
    }
    assert(out@ == old(out)@ + hex(n as nat, width as nat));
}

} // verus!
