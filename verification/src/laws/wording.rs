//! What holds of the operations on text, told in terms of characters and of how a
//! text is put together.

use vstd::prelude::*;

use crate::text::{
    after_prefix, blank, decimal, digit, find_char, find_char_bounds, find_char_is, hex, joined,
    lines_of, lowered, occurs_in, trimmed, trimmed_end, trimmed_start, trimmed_start_shape,
    white_space, without_cr, word_len, word_len_bounds, words_of,
};

verus! {

/// White space is U+0009 to U+000D, U+0020, U+0085, U+00A0, U+1680, U+2000 to
/// U+200A, U+2028, U+2029, U+202F, U+205F and U+3000.
pub proof fn white_space_by_code_point(c: char)
    ensures
        white_space(c) <==> {
            let n = c as int;
            ||| n == 9 || n == 10 || n == 11 || n == 12 || n == 13
            ||| n == 32 || n == 133 || n == 160 || n == 5760
            ||| 8192 <= n <= 8202
            ||| n == 8232 || n == 8233 || n == 8239 || n == 8287 || n == 12288
        },
{
}

/// A text is blank if and only if it holds no character that is not white space.
pub proof fn blank_by_characters(s: Seq<char>)
    ensures
        blank(s) <==> !exists|c: char| s.contains(c) && !#[trigger] white_space(c),
{
    if !blank(s) {
        let i = choose|i: int| 0 <= i < s.len() && !white_space(#[trigger] s[i]);
        assert(s.contains(s[i]));
    }
    if exists|c: char| s.contains(c) && !#[trigger] white_space(c) {
        let c = choose|c: char| s.contains(c) && !#[trigger] white_space(c);
        let i = choose|i: int| 0 <= i < s.len() && s[i] == c;
        assert(!white_space(s[i]));
    }
}

/// What follows a prefix is what the prefix has to be put before.
pub proof fn prefixes_come_off(s: Seq<char>, prefix: Seq<char>, rest: Seq<char>)
    ensures
        after_prefix(s, prefix) == Some(rest) <==> s == prefix + rest,
        after_prefix(s, prefix) is None ==> s != prefix + rest,
{
    if s == prefix + rest {
        assert(prefix =~= s.subrange(0, prefix.len() as int));
        assert(s.skip(prefix.len() as int) =~= rest);
    }
    if after_prefix(s, prefix) == Some(rest) {
        assert(prefix =~= s.subrange(0, prefix.len() as int));
        assert(s =~= prefix + rest);
    }
}

proof fn trimmed_start_splits(s: Seq<char>)
    ensures
        trimmed_start(s).len() <= s.len(),
        trimmed_start(s) == s.skip(s.len() - trimmed_start(s).len()),
        forall|i: int|
            0 <= i < s.len() - trimmed_start(s).len() ==> white_space(#[trigger] s[i]),
    decreases s.len(),
{
    if s.len() > 0 && white_space(s[0]) {
        trimmed_start_splits(s.drop_first());
        let t = trimmed_start(s);
        assert forall|i: int| 0 <= i < s.len() - t.len() implies white_space(
            #[trigger] s[i],
        ) by {
            if i > 0 {
                assert(s.drop_first()[i - 1] == s[i]);
            }
        }
        assert(t =~= s.skip(s.len() - t.len()));
    } else {
        assert(s.skip(0) =~= s);
    }
}

proof fn trimmed_end_splits(s: Seq<char>)
    ensures
        trimmed_end(s).len() <= s.len(),
        trimmed_end(s) == s.take(trimmed_end(s).len() as int),
        forall|i: int| trimmed_end(s).len() <= i < s.len() ==> white_space(#[trigger] s[i]),
        trimmed_end(s).len() > 0 ==> !white_space(trimmed_end(s).last()),
    decreases s.len(),
{
    if s.len() > 0 && white_space(s.last()) {
        trimmed_end_splits(s.drop_last());
        let t = trimmed_end(s);
        assert forall|i: int| t.len() <= i < s.len() implies white_space(#[trigger] s[i]) by {
            if i < s.len() - 1 {
                assert(s.drop_last()[i] == s[i]);
            }
        }
        assert(t =~= s.take(t.len() as int));
    } else {
        assert(s.take(s.len() as int) =~= s);
    }
}

/// A text that neither starts nor ends with white space is what is left of it with
/// any white space around it.
pub proof fn trimming_takes_white_space_off(front: Seq<char>, s: Seq<char>, back: Seq<char>)
    requires
        blank(front),
        blank(back),
        s.len() > 0 ==> !white_space(s[0]) && !white_space(s[s.len() - 1]),
    ensures
        trimmed(front + s + back) == s,
        s.len() > 0 ==> trimmed_start(front + s + back) == s + back,
{
    let all = front + s + back;
    let n = front.len() as int;
    trimmed_start_splits(all);
    trimmed_start_shape(all);
    let t = trimmed_start(all);
    let k = all.len() - t.len();
    if s.len() > 0 {
        assert(all[n] == s[0]);
        if k > n {
            assert(white_space(all[n]));
        }
        if k < n {
            assert(all[k] == front[k]);
            assert(t[0] == all[k]);
        }
        assert(t =~= s + back);
        trimmed_end_splits(t);
        let u = trimmed_end(t);
        if u.len() < s.len() {
            assert(t[s.len() - 1] == s[s.len() - 1]);
        }
        if u.len() > s.len() {
            assert(u.last() == t[u.len() - 1]);
            assert(t[u.len() - 1] == back[u.len() - 1 - s.len()]);
        }
        assert(u =~= s);
    } else {
        assert forall|i: int| 0 <= i < all.len() implies white_space(#[trigger] all[i]) by {
            if i < n {
                assert(all[i] == front[i]);
            } else {
                assert(all[i] == back[i - n]);
            }
        }
        if t.len() > 0 {
            assert(t[0] == all[k]);
        }
        assert(t.len() == 0);
        assert(trimmed(all) =~= s);
    }
}

/// Every text is what is left of it once it is trimmed, with white space around.
pub proof fn every_text_can_be_trimmed(s: Seq<char>)
    ensures
        exists|front: Seq<char>, back: Seq<char>|
            #![trigger front + trimmed(s) + back]
            blank(front) && blank(back) && s == front + trimmed(s) + back,
        trimmed(s).len() > 0 ==> !white_space(trimmed(s)[0]) && !white_space(
            trimmed(s)[trimmed(s).len() - 1],
        ),
{
    trimmed_start_splits(s);
    trimmed_start_shape(s);
    let t = trimmed_start(s);
    trimmed_end_splits(t);
    let u = trimmed_end(t);
    let front = s.take(s.len() - t.len());
    let back = t.skip(u.len() as int);
    assert(blank(front)) by {
        assert forall|i: int| 0 <= i < front.len() implies white_space(#[trigger] front[i]) by {
            assert(front[i] == s[i]);
        }
    }
    assert(blank(back)) by {
        assert forall|i: int| 0 <= i < back.len() implies white_space(#[trigger] back[i]) by {
            assert(back[i] == t[u.len() + i]);
        }
    }
    assert(s =~= front + trimmed(s) + back);
    if u.len() > 0 {
        assert(u[0] == t[0]);
    }
}

/// Lowering keeps every character but the letters A to Z, which become a to z.
pub proof fn lowering_by_code_point(s: Seq<char>)
    ensures
        lowered(s).len() == s.len(),
        forall|i: int|
            0 <= i < s.len() ==> (#[trigger] lowered(s)[i]) as int == (if 65 <= s[i] as int
                && s[i] as int <= 90 {
                s[i] as int + 32
            } else {
                s[i] as int
            }),
{
}

/// A text occurs in another one if and only if that one is something before it, the
/// text, and something behind it.
pub proof fn occurrences_split_the_text(needle: Seq<char>, s: Seq<char>)
    ensures
        occurs_in(needle, s) <==> exists|before: Seq<char>, behind: Seq<char>|
            s == #[trigger] (before + needle + behind),
{
    if occurs_in(needle, s) {
        let i = choose|i: int|
            0 <= i <= s.len() - needle.len() && #[trigger] s.subrange(i, i + needle.len())
                == needle;
        let before = s.take(i);
        let behind = s.skip(i + needle.len());
        assert(s =~= before + needle + behind) by {
            assert forall|k: int| 0 <= k < s.len() implies #[trigger] s[k] == (before + needle
                + behind)[k] by {
                if i <= k < i + needle.len() {
                    assert(s.subrange(i, i + needle.len())[k - i] == s[k]);
                }
            }
        }
    }
    if exists|before: Seq<char>, behind: Seq<char>| s == #[trigger] (before + needle + behind) {
        let (before, behind) = choose|before: Seq<char>, behind: Seq<char>|
            s == #[trigger] (before + needle + behind);
        let i = before.len() as int;
        assert(s.subrange(i, i + needle.len()) =~= needle);
    }
}

/// Lines end at line feeds: a text without one is one line, and a line feed cuts a
/// line off, without the carriage return before it.
pub proof fn lines_end_at_line_feeds(line: Seq<char>, rest: Seq<char>)
    requires
        !line.contains('\n'),
    ensures
        lines_of(line) == (if line.len() == 0 {
            Seq::<Seq<char>>::empty()
        } else {
            seq![line]
        }),
        lines_of(line.push('\n') + rest) == (if line.len() > 0 && line[line.len() - 1] == '\r' {
            seq![line.take(line.len() - 1)]
        } else {
            seq![line]
        }) + lines_of(rest),
{
    let all = line.push('\n') + rest;
    let n = line.len() as int;
    assert forall|i: int| 0 <= i < n implies #[trigger] line[i] != '\n' by {
        assert(line.contains(line[i]));
    }
    find_char_is(line, '\n', n);
    assert forall|i: int| 0 <= i < n implies #[trigger] all[i] != '\n' by {
        assert(all[i] == line[i]);
    }
    assert(all[n] == '\n');
    find_char_is(all, '\n', n);
    assert(all.take(n) =~= line);
    assert(all.skip(n + 1) =~= rest);
    if line.len() > 0 {
        assert(line.drop_last() =~= line.take(n - 1));
    }
}

/// Parts joined with more parts are the parts joined on each side with a separator
/// between the two; one part alone stands as it is.
pub proof fn joining_in_parts(first: Seq<Seq<char>>, second: Seq<Seq<char>>, sep: Seq<char>)
    requires
        first.len() > 0,
        second.len() > 0,
    ensures
        joined(first + second, sep) == joined(first, sep) + sep + joined(second, sep),
        joined(first.take(1), sep) == first[0],
        joined(Seq::empty(), sep).len() == 0,
    decreases second.len(),
{
    let all = first + second;
    if second.len() == 1 {
        assert(all.drop_last() =~= first);
        assert(all.last() == second[0]);
    } else {
        assert(all.drop_last() =~= first + second.drop_last());
        assert(all.last() == second.last());
        joining_in_parts(first, second.drop_last(), sep);
        assert(joined(all, sep) =~= joined(first, sep) + sep + joined(second, sep));
    }
}

proof fn word_len_is(s: Seq<char>, n: int)
    requires
        0 <= n <= s.len(),
        forall|i: int| 0 <= i < n ==> !white_space(#[trigger] s[i]),
        n < s.len() ==> white_space(s[n]),
    ensures
        word_len(s) == n,
    decreases n,
{
    if n > 0 {
        assert(!white_space(s[0]));
        assert forall|i: int| 0 <= i < n - 1 implies !white_space(
            #[trigger] s.drop_first()[i],
        ) by {
            assert(s.drop_first()[i] == s[i + 1]);
        }
        word_len_is(s.drop_first(), n - 1);
    }
}

/// A text of no white space is one word, and white space between two texts keeps
/// their words apart.
pub proof fn words_are_what_white_space_separates(
    first: Seq<char>,
    space: char,
    second: Seq<char>,
    word: Seq<char>,
)
    requires
        white_space(space),
        word.len() > 0,
        forall|i: int| 0 <= i < word.len() ==> !white_space(#[trigger] word[i]),
    ensures
        words_of(first.push(space) + second) == words_of(first) + words_of(second),
        words_of(word) == seq![word],
        words_of(Seq::empty()).len() == 0,
{
    words_in_parts(first, space, second);
    assert(!white_space(word[0]));
    assert(trimmed_start(word) == word);
    word_len_is(word, word.len() as int);
    let nothing = word.skip(word.len() as int);
    assert(trimmed_start(nothing).len() == 0);
    assert(words_of(nothing) =~= Seq::empty());
    assert(word.take(word.len() as int) =~= word);
    assert(words_of(word) =~= seq![word]);
}

proof fn words_in_parts(first: Seq<char>, space: char, second: Seq<char>)
    requires
        white_space(space),
    ensures
        words_of(first.push(space) + second) == words_of(first) + words_of(second),
    decreases first.len(),
{
    let all = first.push(space) + second;
    if first.len() == 0 {
        assert(all.drop_first() =~= second);
        assert(all[0] == space);
        assert(trimmed_start(all) == trimmed_start(second));
        assert(words_of(first) =~= Seq::empty());
        assert(words_of(all) =~= words_of(first) + words_of(second));
    } else if white_space(first[0]) {
        assert(all[0] == first[0]);
        assert(all.drop_first() =~= first.drop_first().push(space) + second);
        words_in_parts(first.drop_first(), space, second);
        assert(trimmed_start(all) == trimmed_start(all.drop_first()));
        assert(trimmed_start(first) == trimmed_start(first.drop_first()));
        assert(words_of(all) == words_of(all.drop_first()));
        assert(words_of(first) == words_of(first.drop_first()));
    } else {
        let n = word_len(first);
        word_len_bounds(first);
        word_ends(first);
        assert(all[0] == first[0]);
        assert forall|i: int| 0 <= i < n implies !white_space(#[trigger] all[i]) by {
            assert(all[i] == first[i]);
        }
        assert(white_space(all[n]));
        word_len_is(all, n);
        assert(all.take(n) =~= first.take(n));
        assert(all.skip(n) =~= first.skip(n).push(space) + second);
        words_in_parts(first.skip(n), space, second);
        assert(words_of(all) =~= words_of(first) + words_of(second));
    }
}

proof fn word_ends(s: Seq<char>)
    ensures
        forall|i: int| 0 <= i < word_len(s) ==> !white_space(#[trigger] s[i]),
        0 <= word_len(s) < s.len() ==> white_space(s[word_len(s)]),
    decreases s.len(),
{
    if s.len() > 0 && !white_space(s[0]) {
        word_ends(s.drop_first());
        word_len_bounds(s.drop_first());
        let n = word_len(s);
        assert forall|i: int| 0 <= i < n implies !white_space(#[trigger] s[i]) by {
            if i > 0 {
                assert(s.drop_first()[i - 1] == s[i]);
            }
        }
        if n < s.len() {
            assert(s.drop_first()[n - 1] == s[n]);
        }
    }
}

/// The value of a digit of the bases up to sixteen, and -1 of any other character.
pub open spec fn digit_value(c: char) -> int {
    let n = c as int;
    if 48 <= n <= 57 {
        n - 48
    } else if 97 <= n <= 102 {
        n - 87
    } else {
        -1
    }
}

/// The number that digits of a base stand for.
pub open spec fn number_of(s: Seq<char>, base: int) -> int
    decreases s.len(),
{
    if s.len() == 0 {
        0
    } else {
        number_of(s.drop_last(), base) * base + digit_value(s.last())
    }
}

/// Decimal digits read back as the number that they were written for. All of them
/// are digits below ten, and the first one is zero for zero alone.
pub proof fn decimal_reads_back(n: nat)
    ensures
        number_of(decimal(n), 10) == n,
        decimal(n).len() > 0,
        forall|i: int|
            0 <= i < decimal(n).len() ==> 0 <= digit_value(#[trigger] decimal(n)[i]) < 10,
        n > 0 ==> digit_value(decimal(n)[0]) > 0,
        n == 0 ==> decimal(n).len() == 1,
    decreases n,
{
    reveal_with_fuel(number_of, 2);
    let last = digit((n % 10) as int);
    assert(digit_value(last) == n % 10);
    if n >= 10 {
        decimal_reads_back(n / 10);
        assert(decimal(n).drop_last() =~= decimal(n / 10));
        assert(decimal(n)[0] == decimal(n / 10)[0]);
    } else {
        assert(decimal(n).drop_last() =~= Seq::empty());
    }
}

/// Whether a text is a number written in decimal: digits below ten, and no zero before
/// another one.
pub open spec fn plain_decimal(s: Seq<char>) -> bool {
    &&& s.len() > 0
    &&& forall|i: int| 0 <= i < s.len() ==> 0 <= digit_value(#[trigger] s[i]) < 10
    &&& s.len() > 1 ==> digit_value(s[0]) > 0
}

/// A number has one way to be written in decimal, and that is how it is written.
pub proof fn decimal_is_plain(n: nat)
    ensures
        plain_decimal(decimal(n)),
        number_of(decimal(n), 10) == n,
{
    decimal_reads_back(n);
}

/// Sixteen hexadecimal digits read back as the number that they were written for.
/// All of them are lowercase digits below sixteen.
pub proof fn hex_reads_back(n: u64)
    ensures
        hex(n as nat, 16).len() == 16,
        number_of(hex(n as nat, 16), 16) == n,
        forall|i: int|
            0 <= i < 16 ==> 0 <= digit_value(#[trigger] hex(n as nat, 16)[i]) < 16,
{
    hex_digits(n as nat, 16);
    reveal_with_fuel(sixteens, 17);
    assert(sixteens(16) == 0x1_0000_0000_0000_0000);
}

/// Sixteen to the given power.
spec fn sixteens(width: nat) -> nat
    decreases width,
{
    if width == 0 {
        1
    } else {
        16 * sixteens((width - 1) as nat)
    }
}

proof fn hex_digits(n: nat, width: nat)
    ensures
        hex(n, width).len() == width,
        n < sixteens(width) ==> number_of(hex(n, width), 16) == n,
        forall|i: int| 0 <= i < width ==> 0 <= digit_value(#[trigger] hex(n, width)[i]) < 16,
    decreases width,
{
    if width > 0 {
        let rest = (width - 1) as nat;
        hex_digits(n / 16, rest);
        assert(digit_value(digit((n % 16) as int)) == n % 16);
        assert(hex(n, width).drop_last() =~= hex(n / 16, rest));
        assert(hex(n, width).last() == digit((n % 16) as int));
        assert forall|i: int| 0 <= i < width implies 0 <= digit_value(
            #[trigger] hex(n, width)[i],
        ) < 16 by {
            if i < rest {
                assert(hex(n, width)[i] == hex(n / 16, rest)[i]);
            }
        }
    }
}

/// The first place of a character splits a text so that it is not in the first
/// part.
pub proof fn the_first_place_splits(front: Seq<char>, c: char, back: Seq<char>)
    requires
        !front.contains(c),
    ensures
        find_char(front.push(c) + back, c) == front.len(),
        find_char(front, c) == front.len(),
{
    let all = front.push(c) + back;
    let n = front.len() as int;
    assert forall|i: int| 0 <= i < n implies #[trigger] front[i] != c by {
        assert(front.contains(front[i]));
    }
    assert forall|i: int| 0 <= i < n implies #[trigger] all[i] != c by {
        assert(all[i] == front[i]);
    }
    assert(all[n] == c);
    find_char_is(all, c, n);
    find_char_is(front, c, n);
}

} // verus!
