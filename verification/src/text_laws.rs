//! What holds of texts: of numbers written and read, of words and of lines.

use vstd::prelude::*;
use vstd::string::*;

use crate::text::{
    after_prefix, all_digits, decimal, digit, digits_value, is_space, joined, lex_le, line_len,
    parsed_i32, parsed_u32, signed_decimal, trimmed, trimmed_back, trimmed_front, word_len, words,
};

verus! {

proof fn lemma_digit(d: nat)
    requires
        d < 10,
    ensures
        digit(d).len() == 1,
        digit(d)[0] as u32 == '0' as u32 + d,
{
    reveal_strlit("0");
    reveal_strlit("1");
    reveal_strlit("2");
    reveal_strlit("3");
    reveal_strlit("4");
    reveal_strlit("5");
    reveal_strlit("6");
    reveal_strlit("7");
    reveal_strlit("8");
    reveal_strlit("9");
}

/// A number that is written out is read back as it was: it has digits only, and its value is
/// the number. It does not start with a zero, unless it is nothing but one.
pub proof fn law_written_numbers_are_read_back(n: nat)
    ensures
        all_digits(decimal(n)),
        decimal(n).len() > 0,
        digits_value(decimal(n)) == n,
        n > 0 ==> decimal(n)[0] != '0',
        n <= u32::MAX ==> parsed_u32(decimal(n)) == Some(n as u32),
    decreases n,
{
    if n < 10 {
        lemma_digit(n);
        let s = decimal(n);
        assert(s =~= seq![s[0]]);
        assert(s.drop_last() =~= Seq::<char>::empty());
        assert(digits_value(s.drop_last()) == 0);
        assert(s.last() == s[0]);
    } else {
        law_written_numbers_are_read_back(n / 10);
        lemma_digit(n % 10);
        let front = decimal(n / 10);
        let back = digit(n % 10);
        let s = decimal(n);
        assert(s == front + back);
        assert(s.drop_last() =~= front);
        assert(s.last() == back[0]);
        assert(s[0] == front[0]);
        assert forall|i: int| 0 <= i < s.len() implies crate::text::is_digit(#[trigger] s[i]) by {
            if i < front.len() {
                assert(s[i] == front[i]);
            } else {
                assert(s[i] == back[0]);
            }
        }
    }
    assert(decimal(n)[0] != '+') by {
        assert(crate::text::is_digit(decimal(n)[0]));
    }
}

/// A number below zero is written with a minus before it, and read back as it was.
pub proof fn law_written_signs_are_read_back(n: int)
    requires
        i32::MIN <= n <= i32::MAX,
    ensures
        parsed_i32(signed_decimal(n)) == Some(n as i32),
        n < 0 ==> signed_decimal(n)[0] == '-' && signed_decimal(n).skip(1) == decimal((-n) as nat),
        n >= 0 ==> signed_decimal(n) == decimal(n as nat),
{
    reveal_strlit("-");
    if n < 0 {
        law_written_numbers_are_read_back((-n) as nat);
        assert(signed_decimal(n).skip(1) =~= decimal((-n) as nat));
    } else {
        law_written_numbers_are_read_back(n as nat);
        assert(crate::text::is_digit(decimal(n as nat)[0]));
    }
}

/// A plus before a number changes nothing; without a digit, and with anything that is no
/// digit, there is no number.
pub proof fn law_only_digits_are_numbers(s: Seq<char>, i: int)
    ensures
        s.len() > 0 && all_digits(s) ==> parsed_u32(seq!['+'] + s) == parsed_u32(s),
        parsed_u32(Seq::empty()) is None,
        0 < i < s.len() && !('0' as u32 <= s[i] as u32 <= '9' as u32) ==> parsed_u32(s) is None
            && parsed_i32(s) is None,
        s.len() > 0 && s[0] != '+' && !('0' as u32 <= s[0] as u32 <= '9' as u32) ==> parsed_u32(s)
            is None,
{
    let plus = seq!['+'] + s;
    assert(plus.skip(1) =~= s);
    if s.len() > 0 && all_digits(s) {
        assert(crate::text::is_digit(s[0]));
    }
    if 0 < i < s.len() && !('0' as u32 <= s[i] as u32 <= '9' as u32) {
        assert(s.skip(1)[i - 1] == s[i]);
        assert(!crate::text::is_digit(s.skip(1)[i - 1]));
        assert(!crate::text::is_digit(s[i]));
    }
    if s.len() > 0 && s[0] != '+' && !('0' as u32 <= s[0] as u32 <= '9' as u32) {
        assert(!crate::text::is_digit(s[0]));
    }
}

/// Spaces are the white space of Unicode: tab to carriage return, the space, the next line,
/// the space that does not break, and the wide and narrow ones beyond Latin.
pub proof fn law_white_space_is_space(c: char)
    ensures
        ({
            let u = c as u32;
            is_space(c) <==> u == 9 || u == 10 || u == 11 || u == 12 || u == 13 || u == 32 || u
                == 0x85 || u == 0xa0 || u == 0x1680 || (u >= 0x2000 && u <= 0x200a) || u == 0x2028
                || u == 0x2029 || u == 0x202f || u == 0x205f || u == 0x3000
        }),
{
}

proof fn lemma_word_stops(w: Seq<char>, rest: Seq<char>)
    requires
        forall|i: int| 0 <= i < w.len() ==> !is_space(#[trigger] w[i]),
        rest.len() == 0 || is_space(rest[0]),
    ensures
        word_len(w + rest) == w.len(),
    decreases w.len(),
{
    let s = w + rest;
    if w.len() == 0 {
        assert(s =~= rest);
    } else {
        assert(s[0] == w[0]);
        assert(s.skip(1) =~= w.skip(1) + rest);
        assert forall|i: int| 0 <= i < w.skip(1).len() implies !is_space(#[trigger] w.skip(1)[i]) by {
            assert(w.skip(1)[i] == w[i + 1]);
        }
        lemma_word_stops(w.skip(1), rest);
    }
}

/// A text is split into words at its spaces: a word and a space before other text is the
/// word and then the words of the other text; a space before a text changes nothing.
pub proof fn law_words_end_at_spaces(w: Seq<char>, space: char, rest: Seq<char>)
    requires
        w.len() > 0,
        forall|i: int| 0 <= i < w.len() ==> !is_space(#[trigger] w[i]),
        is_space(space),
    ensures
        words(w + seq![space] + rest) == seq![w] + words(rest),
        words(w) == seq![w],
        words(seq![space] + rest) == words(rest),
        words(Seq::empty()).len() == 0,
{
    let gap = seq![space] + rest;
    let s = w + seq![space] + rest;
    assert(s =~= w + gap);
    lemma_word_stops(w, gap);
    assert(s[0] == w[0]);
    assert(s.take(w.len() as int) =~= w);
    assert(s.skip(w.len() as int) =~= gap);
    assert(gap.skip(1) =~= rest);
    assert(words(gap) == words(rest));
    lemma_word_stops(w, Seq::empty());
    assert(w + Seq::<char>::empty() =~= w);
    assert(w.take(w.len() as int) =~= w);
    assert(w.skip(w.len() as int) =~= Seq::<char>::empty());
    assert(words(Seq::<char>::empty()) =~= Seq::<Seq<char>>::empty());
    assert(words(w) =~= seq![w]);
}

/// Texts are ordered by the first character in which they differ; where one ends first, it
/// comes first.
pub proof fn law_texts_are_ordered_by_the_first_difference(
    common: Seq<char>,
    a: char,
    b: char,
    x: Seq<char>,
    y: Seq<char>,
)
    requires
        a != b,
    ensures
        lex_le(common + seq![a] + x, common + seq![b] + y) <==> (a as u32) < (b as u32),
        lex_le(common, common + x),
        x.len() > 0 ==> !lex_le(common + x, common),
    decreases common.len(),
{
    let left = common + seq![a] + x;
    let right = common + seq![b] + y;
    if common.len() == 0 {
        assert(left[0] == a && right[0] == b);
        assert(common + x =~= x);
    } else {
        let rest = common.skip(1);
        assert(left.skip(1) =~= rest + seq![a] + x);
        assert(right.skip(1) =~= rest + seq![b] + y);
        assert((common + x).skip(1) =~= rest + x);
        law_texts_are_ordered_by_the_first_difference(rest, a, b, x, y);
    }
}

proof fn lemma_trimmed_front(s: Seq<char>) -> (n: int)
    ensures
        0 <= n <= s.len(),
        trimmed_front(s) == s.skip(n),
        forall|i: int| 0 <= i < n ==> is_space(#[trigger] s[i]),
        n < s.len() ==> !is_space(s[n]),
    decreases s.len(),
{
    if s.len() > 0 && is_space(s[0]) {
        let m = lemma_trimmed_front(s.skip(1));
        assert(s.skip(1).skip(m) =~= s.skip(m + 1));
        assert forall|i: int| 0 <= i < m + 1 implies is_space(#[trigger] s[i]) by {
            if i > 0 {
                assert(s.skip(1)[i - 1] == s[i]);
            }
        }
        if m + 1 < s.len() {
            assert(s.skip(1)[m] == s[m + 1]);
        }
        m + 1
    } else {
        assert(s.skip(0) =~= s);
        0
    }
}

proof fn lemma_trimmed_back(s: Seq<char>) -> (n: int)
    ensures
        0 <= n <= s.len(),
        trimmed_back(s) == s.take(n),
        forall|i: int| n <= i < s.len() ==> is_space(#[trigger] s[i]),
        n > 0 ==> !is_space(s[n - 1]),
    decreases s.len(),
{
    if s.len() > 0 && is_space(s.last()) {
        let m = lemma_trimmed_back(s.drop_last());
        assert(s.drop_last().take(m) =~= s.take(m));
        assert forall|i: int| m <= i < s.len() implies is_space(#[trigger] s[i]) by {
            if i < s.len() - 1 {
                assert(s.drop_last()[i] == s[i]);
            }
        }
        if m > 0 {
            assert(s.drop_last()[m - 1] == s[m - 1]);
        }
        m
    } else {
        assert(s.take(s.len() as int) =~= s);
        s.len() as int
    }
}

/// Trimming takes the spaces off both ends and nothing else.
pub proof fn law_trimming_takes_only_spaces_at_the_ends(s: Seq<char>)
    ensures
        trimmed(s).len() > 0 ==> !is_space(trimmed(s)[0]) && !is_space(trimmed(s).last()),
        exists|from: int, to: int|
            {
                &&& 0 <= from <= to <= s.len()
                &&& trimmed(s) == #[trigger] s.subrange(from, to)
                &&& forall|i: int| 0 <= i < from ==> is_space(#[trigger] s[i])
                &&& forall|i: int| to <= i < s.len() ==> is_space(#[trigger] s[i])
            },
{
    let from = lemma_trimmed_front(s);
    let rest = s.skip(from);
    let n = lemma_trimmed_back(rest);
    let to = from + n;
    assert(rest.take(n) =~= s.subrange(from, to));
    assert forall|i: int| to <= i < s.len() implies is_space(#[trigger] s[i]) by {
        assert(rest[i - from] == s[i]);
    }
    if n > 0 {
        assert(rest[0] == s[from]);
        assert(rest[n - 1] == s[to - 1]);
    }
}

/// Parts are joined in order, with the separator between any two.
pub proof fn law_parts_are_joined_in_order(
    parts: Seq<Seq<char>>,
    part: Seq<char>,
    separator: Seq<char>,
)
    ensures
        joined(Seq::empty(), separator) == Seq::<char>::empty(),
        joined(seq![part], separator) == part,
        parts.len() > 0 ==> joined(parts.push(part), separator) == joined(parts, separator)
            + separator + part,
{
    assert(parts.push(part).drop_last() =~= parts);
}

proof fn lemma_line_len(line: Seq<char>, rest: Seq<char>)
    requires
        forall|i: int| 0 <= i < line.len() ==> #[trigger] line[i] != '\n',
        rest.len() == 0 || rest[0] == '\n',
    ensures
        line_len(line + rest) == line.len(),
    decreases line.len(),
{
    let s = line + rest;
    if line.len() == 0 {
        assert(s =~= rest);
    } else {
        assert(s[0] == line[0]);
        assert(s.skip(1) =~= line.skip(1) + rest);
        assert forall|i: int| 0 <= i < line.skip(1).len() implies #[trigger] line.skip(1)[i]
            != '\n' by {
            assert(line.skip(1)[i] == line[i + 1]);
        }
        lemma_line_len(line.skip(1), rest);
    }
}

/// What follows a prefix is looked for line by line: the first line that starts with the
/// prefix gives what is behind it, and any other line is passed over.
pub proof fn law_the_first_line_with_the_prefix_counts(
    line: Seq<char>,
    rest: Seq<char>,
    prefix: Seq<char>,
)
    requires
        forall|i: int| 0 <= i < line.len() ==> #[trigger] line[i] != '\n',
        line.len() > 0,
        line.last() != '\r',
    ensures
        prefix.is_prefix_of(line) ==> after_prefix(line + seq!['\n'] + rest, prefix) == Some(
            line.skip(prefix.len() as int),
        ) && after_prefix(line, prefix) == Some(line.skip(prefix.len() as int)),
        !prefix.is_prefix_of(line) ==> after_prefix(line + seq!['\n'] + rest, prefix)
            == after_prefix(rest, prefix) && after_prefix(line, prefix) is None,
        prefix.is_prefix_of(line) ==> after_prefix(line + seq!['\r', '\n'] + rest, prefix) == Some(
            line.skip(prefix.len() as int),
        ),
        after_prefix(Seq::empty(), prefix) is None,
{
    let n = line.len() as int;
    let s = line + seq!['\n'] + rest;
    assert(s =~= line + (seq!['\n'] + rest));
    lemma_line_len(line, seq!['\n'] + rest);
    assert(s.take(n) =~= line);
    assert(s.skip(n + 1) =~= rest);
    assert(prefix.is_prefix_of(line) <==> prefix.len() <= line.len() && line.take(
        prefix.len() as int,
    ) =~= prefix);
    lemma_line_len(line, Seq::empty());
    assert(line + Seq::<char>::empty() =~= line);
    assert(line.take(n) =~= line);
    let long = line.push('\r');
    let t = line + seq!['\r', '\n'] + rest;
    assert(t =~= long + (seq!['\n'] + rest));
    assert forall|i: int| 0 <= i < long.len() implies #[trigger] long[i] != '\n' by {
        if i < n {
            assert(long[i] == line[i]);
        }
    }
    lemma_line_len(long, seq!['\n'] + rest);
    assert(t.take(n + 1) =~= long);
    assert(long.drop_last() =~= line);
}

} // verus!
