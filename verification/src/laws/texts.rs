//! Trimming, splitting, numerals and the order of texts.

use vstd::prelude::*;

use crate::text::{
    begins, blank, decimal_of, digits_value, first_at, is_white, lemma_first_from, occurs_at,
    split_at_char, text_le, trimmed, trimmed_end, trimmed_start, unsigned_value, words,
};

verus! {

/// Whether every character of a text is white space.
pub open spec fn all_white(s: Seq<char>) -> bool {
    forall|i: int| 0 <= i < s.len() ==> is_white(#[trigger] s[i])
}

/// Spaces, tabs, line breaks and the blanks of Unicode are white space; nothing that is printed
/// is.
pub proof fn law_white_space(c: char)
    ensures
        is_white(' ') && is_white('\t') && is_white('\n') && is_white('\r'),
        is_white('\u{b}') && is_white('\u{c}') && is_white('\u{85}') && is_white('\u{a0}'),
        is_white('\u{1680}') && is_white('\u{2028}') && is_white('\u{2029}'),
        is_white('\u{202f}') && is_white('\u{205f}') && is_white('\u{3000}'),
        '\u{2000}' <= c <= '\u{200a}' ==> is_white(c),
        '!' <= c <= '~' ==> !is_white(c),
        '\u{a1}' <= c <= '\u{167f}' ==> !is_white(c),
        c > '\u{3000}' ==> !is_white(c),
{
}

/// Whether a text is not empty and neither begins nor ends with white space.
pub open spec fn tidy(s: Seq<char>) -> bool {
    s.len() > 0 && !is_white(s[0]) && !is_white(s[s.len() - 1])
}

/// Whether a text ends with another.
pub open spec fn ends_with(s: Seq<char>, tail: Seq<char>) -> bool {
    s.len() >= tail.len() && s.skip(s.len() - tail.len()) == tail
}

/// Whether a text stands somewhere in another.
pub open spec fn mentions(s: Seq<char>, part: Seq<char>) -> bool {
    exists|i: int| #[trigger] occurs_at(s, part, i)
}

/// What a text is made of stands in it.
pub proof fn lemma_mentions(a: Seq<char>, part: Seq<char>, b: Seq<char>)
    ensures
        mentions(a + part + b, part),
{
    assert((a + part + b).subrange(a.len() as int, (a.len() + part.len()) as int) =~= part);
    assert(occurs_at(a + part + b, part, a.len() as int));
}

/// A text ends with its last part.
pub proof fn lemma_ends_with(a: Seq<char>, tail: Seq<char>)
    ensures
        ends_with(a + tail, tail),
{
    assert((a + tail).skip(a.len() as int) =~= tail);
}

proof fn lemma_trim_start(before: Seq<char>, t: Seq<char>)
    requires
        all_white(before),
    ensures
        trimmed_start(before + t) == trimmed_start(t),
    decreases before.len(),
{
    if before.len() == 0 {
        assert(before + t =~= t);
    } else {
        let rest = before.skip(1);
        assert((before + t).skip(1) =~= rest + t);
        assert((before + t)[0] == before[0]);
        assert(all_white(rest)) by {
            assert forall|i: int| 0 <= i < rest.len() implies is_white(#[trigger] rest[i]) by {
                assert(rest[i] == before[i + 1]);
            }
        }
        lemma_trim_start(rest, t);
    }
}

proof fn lemma_trim_end(t: Seq<char>, after: Seq<char>)
    requires
        all_white(after),
    ensures
        trimmed_end(t + after) == trimmed_end(t),
    decreases after.len(),
{
    if after.len() == 0 {
        assert(t + after =~= t);
    } else {
        let rest = after.drop_last();
        assert((t + after).drop_last() =~= t + rest);
        assert((t + after).last() == after[after.len() - 1]);
        assert(all_white(rest)) by {
            assert forall|i: int| 0 <= i < rest.len() implies is_white(#[trigger] rest[i]) by {
                assert(rest[i] == after[i]);
            }
        }
        lemma_trim_end(t, rest);
    }
}

/// Trimming takes the white space before and after a text, and nothing else.
pub proof fn law_trimming_leaves_the_text(before: Seq<char>, t: Seq<char>, after: Seq<char>)
    requires
        all_white(before),
        tidy(t),
        all_white(after),
    ensures
        trimmed(before + t + after) == t,
        !blank(before + t + after),
{
    assert(before + t + after =~= before + (t + after));
    lemma_trim_start(before, t + after);
    assert((t + after)[0] == t[0]);
    assert(trimmed_start(t + after) == t + after);
    lemma_trim_end(t, after);
    assert(t.last() == t[t.len() - 1]);
    assert(trimmed_end(t) == t);
}

/// A text that neither begins nor ends with white space is trimmed already.
pub proof fn law_tidy_texts_are_trimmed(t: Seq<char>)
    requires
        tidy(t),
    ensures
        trimmed(t) == t,
        !blank(t),
{
    let none = Seq::<char>::empty();
    law_trimming_leaves_the_text(none, t, none);
    assert(none + t + none =~= t);
}

/// A text is blank if and only if it holds nothing but white space.
pub proof fn law_blank_texts_are_white(s: Seq<char>)
    ensures
        blank(s) <==> all_white(s),
    decreases s.len(),
{
    if all_white(s) {
        lemma_trim_start(s, Seq::empty());
        assert(s + Seq::<char>::empty() =~= s);
    } else {
        lemma_white_runs(s);
        let (i, j) = choose|i: int, j: int|
            0 <= i <= j < s.len() && all_white(s.take(i)) && !is_white(s[i]) && !is_white(s[j])
                && all_white(#[trigger] s.skip(j + 1)) && #[trigger] s.take(i).len() == i;
        let t = s.subrange(i, j + 1);
        assert(s.take(i) + t + s.skip(j + 1) =~= s);
        assert(t[0] == s[i] && t[t.len() - 1] == s[j]);
        law_trimming_leaves_the_text(s.take(i), t, s.skip(j + 1));
    }
}

proof fn lemma_white_runs(s: Seq<char>)
    requires
        !all_white(s),
    ensures
        exists|i: int, j: int|
            0 <= i <= j < s.len() && all_white(s.take(i)) && !is_white(s[i]) && !is_white(s[j])
                && all_white(#[trigger] s.skip(j + 1)) && #[trigger] s.take(i).len() == i,
{
    let k = choose|k: int| 0 <= k < s.len() && !is_white(#[trigger] s[k]);
    lemma_first_dark(s, k);
    lemma_last_dark(s, k);
    let i = choose|i: int| 0 <= i <= k && !is_white(s[i]) && all_white(#[trigger] s.take(i));
    let j = choose|j: int| k <= j < s.len() && !is_white(s[j]) && all_white(#[trigger] s.skip(j + 1));
    assert(s.take(i).len() == i);
    assert(all_white(s.skip(j + 1)));
}

proof fn lemma_first_dark(s: Seq<char>, k: int)
    requires
        0 <= k < s.len(),
        !is_white(s[k]),
    ensures
        exists|i: int| 0 <= i <= k && !is_white(s[i]) && all_white(#[trigger] s.take(i)),
    decreases k,
{
    if all_white(s.take(k)) {
    } else {
        let head = s.take(k);
        let m = choose|m: int| 0 <= m < head.len() && !is_white(#[trigger] head[m]);
        assert(head[m] == s[m]);
        lemma_first_dark(s, m);
    }
}

proof fn lemma_last_dark(s: Seq<char>, k: int)
    requires
        0 <= k < s.len(),
        !is_white(s[k]),
    ensures
        exists|j: int| k <= j < s.len() && !is_white(s[j]) && all_white(#[trigger] s.skip(j + 1)),
    decreases s.len() - k,
{
    if all_white(s.skip(k + 1)) {
    } else {
        let tail = s.skip(k + 1);
        let m = choose|m: int| 0 <= m < tail.len() && !is_white(#[trigger] tail[m]);
        assert(tail[m] == s[m + k + 1]);
        lemma_last_dark(s, m + k + 1);
    }
}

/// Whether a character stands nowhere in a text.
pub open spec fn free_of(s: Seq<char>, c: char) -> bool {
    forall|i: int| 0 <= i < s.len() ==> #[trigger] s[i] != c
}

/// A text without the separator is one piece.
pub proof fn law_whole_texts_are_one_piece(s: Seq<char>, sep: char)
    requires
        free_of(s, sep),
    ensures
        split_at_char(s, sep) == seq![s],
    decreases s.len(),
{
    if s.len() > 0 {
        let rest = s.drop_last();
        assert(free_of(rest, sep)) by {
            assert forall|i: int| 0 <= i < rest.len() implies #[trigger] rest[i] != sep by {
                assert(rest[i] == s[i]);
            }
        }
        law_whole_texts_are_one_piece(rest, sep);
        assert(s[s.len() - 1] != sep);
        assert(rest.push(s.last()) =~= s);
        assert(split_at_char(s, sep) =~= seq![s]);
    } else {
        assert(s =~= Seq::<char>::empty());
    }
}

proof fn lemma_split_some(s: Seq<char>, sep: char)
    ensures
        split_at_char(s, sep).len() > 0,
    decreases s.len(),
{
    if s.len() > 0 {
        lemma_split_some(s.drop_last(), sep);
    }
}

/// The pieces of two texts with the separator between them are the pieces of the one, and
/// then those of the other.
pub proof fn law_pieces_of_both_sides(a: Seq<char>, sep: char, b: Seq<char>)
    ensures
        split_at_char(a.push(sep) + b, sep) == split_at_char(a, sep) + split_at_char(b, sep),
    decreases b.len(),
{
    let s = a.push(sep) + b;
    let left = split_at_char(a, sep);
    if b.len() == 0 {
        assert(s =~= a.push(sep));
        assert(s.drop_last() =~= a);
        assert(split_at_char(s, sep) =~= left + split_at_char(b, sep));
    } else {
        let rest = b.drop_last();
        assert(s.drop_last() =~= a.push(sep) + rest);
        assert(s.last() == b.last());
        law_pieces_of_both_sides(a, sep, rest);
        lemma_split_some(rest, sep);
        assert(split_at_char(s, sep) =~= left + split_at_char(b, sep));
    }
}

/// The words of two texts with white space between them are the words of the one, and then
/// those of the other.
pub proof fn law_words_of_both_sides(a: Seq<char>, c: char, b: Seq<char>)
    requires
        is_white(c),
    ensures
        words(a.push(c) + b) == words(a) + words(b),
    decreases b.len(),
{
    let s = a.push(c) + b;
    if b.len() == 0 {
        assert(s =~= a.push(c));
        assert(s.drop_last() =~= a);
        assert(words(s) =~= words(a) + words(b));
    } else {
        let rest = b.drop_last();
        assert(s.drop_last() =~= a.push(c) + rest);
        assert(s.last() == b.last());
        law_words_of_both_sides(a, c, rest);
        crate::text::lemma_words_nonempty(rest);
        if rest.len() > 0 {
            assert((a.push(c) + rest).last() == rest.last());
        } else {
            assert((a.push(c) + rest).last() == c);
        }
        assert(words(s) =~= words(a) + words(b));
    }
}

/// The numeral of a number reads as that number: it is not empty, holds digits alone, and does
/// not begin with a zero unless it is zero.
pub proof fn law_numerals_read_back(n: nat)
    ensures
        digits_value(decimal_of(n)) == Some(n),
        decimal_of(n).len() > 0,
        forall|i: int| 0 <= i < decimal_of(n).len() ==> '0' <= #[trigger] decimal_of(n)[i] <= '9',
        n > 0 ==> decimal_of(n)[0] != '0',
    decreases n,
{
    let s = decimal_of(n);
    if n < 10 {
        assert(s.drop_last() =~= Seq::<char>::empty());
        assert(digits_value(s.drop_last()) == Some(0nat));
    } else {
        law_numerals_read_back(n / 10);
        assert(s.drop_last() =~= decimal_of(n / 10));
        assert(s[0] == decimal_of(n / 10)[0]);
        assert forall|i: int| 0 <= i < s.len() implies '0' <= #[trigger] s[i] <= '9' by {
            if i < s.len() - 1 {
                assert(s[i] == decimal_of(n / 10)[i]);
            }
        }
    }
}

/// An unsigned number is read from its numeral, with or without a plus sign, unless it is too
/// large.
pub proof fn law_unsigned_numbers_are_read(n: nat, max: nat)
    ensures
        unsigned_value(decimal_of(n), max) == if n <= max {
            Some(n)
        } else {
            None
        },
        unsigned_value(seq!['+'] + decimal_of(n), max) == unsigned_value(decimal_of(n), max),
{
    law_numerals_read_back(n);
    assert(decimal_of(n)[0] != '+');
    assert((seq!['+'] + decimal_of(n)).skip(1) =~= decimal_of(n));
}

/// A text with a character that is no digit is no unsigned number, but for a plus sign in
/// front.
pub proof fn law_other_texts_are_no_numbers(s: Seq<char>, max: nat, i: int)
    requires
        0 <= i < s.len(),
        !('0' <= s[i] <= '9'),
        i > 0 || s[0] != '+',
    ensures
        unsigned_value(s, max) is None,
{
    if s[0] == '+' {
        let body = s.skip(1);
        assert(body[i - 1] == s[i]);
        lemma_no_digits(body, i - 1);
    } else {
        lemma_no_digits(s, i);
    }
}

proof fn lemma_no_digits(s: Seq<char>, i: int)
    requires
        0 <= i < s.len(),
        !('0' <= s[i] <= '9'),
    ensures
        digits_value(s) is None,
    decreases s.len(),
{
    if i < s.len() - 1 {
        assert(s.drop_last()[i] == s[i]);
        lemma_no_digits(s.drop_last(), i);
    }
}

/// Texts are ordered by the first character in which they differ, and a text comes before what
/// goes on from it.
pub proof fn law_texts_are_ordered_by_characters(
    head: Seq<char>,
    c: char,
    x: Seq<char>,
    d: char,
    y: Seq<char>,
)
    ensures
        c != d ==> (text_le(head.push(c) + x, head.push(d) + y) <==> c < d),
        text_le(head, head.push(c) + x),
        !text_le(head.push(c) + x, head),
        text_le(head, head),
    decreases head.len(),
{
    let (a, b) = (head.push(c) + x, head.push(d) + y);
    if head.len() == 0 {
        assert(a[0] == c && b[0] == d);
    } else {
        let rest = head.skip(1);
        assert(a.skip(1) =~= rest.push(c) + x);
        assert(b.skip(1) =~= rest.push(d) + y);
        law_texts_are_ordered_by_characters(rest, c, x, d, y);
    }
}

/// What is found first is where the needle first stands.
pub proof fn law_first_is_first(s: Seq<char>, needle: Seq<char>, i: int)
    requires
        occurs_at(s, needle, i),
        forall|j: int| 0 <= j < i ==> !#[trigger] occurs_at(s, needle, j),
    ensures
        first_at(s, needle) == Some(i),
{
    lemma_first_from(s, needle, 0);
    assert(occurs_at(s, needle, i));
}

/// A needle that stands nowhere is not found.
pub proof fn law_absent_is_not_found(s: Seq<char>, needle: Seq<char>)
    requires
        forall|j: int| !#[trigger] occurs_at(s, needle, j),
    ensures
        first_at(s, needle) is None,
{
    lemma_first_from(s, needle, 0);
}

/// A text begins with another if and only if it is that text and something more.
pub proof fn law_begins_is_a_head(s: Seq<char>, head: Seq<char>)
    ensures
        begins(s, head) <==> exists|tail: Seq<char>| s == #[trigger] (head + tail),
{
    if begins(s, head) {
        assert(s =~= head + s.skip(head.len() as int)) by {
            let part = s.subrange(0, head.len() as int);
            assert forall|i: int| 0 <= i < head.len() implies s[i] == head[i] by {
                assert(part[i] == s[i]);
            }
        }
    }
    assert forall|tail: Seq<char>| s == #[trigger] (head + tail) implies begins(s, head) by {
        assert((head + tail).subrange(0, head.len() as int) =~= head);
    }
}

} // verus!
