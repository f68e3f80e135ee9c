//! Fitting text into a widget's cell: escaping, truncating, wrapping, and the display text
//! of values.

use vstd::prelude::*;

use crate::json::{compact_json, number_text, numeral, printed_tree, stored_tree, Json, JsonView};
use crate::text::{
    chars_of, decimal, decimal_of, is_white, lemma_words_nonempty, split_at_char, split_char,
    split_whitespace, text_of, texts, words,
};

verus! {

// ---- escaping ------------------------------------------------------------

/// How one character is written inside an XML document.
pub open spec fn entity(c: char) -> Seq<char> {
    if c == '&' {
        "&amp;"@
    } else if c == '<' {
        "&lt;"@
    } else if c == '>' {
        "&gt;"@
    } else if c == '"' {
        "&quot;"@
    } else if c == '\'' {
        "&apos;"@
    } else {
        seq![c]
    }
}

/// A text with the five special characters of XML escaped.
pub open spec fn escaped(s: Seq<char>) -> Seq<char>
    decreases s.len(),
{
    if s.len() == 0 {
        Seq::empty()
    } else {
        escaped(s.drop_last()) + entity(s.last())
    }
}

/// Escapes the five special characters of XML.
pub fn escape_xml(s: &str) -> (r: String)
    ensures
        r@ == escaped(s@),
{
    let chars = chars_of(s);
    let mut out = String::new();
    assert(chars@.take(0) =~= Seq::<char>::empty());
    for i in 0..chars.len()
        invariant
            out@ == escaped(chars@.take(i as int)),
    {
        assert(chars@.take(i + 1).drop_last() =~= chars@.take(i as int));
        let ghost before = out@;
        let c = chars[i];
        if c == '&' {
            out.append("&amp;");
        } else if c == '<' {
            out.append("&lt;");
        } else if c == '>' {
            out.append("&gt;");
        } else if c == '"' {
            out.append("&quot;");
        } else if c == '\'' {
            out.append("&apos;");
        } else {
            out.push(c);
            assert(out@ =~= before + seq![c]);
        }
    }
    assert(chars@.take(chars@.len() as int) =~= chars@);
    out
}

/// Whether one of the five entities starts at position `i`.
pub open spec fn entity_at(t: Seq<char>, i: int) -> bool {
    exists|c: char|
        (c == '&' || c == '<' || c == '>' || c == '"' || c == '\'') && i + (
        #[trigger] entity(c)).len() <= t.len() && t.subrange(i, i + entity(c).len()) == entity(c)
}

/// Whether a text holds no markup: no angle bracket, no quote, and no ampersand but at the
/// start of an entity.
pub open spec fn free_of_markup(t: Seq<char>) -> bool {
    forall|i: int|
        0 <= i < t.len() ==> (#[trigger] t[i]) != '<' && t[i] != '>' && t[i] != '"' && t[i] != '\''
            && (t[i] == '&' ==> entity_at(t, i))
}

proof fn lemma_entity(c: char)
    ensures
        entity(c).len() >= 1,
        forall|i: int|
            0 <= i < entity(c).len() ==> (#[trigger] entity(c)[i]) != '<' && entity(c)[i] != '>'
                && entity(c)[i] != '"' && entity(c)[i] != '\'',
        forall|i: int| 0 < i < entity(c).len() ==> (#[trigger] entity(c)[i]) != '&',
        entity(c)[0] == '&' ==> c == '&' || c == '<' || c == '>' || c == '"' || c == '\'',
{
    reveal_strlit("&amp;");
    reveal_strlit("&lt;");
    reveal_strlit("&gt;");
    reveal_strlit("&quot;");
    reveal_strlit("&apos;");
}

/// Escaped text cannot break the document that it stands in: it holds no markup.
pub proof fn law_escaped_text_holds_no_markup(s: Seq<char>)
    ensures
        free_of_markup(escaped(s)),
    decreases s.len(),
{
    if s.len() > 0 {
        let head = escaped(s.drop_last());
        let tail = entity(s.last());
        let all = escaped(s);
        law_escaped_text_holds_no_markup(s.drop_last());
        lemma_entity(s.last());
        assert forall|i: int| 0 <= i < all.len() implies (#[trigger] all[i]) != '<' && all[i] != '>'
            && all[i] != '"' && all[i] != '\'' && (all[i] == '&' ==> entity_at(all, i)) by {
            if i < head.len() {
                assert(all[i] == head[i]);
                if all[i] == '&' {
                    assert(entity_at(head, i));
                    let c = choose|c: char|
                        (c == '&' || c == '<' || c == '>' || c == '"' || c == '\'') && i + (
                        #[trigger] entity(c)).len() <= head.len() && head.subrange(
                            i,
                            i + entity(c).len(),
                        ) == entity(c);
                    assert(all.subrange(i, i + entity(c).len()) =~= head.subrange(
                        i,
                        i + entity(c).len(),
                    ));
                }
            } else {
                assert(all[i] == tail[i - head.len()]);
                if all[i] == '&' {
                    assert(i == head.len());
                    assert(all.subrange(i, i + tail.len()) =~= tail);
                    assert(tail == entity(s.last()));
                }
            }
        }
    }
}

// ---- truncating ----------------------------------------------------------

/// A text cut to `max` characters, the last of them an ellipsis, or whole when it fits.
pub open spec fn truncated(s: Seq<char>, max: int) -> Seq<char> {
    if s.len() <= max {
        s
    } else if max <= 0 {
        Seq::empty()
    } else {
        s.take(max - 1).push('…')
    }
}

/// Cuts a text to `max` characters with an ellipsis.
pub fn truncate(s: &str, max: usize) -> (r: String)
    ensures
        r@ == truncated(s@, max as int),
{
    let chars = chars_of(s);
    if chars.len() <= max {
        return s.to_owned();
    }
    let mut out = String::new();
    if max == 0 {
        assert(out@ =~= Seq::<char>::empty());
        return out;
    }
    let keep: usize = max - 1;
    for i in 0..keep
        invariant
            keep <= chars.len(),
            out@ == chars@.take(i as int),
    {
        out.push(chars[i]);
    }
    out.push('…');
    out
}

/// A text that was cut to a number of characters is no longer than that, and one that fits
/// stays whole.
pub proof fn law_truncated_text_fits(s: Seq<char>, max: int)
    requires
        max >= 0,
    ensures
        truncated(s, max).len() <= max,
        s.len() <= max ==> truncated(s, max) == s,
{
}

// ---- wrapping ------------------------------------------------------------

/// The pieces that a word is cut into: the word itself when it fits the columns, and else its
/// first characters, as many as fit, and the pieces of the rest.
pub open spec fn pieces(word: Seq<char>, cols: int) -> Seq<Seq<char>>
    decreases word.len(),
{
    if cols < 1 || word.len() <= cols {
        seq![word]
    } else {
        seq![word.take(cols)] + pieces(word.skip(cols), cols)
    }
}

/// The pieces of successive words.
pub open spec fn cut(list: Seq<Seq<char>>, cols: int) -> Seq<Seq<char>>
    decreases list.len(),
{
    if list.len() == 0 {
        Seq::empty()
    } else {
        cut(list.drop_last(), cols) + pieces(list.last(), cols)
    }
}

/// The lines that words fill greedily: a word goes on the current line as long as the line
/// stays within `cols` characters, and else starts the next one.
pub open spec fn filled(list: Seq<Seq<char>>, cols: int) -> Seq<Seq<char>>
    decreases list.len(),
{
    if list.len() == 0 {
        seq![Seq::<char>::empty()]
    } else {
        let lines = filled(list.drop_last(), cols);
        let line = lines.last();
        let word = list.last();
        if line.len() == 0 {
            lines.drop_last().push(word)
        } else if line.len() + 1 + word.len() <= cols {
            lines.drop_last().push(line.push(' ') + word)
        } else {
            lines.push(word)
        }
    }
}

/// The lines of successive paragraphs. A word that is longer than the columns is cut.
pub open spec fn filled_all(paragraphs: Seq<Seq<char>>, cols: int) -> Seq<Seq<char>>
    decreases paragraphs.len(),
{
    if paragraphs.len() == 0 {
        Seq::empty()
    } else {
        filled_all(paragraphs.drop_last(), cols) + filled(cut(words(paragraphs.last()), cols), cols)
    }
}

/// The columns that text is wrapped to: at least one.
pub open spec fn columns(cols: int) -> int {
    if cols < 1 {
        1
    } else {
        cols
    }
}

/// A text wrapped into lines, paragraph by paragraph.
pub open spec fn wrapped(text: Seq<char>, cols: int) -> Seq<Seq<char>> {
    filled_all(split_at_char(text, '\n'), columns(cols))
}

fn cut_words(list: &Vec<String>, cols: usize) -> (r: Vec<String>)
    requires
        cols >= 1,
    ensures
        texts(r@) == cut(texts(list@), cols as int),
{
    let mut out: Vec<String> = Vec::new();
    let ghost all = texts(list@);
    assert(all.take(0) =~= Seq::<Seq<char>>::empty());
    assert(texts(out@) =~= Seq::<Seq<char>>::empty());
    for i in 0..list.len()
        invariant
            cols >= 1,
            all == texts(list@),
            texts(out@) == cut(all.take(i as int), cols as int),
    {
        let ghost before = texts(out@);
        assert(all.take(i + 1).drop_last() =~= all.take(i as int));
        let chars = chars_of(list[i].as_str());
        let ghost goal = before + pieces(chars@, cols as int);
        let mut start: usize = 0;
        assert(chars@.skip(0) =~= chars@);
        while chars.len() - start > cols
            invariant
                cols >= 1,
                start <= chars@.len(),
                texts(out@) + pieces(chars@.skip(start as int), cols as int) == goal,
            decreases chars@.len() - start,
        {
            let ghost rest = chars@.skip(start as int);
            let ghost done = texts(out@);
            let end: usize = start + cols;
            out.push(text_of(vstd::slice::slice_subrange(chars.as_slice(), start, end)));
            assert(rest.take(cols as int) =~= chars@.subrange(start as int, end as int));
            assert(rest.skip(cols as int) =~= chars@.skip(end as int));
            assert(texts(out@) =~= done.push(rest.take(cols as int)));
            assert(texts(out@) + pieces(chars@.skip(end as int), cols as int) =~= done + pieces(
                rest,
                cols as int,
            ));
            start = end;
        }
        let ghost rest = chars@.skip(start as int);
        let ghost done = texts(out@);
        out.push(text_of(vstd::slice::slice_subrange(chars.as_slice(), start, chars.len())));
        assert(rest =~= chars@.subrange(start as int, chars@.len() as int));
        assert(texts(out@) =~= done + seq![rest]);
    }
    assert(all.take(all.len() as int) =~= all);
    out
}

fn fill(list: &Vec<String>, cols: usize) -> (r: Vec<String>)
    ensures
        texts(r@) == filled(texts(list@), cols as int),
{
    let mut lines: Vec<String> = Vec::new();
    let mut line = String::new();
    let ghost all = texts(list@);
    assert(all.take(0) =~= Seq::<Seq<char>>::empty());
    assert(texts(lines@).push(line@) =~= seq![Seq::<char>::empty()]);
    for i in 0..list.len()
        invariant
            all == texts(list@),
            texts(lines@).push(line@) == filled(all.take(i as int), cols as int),
    {
        let ghost before = filled(all.take(i as int), cols as int);
        let ghost prev = texts(lines@);
        assert(all.take(i + 1).drop_last() =~= all.take(i as int));
        assert(before.drop_last() =~= prev);
        assert(before.last() == line@);
        let word = &list[i];
        assert(word@ == all[i as int]);
        let line_len: usize = chars_of(line.as_str()).len();
        let word_len: usize = chars_of(word.as_str()).len();
        if line_len == 0 {
            line = word.clone();
        } else if line_len < cols && word_len <= cols - line_len - 1 {
            let ghost start = line@;
            line.push(' ');
            line.append(word.as_str());
            assert(line@ == start.push(' ') + word@);
        } else {
            lines.push(line);
            assert(texts(lines@) =~= before);
            line = word.clone();
        }
    }
    assert(all.take(all.len() as int) =~= all);
    let ghost done = texts(lines@).push(line@);
    lines.push(line);
    assert(texts(lines@) =~= done);
    lines
}

/// Wraps a text greedily into lines of at most `cols` characters, but at least one. Only a word
/// that is longer than a line is cut.
pub fn wrap(text: &str, cols: usize) -> (r: Vec<String>)
    ensures
        texts(r@) == wrapped(text@, cols as int),
        forall|i: int| 0 <= i < r@.len() ==> (#[trigger] r@[i])@.len() <= columns(cols as int),
{
    let width: usize = if cols < 1 { 1 } else { cols };
    let paragraphs = split_char(text, '\n');
    let ghost all = texts(paragraphs@);
    let mut lines: Vec<String> = Vec::new();
    assert(all.take(0) =~= Seq::<Seq<char>>::empty());
    assert(texts(lines@) =~= Seq::<Seq<char>>::empty());
    for i in 0..paragraphs.len()
        invariant
            all == texts(paragraphs@),
            width == columns(cols as int),
            width >= 1,
            texts(lines@) == filled_all(all.take(i as int), width as int),
    {
        assert(all.take(i + 1).drop_last() =~= all.take(i as int));
        let list = cut_words(&split_whitespace(paragraphs[i].as_str()), width);
        let mut more = fill(&list, width);
        let ghost (a, b) = (lines@, more@);
        lines.append(&mut more);
        assert(texts(lines@) =~= texts(a) + texts(b));
    }
    assert(all.take(all.len() as int) =~= all);
    proof {
        law_wrapping_keeps_words_and_width(text@, cols as int);
        assert forall|i: int| 0 <= i < lines@.len() implies (#[trigger] lines@[i])@.len() <= columns(
            cols as int,
        ) by {
            assert(texts(lines@)[i] == lines@[i]@);
        }
    }
    lines
}

/// A word: not empty, and without white space.
pub open spec fn solid(w: Seq<char>) -> bool {
    w.len() > 0 && forall|i: int| 0 <= i < w.len() ==> !is_white(#[trigger] w[i])
}

/// The words of successive lines.
pub open spec fn words_of(lines: Seq<Seq<char>>) -> Seq<Seq<char>>
    decreases lines.len(),
{
    if lines.len() == 0 {
        Seq::empty()
    } else {
        words_of(lines.drop_last()) + words(lines.last())
    }
}

proof fn lemma_words_are_solid(s: Seq<char>)
    ensures
        forall|i: int| 0 <= i < words(s).len() ==> solid(#[trigger] words(s)[i]),
    decreases s.len(),
{
    if s.len() > 0 {
        lemma_words_are_solid(s.drop_last());
        lemma_words_nonempty(s.drop_last());
        let before = words(s.drop_last());
        let c = s.last();
        assert forall|i: int| 0 <= i < words(s).len() implies solid(#[trigger] words(s)[i]) by {
            if !is_white(c) && i == words(s).len() - 1 {
                if s.len() > 1 && !is_white(s.drop_last().last()) {
                    let w = before.last();
                    assert(solid(before[before.len() - 1]));
                    assert forall|j: int| 0 <= j < w.push(c).len() implies !is_white(
                        #[trigger] w.push(c)[j],
                    ) by {
                        if j < w.len() {
                            assert(w.push(c)[j] == w[j]);
                        }
                    }
                }
            } else {
                assert(words(s)[i] == before[i]);
            }
        }
    }
}

proof fn lemma_word_of_word(w: Seq<char>)
    requires
        solid(w),
    ensures
        words(w) == seq![w],
    decreases w.len(),
{
    let before = w.drop_last();
    if before.len() == 0 {
        assert(words(before) =~= Seq::<Seq<char>>::empty());
        assert(seq![w.last()] =~= w);
    } else {
        assert(solid(before)) by {
            assert forall|i: int| 0 <= i < before.len() implies !is_white(#[trigger] before[i]) by {
                assert(before[i] == w[i]);
            }
        }
        assert(before.last() == w[w.len() - 2]);
        lemma_word_of_word(before);
        assert(before.push(w.last()) =~= w);
        assert(words(w) =~= seq![w]);
    }
}

proof fn lemma_word_after_space(line: Seq<char>, w: Seq<char>)
    requires
        solid(w),
    ensures
        words(line.push(' ') + w) == words(line).push(w),
    decreases w.len(),
{
    let all = line.push(' ') + w;
    let before = w.drop_last();
    assert(all.last() == w.last());
    assert(all.drop_last() =~= line.push(' ') + before);
    assert(!is_white(w[w.len() - 1]));
    if before.len() == 0 {
        assert(line.push(' ') + before =~= line.push(' '));
        assert(line.push(' ').drop_last() =~= line);
        assert(words(line.push(' ')) == words(line));
        assert(seq![w.last()] =~= w);
    } else {
        assert(solid(before)) by {
            assert forall|i: int| 0 <= i < before.len() implies !is_white(#[trigger] before[i]) by {
                assert(before[i] == w[i]);
            }
        }
        assert((line.push(' ') + before).last() == w[w.len() - 2]);
        lemma_word_after_space(line, before);
        assert(before.push(w.last()) =~= w);
        assert(words(line).push(before).drop_last() =~= words(line));
    }
}

/// Whether every text of a list is a word that fits the columns.
pub open spec fn fitting(list: Seq<Seq<char>>, cols: int) -> bool {
    forall|i: int| 0 <= i < list.len() ==> solid(#[trigger] list[i]) && list[i].len() <= cols
}

/// The pieces of successive texts put together.
pub open spec fn glued(list: Seq<Seq<char>>) -> Seq<char>
    decreases list.len(),
{
    if list.len() == 0 {
        Seq::empty()
    } else {
        list.first() + glued(list.skip(1))
    }
}

/// A word that fits the columns is one piece, and the pieces of every word put together are
/// the word.
pub proof fn law_pieces_make_up_the_word(word: Seq<char>, cols: int)
    ensures
        word.len() <= cols ==> pieces(word, cols) == seq![word],
        glued(pieces(word, cols)) == word,
    decreases word.len(),
{
    reveal_with_fuel(glued, 2);
    let list = pieces(word, cols);
    if cols < 1 || word.len() <= cols {
        assert(list.skip(1) =~= Seq::<Seq<char>>::empty());
        assert(glued(list) =~= word);
    } else {
        law_pieces_make_up_the_word(word.skip(cols), cols);
        assert(list.skip(1) =~= pieces(word.skip(cols), cols));
        assert(glued(list) =~= word);
    }
}

proof fn lemma_pieces_fit(word: Seq<char>, cols: int)
    requires
        solid(word),
        cols >= 1,
    ensures
        fitting(pieces(word, cols), cols),
    decreases word.len(),
{
    if word.len() > cols {
        let (head, rest) = (word.take(cols), word.skip(cols));
        assert(solid(head)) by {
            assert forall|i: int| 0 <= i < head.len() implies !is_white(#[trigger] head[i]) by {
                assert(head[i] == word[i]);
            }
        }
        assert(solid(rest)) by {
            assert forall|i: int| 0 <= i < rest.len() implies !is_white(#[trigger] rest[i]) by {
                assert(rest[i] == word[i + cols]);
            }
        }
        lemma_pieces_fit(rest, cols);
        lemma_fitting_concat(seq![head], pieces(rest, cols), cols);
    }
}

proof fn lemma_fitting_concat(a: Seq<Seq<char>>, b: Seq<Seq<char>>, cols: int)
    requires
        fitting(a, cols),
        fitting(b, cols),
    ensures
        fitting(a + b, cols),
{
    assert forall|i: int| 0 <= i < (a + b).len() implies solid(#[trigger] (a + b)[i]) && (a
        + b)[i].len() <= cols by {
        if i < a.len() {
            assert((a + b)[i] == a[i]);
        } else {
            assert((a + b)[i] == b[i - a.len()]);
        }
    }
}

proof fn lemma_cut_fits(list: Seq<Seq<char>>, cols: int)
    requires
        cols >= 1,
        forall|i: int| 0 <= i < list.len() ==> solid(#[trigger] list[i]),
    ensures
        fitting(cut(list, cols), cols),
    decreases list.len(),
{
    if list.len() > 0 {
        let rest = list.drop_last();
        assert forall|i: int| 0 <= i < rest.len() implies solid(#[trigger] rest[i]) by {
            assert(rest[i] == list[i]);
        }
        assert(solid(list[list.len() - 1]));
        lemma_cut_fits(rest, cols);
        lemma_pieces_fit(list.last(), cols);
        lemma_fitting_concat(cut(rest, cols), pieces(list.last(), cols), cols);
    }
}

proof fn lemma_cut_concat(a: Seq<Seq<char>>, b: Seq<Seq<char>>, cols: int)
    ensures
        cut(a + b, cols) == cut(a, cols) + cut(b, cols),
    decreases b.len(),
{
    if b.len() == 0 {
        assert(a + b =~= a);
        assert(cut(a + b, cols) =~= cut(a, cols) + cut(b, cols));
    } else {
        assert((a + b).drop_last() =~= a + b.drop_last());
        lemma_cut_concat(a, b.drop_last(), cols);
        assert(cut(a + b, cols) =~= cut(a, cols) + cut(b, cols));
    }
}

proof fn lemma_filled(list: Seq<Seq<char>>, cols: int)
    requires
        cols >= 1,
        fitting(list, cols),
    ensures
        filled(list, cols).len() > 0,
        words_of(filled(list, cols)) == list,
        forall|i: int|
            0 <= i < filled(list, cols).len() ==> (#[trigger] filled(list, cols)[i]).len() <= cols,
    decreases list.len(),
{
    if list.len() == 0 {
        let lines = filled(list, cols);
        assert(lines.drop_last() =~= Seq::<Seq<char>>::empty());
        assert(words_of(lines.drop_last()) =~= Seq::<Seq<char>>::empty());
        assert(words(lines.last()) =~= Seq::<Seq<char>>::empty());
        assert(words_of(lines) =~= list);
    } else {
        let rest = list.drop_last();
        let word = list.last();
        assert forall|i: int| 0 <= i < rest.len() implies solid(#[trigger] rest[i])
            && rest[i].len() <= cols by {
            assert(rest[i] == list[i]);
        }
        assert(solid(list[list.len() - 1]) && word.len() <= cols);
        lemma_filled(rest, cols);
        let lines = filled(rest, cols);
        let line = lines.last();
        lemma_word_of_word(word);
        assert(rest.push(word) =~= list);
        if line.len() == 0 {
            let next = lines.drop_last().push(word);
            assert(next.drop_last() =~= lines.drop_last());
            assert(words_of(next) =~= list);
        } else if line.len() + 1 + word.len() <= cols {
            lemma_word_after_space(line, word);
            let next = lines.drop_last().push(line.push(' ') + word);
            assert(next.drop_last() =~= lines.drop_last());
            assert(words_of(next) =~= list);
        } else {
            let next = lines.push(word);
            assert(next.drop_last() =~= lines);
            assert(words_of(next) =~= list);
        }
    }
}

proof fn lemma_words_of_concat(a: Seq<Seq<char>>, b: Seq<Seq<char>>)
    ensures
        words_of(a + b) == words_of(a) + words_of(b),
    decreases b.len(),
{
    if b.len() == 0 {
        assert(a + b =~= a);
        assert(words_of(a + b) =~= words_of(a) + words_of(b));
    } else {
        assert((a + b).drop_last() =~= a + b.drop_last());
        lemma_words_of_concat(a, b.drop_last());
        assert(words_of(a + b) =~= words_of(a) + words_of(b));
    }
}

proof fn lemma_filled_all(paragraphs: Seq<Seq<char>>, cols: int)
    requires
        cols >= 1,
    ensures
        words_of(filled_all(paragraphs, cols)) == cut(words_of(paragraphs), cols),
        forall|i: int|
            0 <= i < filled_all(paragraphs, cols).len() ==> (#[trigger] filled_all(
                paragraphs,
                cols,
            )[i]).len() <= cols,
    decreases paragraphs.len(),
{
    if paragraphs.len() > 0 {
        let list = words(paragraphs.last());
        let head = filled_all(paragraphs.drop_last(), cols);
        let tail = filled(cut(list, cols), cols);
        lemma_filled_all(paragraphs.drop_last(), cols);
        lemma_words_are_solid(paragraphs.last());
        lemma_cut_fits(list, cols);
        lemma_filled(cut(list, cols), cols);
        lemma_words_of_concat(head, tail);
        lemma_cut_concat(words_of(paragraphs.drop_last()), list, cols);
        assert forall|i: int| 0 <= i < (head + tail).len() implies (#[trigger] (head + tail)[i]).len()
            <= cols by {
            if i < head.len() {
                assert((head + tail)[i] == head[i]);
            } else {
                assert((head + tail)[i] == tail[i - head.len()]);
            }
        }
    }
}

proof fn lemma_last_piece(s: Seq<char>, sep: char)
    ensures
        split_at_char(s, sep).len() > 0,
        split_at_char(s, sep).last().len() == 0 <==> s.len() == 0 || s.last() == sep,
        split_at_char(s, sep).last().len() > 0 ==> split_at_char(s, sep).last().last() == s.last(),
    decreases s.len(),
{
    if s.len() > 0 {
        lemma_last_piece(s.drop_last(), sep);
    }
}

proof fn lemma_words_of_split(s: Seq<char>)
    ensures
        words_of(split_at_char(s, '\n')) == words(s),
    decreases s.len(),
{
    let pieces = split_at_char(s, '\n');
    if s.len() == 0 {
        assert(pieces.drop_last() =~= Seq::<Seq<char>>::empty());
        assert(words_of(pieces.drop_last()) =~= Seq::<Seq<char>>::empty());
        assert(pieces.last() == s);
        assert(words_of(pieces) =~= words(s));
    } else {
        let before = split_at_char(s.drop_last(), '\n');
        lemma_words_of_split(s.drop_last());
        lemma_last_piece(s.drop_last(), '\n');
        if s.last() == '\n' {
            assert(pieces.drop_last() =~= before);
            assert(words_of(pieces) =~= words(s));
        } else {
            let x = before.last();
            let c = s.last();
            assert(pieces.drop_last() =~= before.drop_last());
            assert(x.push(c).drop_last() =~= x);
            let head = words_of(before.drop_last());
            if !is_white(c) && x.len() > 0 && !is_white(x.last()) {
                lemma_words_nonempty(x);
                assert((head + words(x)).drop_last() =~= head + words(x).drop_last());
                assert((head + words(x)).last() == words(x).last());
            }
            assert(words_of(pieces) =~= words(s));
        }
    }
}

/// Wrapping keeps the words of a text, in their order, cut only where they are longer than a
/// line, and every line stays within the columns.
pub proof fn law_wrapping_keeps_words_and_width(text: Seq<char>, cols: int)
    ensures
        words_of(wrapped(text, cols)) == cut(words(text), columns(cols)),
        forall|i: int|
            0 <= i < wrapped(text, cols).len() ==> (#[trigger] wrapped(text, cols)[i]).len()
                <= columns(cols),
{
    lemma_filled_all(split_at_char(text, '\n'), columns(cols));
    lemma_words_of_split(text);
}

/// Cutting leaves words that all fit the columns as they are.
pub proof fn law_fitting_words_stay_whole(list: Seq<Seq<char>>, cols: int)
    requires
        forall|i: int| 0 <= i < list.len() ==> (#[trigger] list[i]).len() <= cols,
    ensures
        cut(list, cols) == list,
    decreases list.len(),
{
    if list.len() > 0 {
        let rest = list.drop_last();
        assert forall|i: int| 0 <= i < rest.len() implies (#[trigger] rest[i]).len() <= cols by {
            assert(rest[i] == list[i]);
        }
        law_fitting_words_stay_whole(rest, cols);
        assert(list[list.len() - 1].len() <= cols);
        assert(rest + seq![list.last()] =~= list);
    } else {
        assert(cut(list, cols) =~= list);
    }
}

// ---- display text of values ----------------------------------------------

/// The short display text of a value.
pub open spec fn shown(v: JsonView) -> Seq<char> {
    match v {
        JsonView::Null => "—"@,
        JsonView::Bool(b) => if b {
            "Yes"@
        } else {
            "No"@
        },
        JsonView::Number(n) => numeral(n),
        JsonView::String(s) => s,
        JsonView::Array(items) => decimal_of(items.len()),
        JsonView::Object(_) => printed_tree(stored_tree(v)),
    }
}

/// The short display text of a value.
pub fn scalar_string(v: &Json) -> (r: String)
    ensures
        r@ == shown(v@),
{
    match v {
        Json::Null => "—".to_owned(),
        Json::Bool(b) => if *b {
            "Yes".to_owned()
        } else {
            "No".to_owned()
        },
        Json::Number(n) => number_text(n),
        Json::String(s) => s.clone(),
        Json::Array(items) => {
            proof {
                crate::json::lemma_trees(items@);
            }
            decimal(items.len() as u64)
        },
        Json::Object(_) => compact_json(v),
    }
}

/// The member that titles an object: the first of `title`, `name`, `label` and `text` that
/// there is.
pub open spec fn titling(v: JsonView) -> Option<JsonView> {
    if v.member("title"@) is Some {
        v.member("title"@)
    } else if v.member("name"@) is Some {
        v.member("name"@)
    } else if v.member("label"@) is Some {
        v.member("label"@)
    } else {
        v.member("text"@)
    }
}

/// The text of one row of a list: a text itself, the title of an object, or the display
/// text.
pub open spec fn row_text(v: JsonView) -> Seq<char> {
    match v {
        JsonView::String(s) => s,
        JsonView::Object(_) => match titling(v) {
            Some(JsonView::String(s)) => s,
            _ => printed_tree(stored_tree(v)),
        },
        _ => shown(v),
    }
}

/// The text of one row of a list.
pub fn row_string(v: &Json) -> (r: String)
    ensures
        r@ == row_text(v@),
{
    match v {
        Json::String(s) => s.clone(),
        Json::Object(_) => {
            let found = match v.get("title") {
                Some(t) => Some(t),
                None => match v.get("name") {
                    Some(t) => Some(t),
                    None => match v.get("label") {
                        Some(t) => Some(t),
                        None => v.get("text"),
                    },
                },
            };
            match found {
                Some(Json::String(s)) => s.clone(),
                _ => compact_json(v),
            }
        },
        _ => scalar_string(v),
    }
}

} // verus!
