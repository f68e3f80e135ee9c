//! Escaping, truncating, wrapping, and the display text of values.

use vstd::prelude::*;

use crate::json::{printed_tree, stored_tree, JsonView, NumberView};
use crate::laws::texts::{
    free_of, law_numerals_read_back, law_pieces_of_both_sides, law_whole_texts_are_one_piece,
    law_words_of_both_sides,
};
use crate::text::{decimal_of, digits_value, is_white, split_at_char, words};
use crate::typeset::{
    cut, entity, escaped, filled, filled_all, fitting, pieces, row_text, shown, solid, truncated,
    wrapped,
};

verus! {

// ---- escaping ------------------------------------------------------------

/// Escaping goes character by character.
pub proof fn law_escaping_goes_piece_by_piece(a: Seq<char>, b: Seq<char>)
    ensures
        escaped(a + b) == escaped(a) + escaped(b),
    decreases b.len(),
{
    if b.len() == 0 {
        assert(a + b =~= a);
        assert(escaped(a) + escaped(b) =~= escaped(a));
    } else {
        assert((a + b).drop_last() =~= a + b.drop_last());
        law_escaping_goes_piece_by_piece(a, b.drop_last());
        assert(escaped(a + b) =~= escaped(a) + escaped(b));
    }
}

/// The five characters of markup are written by their names, and every other stands for itself.
pub proof fn law_markup_is_written_by_name(c: char)
    ensures
        escaped(seq!['&']) == "&amp;"@,
        escaped(seq!['<']) == "&lt;"@,
        escaped(seq!['>']) == "&gt;"@,
        escaped(seq!['"']) == "&quot;"@,
        escaped(seq!['\'']) == "&apos;"@,
        c != '&' && c != '<' && c != '>' && c != '"' && c != '\'' ==> escaped(seq![c]) == seq![c],
{
    lemma_escaped_one('&');
    lemma_escaped_one('<');
    lemma_escaped_one('>');
    lemma_escaped_one('"');
    lemma_escaped_one('\'');
    lemma_escaped_one(c);
}

proof fn lemma_escaped_one(c: char)
    ensures
        escaped(seq![c]) == entity(c),
{
    let s = seq![c];
    assert(s.drop_last() =~= Seq::<char>::empty());
    reveal_with_fuel(escaped, 2);
    assert(escaped(s) =~= entity(c));
}

proof fn lemma_entities_differ(c: char, d: char, x: Seq<char>, y: Seq<char>)
    requires
        entity(c) + x == entity(d) + y,
    ensures
        c == d,
{
    reveal_strlit("&amp;");
    reveal_strlit("&lt;");
    reveal_strlit("&gt;");
    reveal_strlit("&quot;");
    reveal_strlit("&apos;");
    let (a, b) = (entity(c) + x, entity(d) + y);
    assert(entity(c)[0] == a[0] && entity(d)[0] == b[0]);
    if entity(c).len() > 1 && entity(d).len() > 1 {
        assert(entity(c)[1] == a[1] && entity(d)[1] == b[1]);
        assert(entity(c)[2] == a[2] && entity(d)[2] == b[2]);
    }
}

/// Escaping loses nothing: texts that are escaped alike are the same.
pub proof fn law_escaping_loses_nothing(a: Seq<char>, b: Seq<char>)
    requires
        escaped(a) == escaped(b),
    ensures
        a == b,
    decreases a.len(),
{
    if a.len() == 0 {
        if b.len() > 0 {
            lemma_escaped_first(b);
            lemma_entity_some(b[0]);
        }
        assert(a =~= b);
    } else if b.len() == 0 {
        lemma_escaped_first(a);
        lemma_entity_some(a[0]);
    } else {
        lemma_escaped_first(a);
        lemma_escaped_first(b);
        let (x, y) = (escaped(a.skip(1)), escaped(b.skip(1)));
        lemma_entities_differ(a[0], b[0], x, y);
        let e = entity(a[0]);
        assert((e + x).skip(e.len() as int) =~= x);
        assert((e + y).skip(e.len() as int) =~= y);
        law_escaping_loses_nothing(a.skip(1), b.skip(1));
        assert(a =~= seq![a[0]] + a.skip(1));
        assert(b =~= seq![b[0]] + b.skip(1));
    }
}

proof fn lemma_entity_some(c: char)
    ensures
        entity(c).len() > 0,
{
    reveal_strlit("&amp;");
    reveal_strlit("&lt;");
    reveal_strlit("&gt;");
    reveal_strlit("&quot;");
    reveal_strlit("&apos;");
}

proof fn lemma_escaped_first(s: Seq<char>)
    requires
        s.len() > 0,
    ensures
        escaped(s) == entity(s[0]) + escaped(s.skip(1)),
{
    law_escaping_goes_piece_by_piece(seq![s[0]], s.skip(1));
    lemma_escaped_one(s[0]);
    assert(seq![s[0]] + s.skip(1) =~= s);
}

// ---- truncating ----------------------------------------------------------

/// A text that is cut keeps its first characters, all but one of those that fit, and ends with
/// an ellipsis.
pub proof fn law_cut_texts_keep_their_beginning(s: Seq<char>, max: int)
    requires
        1 <= max < s.len(),
    ensures
        truncated(s, max).len() == max,
        truncated(s, max)[max - 1] == '…',
        forall|i: int| 0 <= i < max - 1 ==> #[trigger] truncated(s, max)[i] == s[i],
{
}

// ---- wrapping ------------------------------------------------------------

proof fn lemma_filled_all_concat(a: Seq<Seq<char>>, b: Seq<Seq<char>>, cols: int)
    ensures
        filled_all(a + b, cols) == filled_all(a, cols) + filled_all(b, cols),
    decreases b.len(),
{
    if b.len() == 0 {
        assert(a + b =~= a);
        assert(filled_all(a, cols) + filled_all(b, cols) =~= filled_all(a, cols));
    } else {
        assert((a + b).drop_last() =~= a + b.drop_last());
        lemma_filled_all_concat(a, b.drop_last(), cols);
        assert(filled_all(a + b, cols) =~= filled_all(a, cols) + filled_all(b, cols));
    }
}

/// A line break always starts a new line: paragraphs are wrapped one after the other.
pub proof fn law_paragraphs_are_wrapped_apart(a: Seq<char>, b: Seq<char>, cols: int)
    ensures
        wrapped(a.push('\n') + b, cols) == wrapped(a, cols) + wrapped(b, cols),
{
    law_pieces_of_both_sides(a, '\n', b);
    lemma_filled_all_concat(
        split_at_char(a, '\n'),
        split_at_char(b, '\n'),
        crate::typeset::columns(cols),
    );
}

/// Words with one space between them.
pub open spec fn spaced(list: Seq<Seq<char>>) -> Seq<char>
    decreases list.len(),
{
    if list.len() == 0 {
        Seq::empty()
    } else if list.len() == 1 {
        list[0]
    } else {
        spaced(list.drop_last()).push(' ') + list.last()
    }
}

proof fn lemma_solid_word(w: Seq<char>)
    requires
        solid(w),
    ensures
        words(w) == seq![w],
    decreases w.len(),
{
    let before = w.drop_last();
    assert(!is_white(w[w.len() - 1]));
    if before.len() == 0 {
        assert(words(before) =~= Seq::<Seq<char>>::empty());
        assert(seq![w.last()] =~= w);
        assert(words(w) =~= seq![w]);
    } else {
        assert(solid(before)) by {
            assert forall|i: int| 0 <= i < before.len() implies !is_white(#[trigger] before[i]) by {
                assert(before[i] == w[i]);
            }
        }
        assert(before.last() == w[w.len() - 2]);
        lemma_solid_word(before);
        assert(before.push(w.last()) =~= w);
        assert(words(w) =~= seq![w]);
    }
}

/// Whether a line begins with a word that would not have fitted on the line before it.
pub open spec fn pushed_down(lines: Seq<Seq<char>>, i: int, cols: int) -> bool {
    &&& words(lines[i]).len() >= 1
    &&& lines[i - 1].len() + 1 + words(lines[i])[0].len() > cols
}

/// Words that fill lines stand on each with single spaces between them, and a line ends only
/// where the next word would not have fitted on it.
pub proof fn law_lines_are_filled_greedily(list: Seq<Seq<char>>, cols: int)
    requires
        cols >= 1,
        fitting(list, cols),
    ensures
        filled(list, cols).len() >= 1,
        forall|i: int|
            0 <= i < filled(list, cols).len() ==> #[trigger] filled(list, cols)[i] == spaced(
                words(filled(list, cols)[i]),
            ),
        forall|i: int|
            0 < i < filled(list, cols).len() ==> #[trigger] pushed_down(filled(list, cols), i, cols),
        list.len() > 0 ==> words(filled(list, cols).last()).len() >= 1,
    decreases list.len(),
{
    let lines = filled(list, cols);
    if list.len() == 0 {
        assert(words(lines[0]) =~= Seq::<Seq<char>>::empty());
        assert(lines[0] =~= spaced(words(lines[0])));
        assert(lines.len() == 1);
    } else {
        let rest = list.drop_last();
        let word = list.last();
        assert(fitting(rest, cols)) by {
            assert forall|i: int| 0 <= i < rest.len() implies solid(#[trigger] rest[i])
                && rest[i].len() <= cols by {
                assert(rest[i] == list[i]);
            }
        }
        assert(solid(list[list.len() - 1]) && word.len() <= cols);
        law_lines_are_filled_greedily(rest, cols);
        let before = filled(rest, cols);
        let line = before.last();
        lemma_solid_word(word);
        assert(spaced(seq![word]) == word);
        assert(before[before.len() - 1] == spaced(words(before[before.len() - 1])));
        let joined = line.push(' ') + word;
        law_words_of_both_sides(line, ' ', word);
        assert(words(joined) =~= words(line).push(word));
        assert(words(line).push(word).drop_last() =~= words(line));
        if line.len() > 0 {
            assert(words(line).len() > 0) by {
                if words(line).len() == 0 {
                    assert(spaced(words(line)).len() == 0);
                }
            }
            assert(joined == spaced(words(joined)));
            assert(words(joined)[0] == words(line)[0]);
        }
        assert forall|i: int| 0 <= i < lines.len() implies #[trigger] lines[i] == spaced(
            words(lines[i]),
        ) by {
            if i < before.len() - 1 {
                assert(lines[i] == before[i]);
            } else if i < before.len() && lines.len() > before.len() {
                assert(lines[i] == before[i]);
            }
        }
        assert forall|i: int| 0 < i < lines.len() implies #[trigger] pushed_down(lines, i, cols) by {
            if i < before.len() {
                assert(pushed_down(before, i, cols));
            }
            if i < before.len() - 1 {
                assert(lines[i - 1] == before[i - 1] && lines[i] == before[i]);
            } else if i == before.len() - 1 {
                assert(lines[i - 1] == before[i - 1]);
                if line.len() == 0 {
                    assert(words(line) =~= Seq::<Seq<char>>::empty());
                }
                if lines.len() > before.len() {
                    assert(lines[i] == line);
                } else {
                    assert(lines[i] == joined);
                }
            } else {
                assert(lines[i - 1] == line && lines[i] == word);
            }
        }
        if line.len() == 0 && rest.len() > 0 {
            assert(words(line) =~= Seq::<Seq<char>>::empty());
        }
    }
}

/// A word that is too long for a line is cut at the margin: its first piece fills a line, and
/// the rest is cut on. One that fits stays whole.
pub proof fn law_long_words_are_cut_at_the_margin(word: Seq<char>, cols: int)
    requires
        cols >= 1,
    ensures
        word.len() > cols ==> pieces(word, cols)[0] == word.take(cols) && pieces(word, cols).skip(1)
            == pieces(word.skip(cols), cols),
        word.len() <= cols ==> pieces(word, cols) == seq![word],
{
    if word.len() > cols {
        assert(pieces(word, cols).skip(1) =~= pieces(word.skip(cols), cols));
    }
}

/// Words are cut one after the other.
pub proof fn law_words_are_cut_in_turn(list: Seq<Seq<char>>, word: Seq<char>, cols: int)
    ensures
        cut(Seq::empty(), cols).len() == 0,
        cut(list.push(word), cols) == cut(list, cols) + pieces(word, cols),
{
    assert(list.push(word).drop_last() =~= list);
}

/// A text without line breaks is wrapped by its words alone, cut where they are too long, as
/// many columns wide as are given, and one at least.
pub proof fn law_paragraphs_are_wrapped_by_their_words(text: Seq<char>, cols: int)
    requires
        free_of(text, '\n'),
    ensures
        cols >= 1 ==> wrapped(text, cols) == filled(cut(words(text), cols), cols),
        cols < 1 ==> wrapped(text, cols) == filled(cut(words(text), 1), 1),
{
    law_whole_texts_are_one_piece(text, '\n');
    let list = split_at_char(text, '\n');
    let width = crate::typeset::columns(cols);
    let lines = filled(cut(words(text), width), width);
    assert(list.drop_last() =~= Seq::<Seq<char>>::empty());
    reveal_with_fuel(filled_all, 2);
    assert(filled_all(list, width) =~= lines);
}

// ---- display text of values ----------------------------------------------

/// A text shows as itself, a truth value as `Yes` or `No`, nothing as a dash, a whole number by
/// its numeral, an array by how many items it has, and an object by its compact JSON.
pub proof fn law_values_show_as_what_they_are(v: JsonView)
    ensures
        match v {
            JsonView::Null => shown(v) == "—"@,
            JsonView::Bool(b) => shown(v) == if b {
                "Yes"@
            } else {
                "No"@
            },
            JsonView::Number(NumberView::PosInt(n)) => digits_value(shown(v)) == Some(n as nat),
            JsonView::Number(NumberView::NegInt(n)) => n < 0 ==> shown(v)[0] == '-' && digits_value(
                shown(v).skip(1),
            ) == Some((-n) as nat),
            JsonView::Number(NumberView::Decimal(s)) => shown(v) == s,
            JsonView::String(s) => shown(v) == s,
            JsonView::Array(items) => digits_value(shown(v)) == Some(items.len()),
            JsonView::Object(_) => shown(v) == printed_tree(stored_tree(v)),
        },
{
    match v {
        JsonView::Number(NumberView::PosInt(n)) => {
            law_numerals_read_back(n as nat);
        },
        JsonView::Number(NumberView::NegInt(n)) => {
            if n < 0 {
                law_numerals_read_back((-n) as nat);
                assert((seq!['-'] + decimal_of((-n) as nat)).skip(1) =~= decimal_of((-n) as nat));
            }
        },
        JsonView::Array(items) => {
            law_numerals_read_back(items.len());
        },
        _ => {},
    }
}

/// A row of a list shows a text as itself, and an object by the first of `title`, `name`,
/// `label` and `text` that it has, when that is a text, and else by its compact JSON.
pub proof fn law_rows_show_their_title(m: Map<Seq<char>, JsonView>, s: Seq<char>, v: JsonView)
    ensures
        row_text(JsonView::String(s)) == s,
        !(v is String) && !(v is Object) ==> row_text(v) == shown(v),
        m.dom().contains("title"@) && m["title"@] == JsonView::String(s) ==> row_text(
            JsonView::Object(m),
        ) == s,
        !m.dom().contains("title"@) && m.dom().contains("name"@) && m["name"@] == JsonView::String(s)
            ==> row_text(JsonView::Object(m)) == s,
        !m.dom().contains("title"@) && !m.dom().contains("name"@) && m.dom().contains("label"@)
            && m["label"@] == JsonView::String(s) ==> row_text(JsonView::Object(m)) == s,
        !m.dom().contains("title"@) && !m.dom().contains("name"@) && !m.dom().contains("label"@)
            && m.dom().contains("text"@) && m["text"@] == JsonView::String(s) ==> row_text(
            JsonView::Object(m),
        ) == s,
        !m.dom().contains("title"@) && !m.dom().contains("name"@) && !m.dom().contains("label"@)
            && !m.dom().contains("text"@) ==> row_text(JsonView::Object(m)) == printed_tree(
            stored_tree(JsonView::Object(m)),
        ),
        m.dom().contains("title"@) && !(m["title"@] is String) ==> row_text(JsonView::Object(m))
            == printed_tree(stored_tree(JsonView::Object(m))),
        !m.dom().contains("title"@) && m.dom().contains("name"@) && !(m["name"@] is String)
            ==> row_text(JsonView::Object(m)) == printed_tree(stored_tree(JsonView::Object(m))),
        !m.dom().contains("title"@) && !m.dom().contains("name"@) && m.dom().contains("label"@)
            && !(m["label"@] is String) ==> row_text(JsonView::Object(m)) == printed_tree(
            stored_tree(JsonView::Object(m)),
        ),
        !m.dom().contains("title"@) && !m.dom().contains("name"@) && !m.dom().contains("label"@)
            && m.dom().contains("text"@) && !(m["text"@] is String) ==> row_text(JsonView::Object(m))
            == printed_tree(stored_tree(JsonView::Object(m))),
{
}

/// A text without line breaks whose words all fit one line is that line.
pub proof fn law_short_texts_are_one_line(list: Seq<Seq<char>>, cols: int)
    requires
        cols >= 1,
        fitting(list, cols),
        spaced(list).len() <= cols,
    ensures
        filled(list, cols) == seq![spaced(list)],
    decreases list.len(),
{
    if list.len() == 0 {
        assert(filled(list, cols) =~= seq![spaced(list)]);
    } else {
        let rest = list.drop_last();
        assert(fitting(rest, cols)) by {
            assert forall|i: int| 0 <= i < rest.len() implies solid(#[trigger] rest[i])
                && rest[i].len() <= cols by {
                assert(rest[i] == list[i]);
            }
        }
        if list.len() > 1 {
            assert(solid(list[0]));
            lemma_spaced_some(rest);
        }
        law_short_texts_are_one_line(rest, cols);
        assert(filled(list, cols) =~= seq![spaced(list)]);
    }
}

proof fn lemma_spaced_some(list: Seq<Seq<char>>)
    requires
        list.len() > 0,
        list[0].len() > 0,
    ensures
        spaced(list).len() > 0,
{
}

} // verus!
