//! Text as sequences of characters: trimming, splitting, searching, numerals.

use vstd::prelude::*;

verus! {

/// `String::push` appends one character at the end of the string.
pub assume_specification[ std::string::String::push ](s: &mut std::string::String, c: char)
    ensures
        final(s)@ == old(s)@.push(c),
;

/// The views of a list of strings.
pub open spec fn texts(list: Seq<String>) -> Seq<Seq<char>> {
    Seq::new(list.len(), |i: int| list[i]@)
}

/// The view of an optional string.
pub open spec fn opt_text(s: Option<String>) -> Option<Seq<char>> {
    match s {
        Some(t) => Some(t@),
        None => None,
    }
}

/// The view of an optional text.
pub open spec fn opt_str(s: Option<&str>) -> Option<Seq<char>> {
    match s {
        Some(t) => Some(t@),
        None => None,
    }
}

/// Whether two texts are the same.
pub fn same_text(a: &str, b: &str) -> (r: bool)
    ensures
        r == (a@ == b@),
{
    a.to_owned() == b.to_owned()
}

/// The characters of a text.
pub fn chars_of(s: &str) -> (r: Vec<char>)
    ensures
        r@ == s@,
{
    let mut out: Vec<char> = Vec::new();
    for c in it: s.chars()
        invariant
            out@ == it.seq().take(it.index()),
    {
        out.push(c);
    }
    out
}

/// The text made of the given characters.
pub fn text_of(chars: &[char]) -> (r: String)
    ensures
        r@ == chars@,
{
    let mut out = String::new();
    for i in 0..chars.len()
        invariant
            out@ == chars@.take(i as int),
    {
        out.push(chars[i]);
    }
    out
}

/// A copy of an optional string.
pub fn copy_opt(s: &Option<String>) -> (r: Option<String>)
    ensures
        r == *s,
{
    match s {
        Some(t) => Some(t.clone()),
        None => None,
    }
}

// ---- whitespace ----------------------------------------------------------

/// The characters with the Unicode `White_Space` property.
pub open spec fn is_white(c: char) -> bool {
    ||| '\u{9}' <= c <= '\u{d}'
    ||| c == ' '
    ||| c == '\u{85}'
    ||| c == '\u{a0}'
    ||| c == '\u{1680}'
    ||| '\u{2000}' <= c <= '\u{200a}'
    ||| c == '\u{2028}'
    ||| c == '\u{2029}'
    ||| c == '\u{202f}'
    ||| c == '\u{205f}'
    ||| c == '\u{3000}'
}

/// Whether a character is white space.
pub fn is_whitespace(c: char) -> (r: bool)
    ensures
        r == is_white(c),
{
    ('\u{9}' <= c && c <= '\u{d}') || c == ' ' || c == '\u{85}' || c == '\u{a0}' || c == '\u{1680}' || (
    '\u{2000}' <= c && c <= '\u{200a}') || c == '\u{2028}' || c == '\u{2029}' || c == '\u{202f}' || c
        == '\u{205f}' || c == '\u{3000}'
}

/// A text without its leading white space.
pub open spec fn trimmed_start(s: Seq<char>) -> Seq<char>
    decreases s.len(),
{
    if s.len() > 0 && is_white(s[0]) {
        trimmed_start(s.skip(1))
    } else {
        s
    }
}

/// A text without its trailing white space.
pub open spec fn trimmed_end(s: Seq<char>) -> Seq<char>
    decreases s.len(),
{
    if s.len() > 0 && is_white(s.last()) {
        trimmed_end(s.drop_last())
    } else {
        s
    }
}

/// A text without its leading and trailing white space.
pub open spec fn trimmed(s: Seq<char>) -> Seq<char> {
    trimmed_end(trimmed_start(s))
}

/// A text is blank when trimming leaves nothing of it.
pub open spec fn blank(s: Seq<char>) -> bool {
    trimmed(s).len() == 0
}

/// The first and the last-plus-one index of what trimming keeps.
fn trim_bounds(chars: &[char]) -> (r: (usize, usize))
    ensures
        r.0 <= r.1 <= chars@.len(),
        chars@.subrange(r.0 as int, r.1 as int) == trimmed(chars@),
{
    let mut start: usize = 0;
    assert(chars@.skip(0) =~= chars@);
    while start < chars.len() && is_whitespace(chars[start])
        invariant
            start <= chars@.len(),
            trimmed_start(chars@) == trimmed_start(chars@.skip(start as int)),
        decreases chars@.len() - start,
    {
        assert(chars@.skip(start as int).skip(1) =~= chars@.skip(start + 1));
        start = start + 1;
    }
    let mut end: usize = chars.len();
    assert(chars@.subrange(start as int, end as int) =~= chars@.skip(start as int));
    while end > start && is_whitespace(chars[end - 1])
        invariant
            start <= end <= chars@.len(),
            trimmed(chars@) == trimmed_end(chars@.subrange(start as int, end as int)),
        decreases end,
    {
        assert(chars@.subrange(start as int, end as int).drop_last() =~= chars@.subrange(
            start as int,
            end - 1,
        ));
        end = end - 1;
    }
    (start, end)
}

/// The text without leading and trailing white space.
pub fn trim(s: &str) -> (r: String)
    ensures
        r@ == trimmed(s@),
{
    let chars = chars_of(s);
    let (start, end) = trim_bounds(&chars);
    let mut out = String::new();
    let mut i: usize = start;
    while i < end
        invariant
            start <= i <= end <= chars@.len(),
            out@ == chars@.subrange(start as int, i as int),
        decreases end - i,
    {
        out.push(chars[i]);
        i = i + 1;
    }
    out
}

/// Whether the text is empty or white space only.
pub fn is_blank(s: &str) -> (r: bool)
    ensures
        r == blank(s@),
{
    let chars = chars_of(s);
    let (start, end) = trim_bounds(&chars);
    start == end
}

// ---- splitting -----------------------------------------------------------

/// The pieces of a text between the occurrences of one character.
pub open spec fn split_at_char(s: Seq<char>, sep: char) -> Seq<Seq<char>>
    decreases s.len(),
{
    if s.len() == 0 {
        seq![Seq::<char>::empty()]
    } else {
        let before = split_at_char(s.drop_last(), sep);
        if s.last() == sep {
            before.push(Seq::<char>::empty())
        } else {
            before.drop_last().push(before.last().push(s.last()))
        }
    }
}

/// Splits a text at every occurrence of a character.
pub fn split_char(s: &str, sep: char) -> (r: Vec<String>)
    ensures
        texts(r@) == split_at_char(s@, sep),
{
    let chars = chars_of(s);
    let mut out: Vec<String> = Vec::new();
    let mut piece = String::new();
    assert(chars@.take(0) =~= Seq::<char>::empty());
    assert(texts(out@).push(piece@) =~= split_at_char(chars@.take(0), sep));
    for i in 0..chars.len()
        invariant
            texts(out@).push(piece@) == split_at_char(chars@.take(i as int), sep),
    {
        let ghost before = split_at_char(chars@.take(i as int), sep);
        let ghost prev = texts(out@);
        assert(chars@.take(i + 1).drop_last() =~= chars@.take(i as int));
        assert(before.drop_last() =~= prev);
        assert(before.last() == piece@);
        if chars[i] == sep {
            out.push(piece);
            piece = String::new();
            assert(texts(out@) =~= before);
            assert(texts(out@).push(piece@) =~= before.push(Seq::<char>::empty()));
        } else {
            piece.push(chars[i]);
        }
    }
    assert(chars@.take(chars@.len() as int) =~= chars@);
    let ghost all = texts(out@).push(piece@);
    out.push(piece);
    assert(texts(out@) =~= all);
    out
}

/// The maximal runs of characters other than white space.
pub open spec fn words(s: Seq<char>) -> Seq<Seq<char>>
    decreases s.len(),
{
    if s.len() == 0 {
        Seq::empty()
    } else if is_white(s.last()) {
        words(s.drop_last())
    } else {
        let before = s.drop_last();
        if before.len() > 0 && !is_white(before.last()) {
            words(before).drop_last().push(words(before).last().push(s.last()))
        } else {
            words(before).push(seq![s.last()])
        }
    }
}

pub proof fn lemma_words_nonempty(s: Seq<char>)
    ensures
        s.len() > 0 && !is_white(s.last()) ==> words(s).len() > 0,
        forall|i: int| 0 <= i < words(s).len() ==> (#[trigger] words(s)[i]).len() > 0,
    decreases s.len(),
{
    if s.len() > 0 {
        lemma_words_nonempty(s.drop_last());
    }
}

/// The words of a text.
pub fn split_whitespace(s: &str) -> (r: Vec<String>)
    ensures
        texts(r@) == words(s@),
{
    let chars = chars_of(s);
    let mut out: Vec<String> = Vec::new();
    let mut word = String::new();
    let mut open = false;
    assert(chars@.take(0) =~= Seq::<char>::empty());
    for i in 0..chars.len()
        invariant
            open == (i > 0 && !is_white(chars@[i - 1])),
            open ==> texts(out@).push(word@) == words(chars@.take(i as int)),
            !open ==> texts(out@) == words(chars@.take(i as int)) && word@.len() == 0,
    {
        let ghost before = words(chars@.take(i as int));
        let ghost prev = texts(out@);
        assert(chars@.take(i + 1).drop_last() =~= chars@.take(i as int));
        if i > 0 {
            assert(chars@.take(i as int).last() == chars@[i - 1]);
        }
        if is_whitespace(chars[i]) {
            if open {
                out.push(word);
                word = String::new();
                assert(texts(out@) =~= before);
            }
            open = false;
        } else {
            if open {
                assert(before.drop_last() =~= prev);
            } else {
                assert(seq![chars@[i as int]] =~= word@.push(chars@[i as int]));
            }
            word.push(chars[i]);
            open = true;
        }
    }
    assert(chars@.take(chars@.len() as int) =~= chars@);
    if open {
        let ghost all = texts(out@).push(word@);
        out.push(word);
        assert(texts(out@) =~= all);
    }
    out
}

// ---- searching -----------------------------------------------------------

/// Whether `needle` stands in `s` at position `i`.
pub open spec fn occurs_at(s: Seq<char>, needle: Seq<char>, i: int) -> bool {
    &&& 0 <= i
    &&& i + needle.len() <= s.len()
    &&& s.subrange(i, i + needle.len()) == needle
}

/// The first position from `i` on at which `needle` stands in `s`.
pub open spec fn first_from(s: Seq<char>, needle: Seq<char>, i: int) -> Option<int>
    decreases s.len() + 1 - i,
{
    if i > s.len() {
        None
    } else if occurs_at(s, needle, i) {
        Some(i)
    } else {
        first_from(s, needle, i + 1)
    }
}

/// The first position at which `needle` stands in `s`.
pub open spec fn first_at(s: Seq<char>, needle: Seq<char>) -> Option<int> {
    first_from(s, needle, 0)
}

/// Whether a text begins with another.
pub open spec fn begins(s: Seq<char>, prefix: Seq<char>) -> bool {
    occurs_at(s, prefix, 0)
}

/// The first position found holds the needle, and no earlier one does.
pub proof fn lemma_first_from(s: Seq<char>, needle: Seq<char>, i: int)
    requires
        0 <= i,
    ensures
        match first_from(s, needle, i) {
            Some(k) => i <= k && occurs_at(s, needle, k) && forall|j: int|
                i <= j < k ==> !occurs_at(s, needle, j),
            None => forall|j: int| i <= j ==> !occurs_at(s, needle, j),
        },
    decreases s.len() + 1 - i,
{
    if i <= s.len() && !occurs_at(s, needle, i) {
        lemma_first_from(s, needle, i + 1);
    }
}

fn stands_at(s: &[char], needle: &[char], i: usize) -> (r: bool)
    requires
        i <= s@.len(),
    ensures
        r == occurs_at(s@, needle@, i as int),
{
    if needle.len() > s.len() - i {
        return false;
    }
    for j in 0..needle.len()
        invariant
            i + needle@.len() <= s@.len() <= usize::MAX,
            forall|k: int| 0 <= k < j ==> s@[i + k] == needle@[k],
    {
        if s[i + j] != needle[j] {
            assert(s@.subrange(i as int, i + needle@.len())[j as int] != needle@[j as int]);
            return false;
        }
    }
    assert(s@.subrange(i as int, i + needle@.len()) =~= needle@);
    true
}

/// The first position from `from` on at which `needle` stands in `s`.
pub fn find_from(s: &[char], needle: &[char], from: usize) -> (r: Option<usize>)
    requires
        from <= s@.len(),
    ensures
        match r {
            Some(i) => first_from(s@, needle@, from as int) == Some(i as int),
            None => first_from(s@, needle@, from as int) is None,
        },
{
    let mut i: usize = from;
    loop
        invariant
            from <= i <= s@.len(),
            first_from(s@, needle@, from as int) == first_from(s@, needle@, i as int),
        decreases s@.len() - i,
    {
        if stands_at(s, needle, i) {
            return Some(i);
        }
        if i == s.len() {
            assert(first_from(s@, needle@, i + 1) is None);
            return None;
        }
        i = i + 1;
    }
}

/// Whether the text begins with `prefix`.
pub fn starts_with(s: &str, prefix: &str) -> (r: bool)
    ensures
        r == begins(s@, prefix@),
{
    let text = chars_of(s);
    let head = chars_of(prefix);
    stands_at(&text, &head, 0)
}

// ---- numerals ------------------------------------------------------------

/// The digit character of a number below ten.
pub open spec fn digit(n: nat) -> char {
    (('0' as int) + n) as char
}

/// The decimal numeral of a number.
pub open spec fn decimal_of(n: nat) -> Seq<char>
    decreases n,
{
    if n < 10 {
        seq![digit(n)]
    } else {
        decimal_of(n / 10).push(digit(n % 10))
    }
}

fn digit_char(d: u64) -> (r: char)
    requires
        d < 10,
    ensures
        r == digit(d as nat),
{
    (('0' as u8) + (d as u8)) as char
}

/// Appends the decimal numeral of `n`.
pub fn push_decimal(out: &mut String, n: u64)
    ensures
        final(out)@ == old(out)@ + decimal_of(n as nat),
    decreases n,
{
    if n < 10 {
        out.push(digit_char(n));
        assert(out@ =~= old(out)@ + decimal_of(n as nat));
    } else {
        push_decimal(out, n / 10);
        out.push(digit_char(n % 10));
        assert(out@ =~= old(out)@ + decimal_of(n as nat));
    }
}

/// The decimal numeral of `n`.
pub fn decimal(n: u64) -> (r: String)
    ensures
        r@ == decimal_of(n as nat),
{
    let mut out = String::new();
    push_decimal(&mut out, n);
    assert(Seq::<char>::empty() + decimal_of(n as nat) =~= decimal_of(n as nat));
    out
}

/// The number that a run of digits stands for, or `None` when another character occurs.
pub open spec fn digits_value(s: Seq<char>) -> Option<nat>
    decreases s.len(),
{
    if s.len() == 0 {
        Some(0)
    } else {
        match digits_value(s.drop_last()) {
            Some(v) if '0' <= s.last() <= '9' => Some(v * 10 + (s.last() as nat - '0' as nat) as nat),
            _ => None,
        }
    }
}

/// What an unsigned integer of at most `max` is read from: one digit or more, after an
/// optional plus sign.
pub open spec fn unsigned_value(s: Seq<char>, max: nat) -> Option<nat> {
    let body = if s.len() > 0 && s[0] == '+' {
        s.skip(1)
    } else {
        s
    };
    match digits_value(body) {
        Some(v) if body.len() > 0 && v <= max => Some(v),
        _ => None,
    }
}

proof fn lemma_digits_value_grows(s: Seq<char>, k: int)
    requires
        0 <= k <= s.len(),
    ensures
        match (digits_value(s), digits_value(s.take(k))) {
            (Some(v), Some(u)) => u <= v,
            (Some(_), None) => false,
            _ => true,
        },
    decreases s.len(),
{
    if k == s.len() {
        assert(s.take(k) =~= s);
    } else {
        assert(s.drop_last().take(k) =~= s.take(k));
        lemma_digits_value_grows(s.drop_last(), k);
    }
}

/// Reads an unsigned integer of at most `max`.
pub fn parse_unsigned(s: &str, max: u64) -> (r: Option<u64>)
    ensures
        match r {
            Some(v) => unsigned_value(s@, max as nat) == Some(v as nat),
            None => unsigned_value(s@, max as nat) is None,
        },
{
    let chars = chars_of(s);
    let start: usize = if chars.len() > 0 && chars[0] == '+' {
        1
    } else {
        0
    };
    let ghost body = chars@.skip(start as int);
    assert(start == 0 ==> body =~= chars@);
    if chars.len() == start {
        return None;
    }
    let mut value: u64 = 0;
    let mut i: usize = start;
    assert(body.take(0) =~= Seq::<char>::empty());
    while i < chars.len()
        invariant
            start <= i <= chars@.len(),
            chars@ == s@,
            start == (if s@.len() > 0 && s@[0] == '+' { 1int } else { 0int }),
            start == 0 ==> body == s@,
            body == chars@.skip(start as int),
            value <= max,
            digits_value(body.take(i - start)) == Some(value as nat),
        decreases chars@.len() - i,
    {
        let c = chars[i];
        proof {
            assert(body.take(i + 1 - start).drop_last() =~= body.take(i - start));
            lemma_digits_value_grows(body, i + 1 - start);
        }
        if !('0' <= c && c <= '9') {
            assert(digits_value(body.take(i + 1 - start)) is None);
            return None;
        }
        let d: u64 = (c as u64) - ('0' as u64);
        if value > max / 10 || (value == max / 10 && d > max % 10) {
            assert(value * 10 + d > max);
            return None;
        }
        value = value * 10 + d;
        i = i + 1;
    }
    assert(body.take(chars@.len() - start) =~= body);
    Some(value)
}

/// The hexadecimal digit of a number below sixteen.
pub open spec fn hex_digit(n: nat) -> char {
    if n < 10 {
        digit(n)
    } else {
        (('a' as int) + n - 10) as char
    }
}

/// The lower-case hexadecimal numeral of `n` in exactly `width` digits.
pub open spec fn hex_of(n: nat, width: nat) -> Seq<char>
    decreases width,
{
    if width == 0 {
        Seq::empty()
    } else {
        hex_of(n / 16, (width - 1) as nat).push(hex_digit(n % 16))
    }
}

fn push_hex(out: &mut String, n: u64, width: u32)
    ensures
        final(out)@ == old(out)@ + hex_of(n as nat, width as nat),
    decreases width,
{
    if width == 0 {
        assert(out@ =~= old(out)@ + hex_of(n as nat, 0));
    } else {
        push_hex(out, n / 16, width - 1);
        let d: u64 = n % 16;
        let c = if d < 10 {
            digit_char(d)
        } else {
            (('a' as u8) + (d as u8 - 10)) as char
        };
        out.push(c);
        assert(out@ =~= old(out)@ + hex_of(n as nat, width as nat));
    }
}

/// The sixteen-digit hexadecimal numeral of `n`.
pub fn hex16(n: u64) -> (r: String)
    ensures
        r@ == hex_of(n as nat, 16),
{
    let mut out = String::new();
    push_hex(&mut out, n, 16);
    assert(Seq::<char>::empty() + hex_of(n as nat, 16) =~= hex_of(n as nat, 16));
    out
}

/// Sixteen to the power of `k`.
pub open spec fn sixteen_to(k: nat) -> nat
    decreases k,
{
    if k == 0 {
        1
    } else {
        16 * sixteen_to((k - 1) as nat)
    }
}

/// Two numbers that fit the width and have the same hexadecimal numeral are equal.
pub proof fn law_hex_numerals_are_distinct(a: nat, b: nat, width: nat)
    requires
        a < sixteen_to(width),
        b < sixteen_to(width),
        hex_of(a, width) == hex_of(b, width),
    ensures
        a == b,
    decreases width,
{
    if width > 0 {
        let x = hex_of(a / 16, (width - 1) as nat);
        let y = hex_of(b / 16, (width - 1) as nat);
        assert(hex_of(a, width).drop_last() =~= x);
        assert(hex_of(b, width).drop_last() =~= y);
        assert(hex_of(a, width).last() == hex_digit(a % 16));
        assert(hex_of(b, width).last() == hex_digit(b % 16));
        assert(a % 16 == b % 16);
        law_hex_numerals_are_distinct(a / 16, b / 16, (width - 1) as nat);
    }
}

// ---- order and joining ---------------------------------------------------

/// The order of texts by their characters' code points, which is also the order of
/// their UTF-8 bytes.
pub open spec fn text_le(a: Seq<char>, b: Seq<char>) -> bool
    decreases a.len(),
{
    if a.len() == 0 {
        true
    } else if b.len() == 0 {
        false
    } else if a[0] != b[0] {
        a[0] < b[0]
    } else {
        text_le(a.skip(1), b.skip(1))
    }
}

pub proof fn lemma_text_le_total(a: Seq<char>, b: Seq<char>)
    ensures
        text_le(a, b) || text_le(b, a),
    decreases a.len(),
{
    if a.len() > 0 && b.len() > 0 && a[0] == b[0] {
        lemma_text_le_total(a.skip(1), b.skip(1));
    }
}

pub proof fn lemma_text_le_transitive(a: Seq<char>, b: Seq<char>, c: Seq<char>)
    requires
        text_le(a, b),
        text_le(b, c),
    ensures
        text_le(a, c),
    decreases a.len(),
{
    if a.len() > 0 && b.len() > 0 && c.len() > 0 && a[0] == b[0] && b[0] == c[0] {
        lemma_text_le_transitive(a.skip(1), b.skip(1), c.skip(1));
    }
}

/// Whether `a` does not come after `b`.
pub fn not_after(a: &str, b: &str) -> (r: bool)
    ensures
        r == text_le(a@, b@),
{
    let x = chars_of(a);
    let y = chars_of(b);
    let mut i: usize = 0;
    assert(x@.skip(0) =~= x@);
    assert(y@.skip(0) =~= y@);
    while i < x.len() && i < y.len() && x[i] == y[i]
        invariant
            i <= x@.len(),
            i <= y@.len(),
            text_le(x@, y@) == text_le(x@.skip(i as int), y@.skip(i as int)),
        decreases x@.len() - i,
    {
        assert(x@.skip(i as int).skip(1) =~= x@.skip(i + 1));
        assert(y@.skip(i as int).skip(1) =~= y@.skip(i + 1));
        i = i + 1;
    }
    i == x.len() || (i < y.len() && x[i] < y[i])
}

} // verus!
