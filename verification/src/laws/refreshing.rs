//! How often widgets are refreshed, and which a pass resolves.

use vstd::prelude::*;

use crate::clock::{
    cadence_in_range, cadence_secs, leap_between, nanos_between, secs_between, spans_fit, Instant,
    Numeral,
};
use crate::laws::texts::{
    all_white, law_blank_texts_are_white, law_numerals_read_back, law_trimming_leaves_the_text, tidy,
};
use crate::model::{SourceView, WidgetView};
use crate::refresh::{due, last_refresh, pass_over, refreshes, refreshing};
use crate::store::{readable_widgets, StoreView, WidgetRowView};
use crate::text::{decimal_of, is_white};

verus! {

/// Whether a source costs money or tokens, or goes out to the network.
pub open spec fn costs(source: SourceView) -> bool {
    match source {
        SourceView::Static { .. } => false,
        SourceView::CoreEndpoint { .. } => false,
        SourceView::Monitor { .. } => false,
        SourceView::Workflow { .. } => true,
        SourceView::Composio { .. } => true,
        SourceView::Http { .. } => true,
        SourceView::Agent { .. } => true,
    }
}

/// Workflows, actions, external endpoints and agents cost; all but inline data changes.
pub proof fn law_sources_that_cost(source: SourceView)
    ensures
        source.expensive() <==> costs(source),
        source.refreshable() <==> !(source is Static),
{
}

/// A cadence that can be read, and that is not below the source's floor, is the interval
/// itself, for every kind of source; a shorter one is raised to the floor: five seconds for
/// what the node itself answers, thirty for what costs.
pub proof fn law_cadences_are_kept_above_the_floor(w: WidgetView, n: u64)
    requires
        w.cadence() == Some(n),
    ensures
        n >= w.source.min_interval() ==> w.effective_interval() == n,
        n < w.source.min_interval() ==> w.effective_interval() == w.source.min_interval(),
        costs(w.source) ==> w.effective_interval() == (if n < 30 {
            30
        } else {
            n
        }),
        !costs(w.source) && !(w.source is Static) ==> w.effective_interval() == (if n < 5 {
            5
        } else {
            n
        }),
        w.source is Static ==> w.effective_interval() == u64::MAX,
{
}

/// A widget that sets no cadence, or none that can be read, has the default of its source:
/// fifteen seconds for what the node itself answers, a minute for external endpoints, two
/// minutes for the rest, and never for inline data.
pub proof fn law_unset_cadences_have_a_default(w: WidgetView)
    requires
        w.cadence() is None,
    ensures
        w.source is CoreEndpoint || w.source is Monitor ==> w.effective_interval() == 15,
        w.source is Http ==> w.effective_interval() == 60,
        w.source is Workflow || w.source is Composio || w.source is Agent
            ==> w.effective_interval() == 120,
        w.source is Static ==> w.effective_interval() == u64::MAX,
{
}

/// A cadence is what its text stands for, whatever white space is around it; an absent or
/// blank one is none.
pub proof fn law_cadences_are_read_from_the_text(
    w: WidgetView,
    before: Seq<char>,
    text: Seq<char>,
    after: Seq<char>,
)
    requires
        all_white(before),
        tidy(text),
        all_white(after),
    ensures
        w.refresh_interval == Some(before + text + after) ==> w.cadence() == if cadence_in_range(
            text,
        ) {
            cadence_secs(text)
        } else {
            None
        },
        w.refresh_interval is None ==> w.cadence() is None,
        w.refresh_interval == Some(before) ==> w.cadence() is None,
{
    law_trimming_leaves_the_text(before, text, after);
    law_blank_texts_are_white(before);
}

/// A widget is not due before the seconds of its cadence have passed since its last refresh,
/// and is due from then on.
pub proof fn law_widgets_wait_for_their_cadence(w: WidgetView, n: u64, then: Instant, now: Instant)
    requires
        w.cadence() == Some(n),
        last_refresh(w) == Some(then),
    ensures
        n >= w.source.min_interval() ==> (due(w, now) <==> secs_between(now, then) >= n),
        costs(w.source) && n < 30 ==> (due(w, now) <==> secs_between(now, then) >= 30),
        w.source is Static ==> (due(w, now) <==> secs_between(now, then) >= u64::MAX),
{
}

/// A pass resolves, in their order, exactly the widgets that are no inline data, that cost
/// nothing unless someone watches, and that were never refreshed or whose interval has passed.
pub proof fn law_a_pass_picks_the_widgets_in_order(
    list: Seq<WidgetView>,
    has_viewer: bool,
    now: Instant,
)
    ensures
        refreshing(list, has_viewer, now) == list.filter(
            |w: WidgetView|
                !(w.source is Static) && (has_viewer || !costs(w.source)) && (match last_refresh(w) {
                    None => true,
                    Some(t) => secs_between(now, t) >= w.effective_interval(),
                }),
        ),
    decreases list.len(),
{
    let f = |w: WidgetView|
        !(w.source is Static) && (has_viewer || !costs(w.source)) && (match last_refresh(w) {
            None => true,
            Some(t) => secs_between(now, t) >= w.effective_interval(),
        });
    reveal(Seq::filter);
    if list.len() > 0 {
        law_a_pass_picks_the_widgets_in_order(list.drop_last(), has_viewer, now);
        assert(refreshes(list.last(), has_viewer, now) == f(list.last()));
    }
}

/// A pass is made every five seconds, no less often than any source may be refreshed.
pub proof fn law_passes_keep_up_with_the_sources(w: WidgetView)
    ensures
        crate::refresh::TICK_SECS == 5,
        crate::refresh::TICK_SECS <= w.effective_interval(),
{
}

/// The last refresh is when the widget says that it was refreshed, as far as that can be read.
pub proof fn law_the_last_refresh_is_what_the_widget_says(w: WidgetView, at: Seq<char>)
    ensures
        w.last_refresh_at == Some(at) ==> last_refresh(w) == crate::clock::rfc3339_instant(at),
        w.last_refresh_at is None ==> last_refresh(w) is None,
{
}

/// A pass goes over every readable widget of the store, and someone watches when a viewer is
/// counted, however many subscribers there are.
pub proof fn law_a_pass_goes_over_the_store(s: StoreView, now: Instant)
    ensures
        pass_over(s, now) == refreshing(readable_widgets(s.widgets), s.viewers >= 1, now),
        s.viewers == 0 ==> forall|i: int|
            0 <= i < pass_over(s, now).len() ==> !costs((#[trigger] pass_over(s, now)[i]).source),
{
    if s.viewers == 0 {
        assert forall|i: int| 0 <= i < pass_over(s, now).len() implies !costs(
            (#[trigger] pass_over(s, now)[i]).source,
        ) by {
            crate::refresh::law_no_viewer_no_cost(readable_widgets(s.widgets), now, i);
        }
    }
}

/// The readable widgets are those of the rows that have one, in the order of the rows.
pub proof fn law_readable_widgets_are_those_of_the_rows(rows: Seq<WidgetRowView>)
    ensures
        readable_widgets(rows) == rows.filter(|r: WidgetRowView| r.body is Some).map_values(
            |r: WidgetRowView| r.body.unwrap(),
        ),
    decreases rows.len(),
{
    reveal(Seq::filter);
    let has = |r: WidgetRowView| r.body is Some;
    let get = |r: WidgetRowView| r.body.unwrap();
    if rows.len() > 0 {
        law_readable_widgets_are_those_of_the_rows(rows.drop_last());
        let before = rows.drop_last().filter(has);
        if rows.last().body is Some {
            assert(rows.filter(has) == before.push(rows.last()));
            assert(before.push(rows.last()).map_values(get) =~= before.map_values(get).push(
                get(rows.last()),
            ));
        }
    } else {
        assert(rows.filter(has) =~= Seq::<WidgetRowView>::empty());
        assert(readable_widgets(rows) =~= rows.filter(has).map_values(get));
    }
}

// ---- time ----------------------------------------------------------------

/// Whole seconds later is that many seconds, and the way back counts the same backwards; what
/// is less than a second does not count.
pub proof fn law_seconds_are_counted(a: Instant, b: Instant, n: i64, part: u32)
    requires
        a.nanos < 1_000_000_000,
        b.nanos < 1_000_000_000,
        part < 1_000_000_000,
    ensures
        b.secs == a.secs + n && b.nanos == a.nanos ==> secs_between(b, a) == n,
        secs_between(a, b) == -secs_between(b, a),
        n >= 0 && b.secs == a.secs + n && b.nanos == a.nanos + part ==> secs_between(b, a) == n,
        n > 0 && b.secs == a.secs + n && b.nanos < a.nanos ==> secs_between(b, a) == n - 1,
{
    assert(leap_between(a, b) == 0 && leap_between(b, a) == 0);
    let d = (b.secs - a.secs) * 1_000_000_000 + b.nanos - a.nanos;
    assert(nanos_between(b, a) == d);
    assert(nanos_between(a, b) == -d);
}

// ---- cadences ------------------------------------------------------------

proof fn lemma_digits_fit(s: Seq<char>, digits: Seq<char>, value: nat, rest: Seq<char>)
    requires
        s == digits + rest,
        crate::text::digits_value(digits) == Some(value),
        value <= u64::MAX,
    ensures
        spans_fit(s, 0, Numeral::zero(), 0) == spans_fit(
            s,
            digits.len() as int,
            Numeral { whole: value, pointed: false, part: 0, scale: 1 },
            0,
        ),
    decreases digits.len(),
{
    if digits.len() > 0 {
        let head = digits.drop_last();
        let before = crate::text::digits_value(head).unwrap();
        assert(s =~= head + (seq![digits.last()] + rest));
        lemma_digits_fit(s, head, before, seq![digits.last()] + rest);
        assert(s[head.len() as int] == digits.last());
    }
}

/// A whole number of seconds is in range, and so is any whole number of another unit that comes
/// to no more seconds than sixty-four bits count.
pub proof fn law_whole_cadences_are_in_range(n: u64)
    ensures
        cadence_in_range(decimal_of(n as nat) + "s"@),
        cadence_in_range(decimal_of(n as nat) + "ns"@),
        cadence_in_range(decimal_of(n as nat) + "us"@),
        cadence_in_range(decimal_of(n as nat) + "ms"@),
        n * 60 <= u64::MAX <==> cadence_in_range(decimal_of(n as nat) + "m"@),
        n * 60 <= u64::MAX <==> cadence_in_range(decimal_of(n as nat) + "min"@),
        n * 3_600 <= u64::MAX <==> cadence_in_range(decimal_of(n as nat) + "h"@),
        n * 86_400 <= u64::MAX <==> cadence_in_range(decimal_of(n as nat) + "d"@),
        n * 604_800 <= u64::MAX <==> cadence_in_range(decimal_of(n as nat) + "w"@),
        n * 2_630_016 <= u64::MAX <==> cadence_in_range(decimal_of(n as nat) + "M"@),
        n * 2_630_016 <= u64::MAX <==> cadence_in_range(decimal_of(n as nat) + "months"@),
        n * 31_557_600 <= u64::MAX <==> cadence_in_range(decimal_of(n as nat) + "y"@),
{
    reveal_strlit("s");
    reveal_strlit("ns");
    reveal_strlit("us");
    reveal_strlit("ms");
    reveal_strlit("m");
    reveal_strlit("min");
    reveal_strlit("h");
    reveal_strlit("d");
    reveal_strlit("w");
    reveal_strlit("M");
    reveal_strlit("months");
    reveal_strlit("y");
    lemma_one_span(n, "s"@, 1_000_000_000);
    lemma_one_span(n, "ns"@, 1);
    lemma_one_span(n, "us"@, 1_000);
    lemma_one_span(n, "ms"@, 1_000_000);
    lemma_one_span(n, "m"@, 60_000_000_000);
    lemma_one_span(n, "min"@, 60_000_000_000);
    lemma_one_span(n, "h"@, 3_600_000_000_000);
    lemma_one_span(n, "d"@, 86_400_000_000_000);
    lemma_one_span(n, "w"@, 604_800_000_000_000);
    lemma_one_span(n, "M"@, 2_630_016_000_000_000);
    lemma_one_span(n, "months"@, 2_630_016_000_000_000);
    lemma_one_span(n, "y"@, 31_557_600_000_000_000);
}

proof fn lemma_letters_add_nothing(s: Seq<char>, i: int, total: nat)
    requires
        0 <= i <= s.len(),
        total < crate::clock::DURATION_END,
        forall|j: int| i <= j < s.len() ==> 'A' <= #[trigger] s[j] <= 'z',
    ensures
        spans_fit(s, i, Numeral::zero(), total),
    decreases s.len() - i,
{
    if i < s.len() {
        let unit = crate::clock::unit_nanos(s, i);
        assert('A' <= s[i] <= 'z');
        assert(!is_white(s[i]));
        assert(Numeral::zero().of(unit) == 0) by (nonlinear_arith)
            requires
                Numeral::zero().of(unit) == 0 * unit + 0 * unit / 1,
        ;
        lemma_letters_add_nothing(s, i + 1, total);
    }
}

proof fn lemma_one_span(n: u64, unit: Seq<char>, nanos: nat)
    requires
        unit.len() > 0,
        nanos > 0,
        crate::clock::unit_nanos(unit, 0) == nanos,
        forall|j: int| 0 <= j < unit.len() ==> 'A' <= #[trigger] unit[j] <= 'z',
    ensures
        cadence_in_range(decimal_of(n as nat) + unit) <==> n * nanos < crate::clock::DURATION_END,
{
    let digits = decimal_of(n as nat);
    let s = digits + unit;
    let at = digits.len() as int;
    law_numerals_read_back(n as nat);
    lemma_digits_fit(s, digits, n as nat, unit);
    let numeral = Numeral { whole: n as nat, pointed: false, part: 0, scale: 1 };
    assert(s[at] == unit[0]);
    assert(at + 1 < s.len() ==> s[at + 1] == unit[1]);
    assert(at + 2 < s.len() ==> s[at + 2] == unit[2]);
    assert(crate::clock::unit_nanos(s, at) == nanos);
    assert(!is_white(s[at]) && !('0' <= s[at] <= '9') && s[at] != '.');
    assert(numeral.of(nanos) == n * nanos) by (nonlinear_arith)
        requires
            numeral.of(nanos) == n as nat * nanos + 0 * nanos / 1,
    ;
    let total = (n * nanos) as nat;
    assert forall|j: int| at + 1 <= j < s.len() implies 'A' <= #[trigger] s[j] <= 'z' by {
        assert(s[j] == unit[j - at]);
    }
    if total < crate::clock::DURATION_END {
        lemma_letters_add_nothing(s, at + 1, total);
    } else {
        assert(!spans_fit(s, at + 1, Numeral::zero(), total));
    }
    assert(spans_fit(s, at, numeral, 0) == spans_fit(s, at + 1, Numeral::zero(), total));
}

proof fn lemma_digits_fit_at(
    s: Seq<char>,
    i: int,
    digits: Seq<char>,
    value: nat,
    from: Numeral,
    total: nat,
)
    requires
        0 <= i,
        i + digits.len() <= s.len(),
        s.subrange(i, i + digits.len()) == digits,
        crate::text::digits_value(digits) == Some(value),
        value <= u64::MAX,
        total < crate::clock::DURATION_END,
        from == Numeral::zero(),
    ensures
        spans_fit(s, i, from, total) == spans_fit(
            s,
            i + digits.len(),
            Numeral { whole: value, pointed: false, part: 0, scale: 1 },
            total,
        ),
    decreases digits.len(),
{
    if digits.len() > 0 {
        let head = digits.drop_last();
        let before = crate::text::digits_value(head).unwrap();
        assert(s.subrange(i, i + head.len()) =~= head);
        lemma_digits_fit_at(s, i, head, before, from, total);
        assert(s[i + head.len()] == s.subrange(i, i + digits.len())[head.len() as int]);
    }
}

/// One span of a cadence: where a numeral and a one-letter unit stand, the total grows by so
/// many of the unit.
proof fn lemma_span_at(s: Seq<char>, i: int, n: u64, letter: char, nanos: nat, total: nat)
    requires
        0 <= i,
        i + decimal_of(n as nat).len() < s.len(),
        s.subrange(i, i + decimal_of(n as nat).len()) == decimal_of(n as nat),
        s[i + decimal_of(n as nat).len()] == letter,
        'A' <= letter <= 'z',
        crate::clock::unit_nanos(s, i + decimal_of(n as nat).len()) == nanos,
        total < crate::clock::DURATION_END,
    ensures
        spans_fit(s, i, Numeral::zero(), total) == spans_fit(
            s,
            i + decimal_of(n as nat).len() + 1,
            Numeral::zero(),
            (total + n * nanos) as nat,
        ),
{
    let digits = decimal_of(n as nat);
    law_numerals_read_back(n as nat);
    lemma_digits_fit_at(s, i, digits, n as nat, Numeral::zero(), total);
    let numeral = Numeral { whole: n as nat, pointed: false, part: 0, scale: 1 };
    assert(numeral.of(nanos) == n * nanos) by (nonlinear_arith)
        requires
            numeral.of(nanos) == n as nat * nanos + 0 * nanos / 1,
    ;
    assert(!is_white(letter) && !('0' <= letter <= '9') && letter != '.');
}

/// Spans add up: so many hours and so many minutes, with or without a space between them, are in
/// range exactly when their seconds together are.
pub proof fn law_compound_cadences_are_in_range(h: u64, m: u64)
    requires
        h * 3_600 <= u64::MAX,
    ensures
        cadence_in_range(decimal_of(h as nat) + "h"@ + decimal_of(m as nat) + "m"@) <==> h * 3_600 + m
            * 60 <= u64::MAX,
        cadence_in_range(decimal_of(h as nat) + "h "@ + decimal_of(m as nat) + "m"@) <==> h * 3_600
            + m * 60 <= u64::MAX,
{
    reveal_strlit("h");
    reveal_strlit("h ");
    reveal_strlit("m");
    let (a, b) = (decimal_of(h as nat), decimal_of(m as nat));
    law_numerals_read_back(h as nat);
    law_numerals_read_back(m as nat);
    let s = a + "h"@ + b + "m"@;
    let t = a + "h "@ + b + "m"@;
    let first = (h * 3_600_000_000_000) as nat;
    let both = (first + m * 60_000_000_000) as nat;
    assert(s.subrange(0, a.len() as int) =~= a);
    assert(t.subrange(0, a.len() as int) =~= a);
    lemma_span_at(s, 0, h, 'h', 3_600_000_000_000, 0);
    lemma_span_at(t, 0, h, 'h', 3_600_000_000_000, 0);
    let i: int = a.len() + 1int;
    let j: int = a.len() + 2int;
    assert(s.subrange(i, i + b.len()) =~= b);
    assert(t.subrange(j, j + b.len()) =~= b);
    assert(t[i] == ' ');
    assert(is_white(t[i]));
    lemma_span_at(s, i, m, 'm', 60_000_000_000, first);
    lemma_span_at(t, j, m, 'm', 60_000_000_000, first);
    assert(s.len() == i + b.len() + 1);
    assert(t.len() == j + b.len() + 1);
}

/// A numeral may have a fraction: so many hours and tenths of one are in range where one hour
/// more would be.
pub proof fn law_cadences_may_have_a_fraction(h: u64, d: nat)
    requires
        d < 10,
        (h + 1) * 3_600 <= u64::MAX,
    ensures
        cadence_in_range(decimal_of(h as nat) + "."@ + decimal_of(d) + "h"@),
{
    reveal_strlit(".");
    reveal_strlit("h");
    let a = decimal_of(h as nat);
    let b = decimal_of(d);
    law_numerals_read_back(h as nat);
    law_numerals_read_back(d);
    assert(b.len() == 1);
    let s = a + "."@ + b + "h"@;
    let i = a.len() as int;
    assert(s.subrange(0, i) =~= a);
    lemma_digits_fit_at(s, 0, a, h as nat, Numeral::zero(), 0);
    assert(s[i] == '.' && s[i + 1] == b[0] && s[i + 2] == 'h');
    let n0 = Numeral { whole: h as nat, pointed: false, part: 0, scale: 1 };
    let n1 = Numeral { pointed: true, ..n0 };
    let n2 = Numeral { whole: h as nat, pointed: true, part: d, scale: 10 };
    let unit: nat = 3_600_000_000_000;
    assert(crate::text::digits_value(b) == Some(d));
    assert(b.drop_last() =~= Seq::<char>::empty());
    assert(n1.with_digit((b[0] as nat - '0' as nat) as nat) == n2);
    assert(!is_white('.') && !is_white('h'));
    assert(n2.of(unit) < crate::clock::DURATION_END) by {
        assert(d * unit / 10 <= unit) by (nonlinear_arith)
            requires
                d < 10,
                unit == 3_600_000_000_000,
        ;
    }
    assert(spans_fit(s, i, n0, 0) == spans_fit(s, i + 1, n1, 0));
    assert(spans_fit(s, i + 1, n1, 0) == spans_fit(s, i + 2, n2, 0));
    assert(spans_fit(s, i + 2, n2, 0) == spans_fit(s, i + 3, Numeral::zero(), n2.of(unit)));
}

} // verus!
