//! The picture of a dashboard: each widget in its own cell, and what stands in it.

use vstd::prelude::*;

use crate::json::{printed_tree, stored_tree, JsonView, NumberView};
use crate::laws::texts::{
    ends_with, law_numerals_read_back, lemma_ends_with, lemma_mentions, mentions,
};
use crate::laws::typesetting::law_escaping_loses_nothing;
use crate::model::{GridLayout, Widget, WidgetKind, WidgetView};
use crate::panel::{
    cached, cells_svg, document, drawing, edges_fit, empty_svg, frame_svg, grid_rows, lines_svg, list_items,
    lower_edge, metric_text, opening_svg, prose, renderer_of, row_texts, shorter, span_of, text_svg,
    title_svg, wanted_lines, CellGeometry, DeviceProfile, Palette, PanelGeometry, Pixels, TextSpot,
    WidgetRenderer,
};
use crate::text::{begins, blank, decimal_of, digits_value, occurs_at};
use crate::typeset::{escaped, row_text, shown, truncated, wrapped};

verus! {

// ---- joining texts -------------------------------------------------------

proof fn lemma_regrouped(a: Seq<char>, b: Seq<char>, c: Seq<char>)
    ensures
        a + b + c == a + (b + c),
{
    assert(a + b + c =~= a + (b + c));
}

proof fn lemma_wrapped_up(
    opening: Seq<char>,
    a: Seq<char>,
    b: Seq<char>,
    c: Seq<char>,
    closing: Seq<char>,
)
    ensures
        opening + (a + b + c) + closing == (opening + a) + b + (c + closing),
{
    assert(opening + (a + b + c) + closing =~= (opening + a) + b + (c + closing));
}

/// What stands in a part of a text stands in the text.
proof fn lemma_mentions_inside(a: Seq<char>, s: Seq<char>, b: Seq<char>, part: Seq<char>)
    requires
        mentions(s, part),
    ensures
        mentions(a + s + b, part),
{
    let i = choose|i: int| #[trigger] occurs_at(s, part, i);
    let whole = a + s + b;
    let j = a.len() + i;
    assert(whole.subrange(j, j + part.len()) =~= s.subrange(i, i + part.len()));
    assert(occurs_at(whole, part, j));
}

proof fn lemma_mentions_first(s: Seq<char>, b: Seq<char>, part: Seq<char>)
    requires
        mentions(s, part),
    ensures
        mentions(s + b, part),
{
    let none = Seq::<char>::empty();
    lemma_mentions_inside(none, s, b, part);
    assert(none + s + b =~= s + b);
}

proof fn lemma_mentions_last(a: Seq<char>, s: Seq<char>, part: Seq<char>)
    requires
        mentions(s, part),
    ensures
        mentions(a + s, part),
{
    let none = Seq::<char>::empty();
    lemma_mentions_inside(a, s, none, part);
    assert(a + s + none =~= a + s);
}

proof fn lemma_mentions_itself(s: Seq<char>)
    ensures
        mentions(s, s),
{
    let none = Seq::<char>::empty();
    lemma_mentions(none, s, none);
    assert(none + s + none =~= s);
}

/// Texts with the same beginning and the same end differ where their middles do.
proof fn lemma_middles(a: Seq<char>, x: Seq<char>, y: Seq<char>, b: Seq<char>)
    requires
        a + x + b == a + y + b,
    ensures
        x == y,
{
    let s = a + x + b;
    let t = a + y + b;
    assert(s.len() == a.len() + x.len() + b.len());
    assert(t.len() == a.len() + y.len() + b.len());
    assert(x =~= s.subrange(a.len() as int, (a.len() + x.len()) as int));
    assert(y =~= t.subrange(a.len() as int, (a.len() + y.len()) as int));
}

// ---- each widget in its own cell -----------------------------------------

/// Whether `heads` are the beginnings of a document: the one before the first widget, and for
/// each widget the one that ends with its picture, drawn by the renderer of its kind in its own
/// cell.
pub open spec fn drawn_in_turn(
    heads: Seq<Seq<char>>,
    widgets: Seq<Widget>,
    cells: Seq<CellGeometry>,
    mono: bool,
) -> bool {
    &&& heads.len() == widgets.len() + 1
    &&& forall|i: int|
        0 <= i < widgets.len() ==> #[trigger] heads[i + 1] == heads[i] + drawing(
            renderer_of(widgets[i].kind),
            widgets[i]@,
            cells[i],
            mono,
        )
}

proof fn lemma_heads(
    start: Seq<char>,
    widgets: Seq<Widget>,
    cells: Seq<CellGeometry>,
    mono: bool,
    count: int,
) -> (heads: Seq<Seq<char>>)
    requires
        0 <= count <= widgets.len(),
    ensures
        heads.len() == count + 1,
        heads[0] == start,
        heads[count] == start + cells_svg(widgets, cells, mono, count),
        forall|i: int|
            0 <= i < count ==> #[trigger] heads[i + 1] == heads[i] + drawing(
                renderer_of(widgets[i].kind),
                widgets[i]@,
                cells[i],
                mono,
            ),
    decreases count,
{
    if count == 0 {
        assert(start + cells_svg(widgets, cells, mono, 0) =~= start);
        seq![start]
    } else {
        let before = lemma_heads(start, widgets, cells, mono, count - 1);
        let picture = drawing(
            renderer_of(widgets[count - 1].kind),
            widgets[count - 1]@,
            cells[count - 1],
            mono,
        );
        let heads = before.push(before[count - 1] + picture);
        lemma_regrouped(start, cells_svg(widgets, cells, mono, count - 1), picture);
        assert forall|i: int| 0 <= i < count implies #[trigger] heads[i + 1] == heads[i] + drawing(
            renderer_of(widgets[i].kind),
            widgets[i]@,
            cells[i],
            mono,
        ) by {
            if i < count - 1 {
                assert(heads[i + 1] == before[i + 1]);
            }
        }
        heads
    }
}

/// A document draws every widget in its own cell, in turn: it begins with the ground, each
/// widget's picture follows where the one before it ends, and nothing but the closing tag comes
/// after the last.
pub proof fn law_each_widget_is_drawn_in_its_cell(
    widgets: Seq<Widget>,
    profile: DeviceProfile,
    geometry: PanelGeometry,
)
    requires
        widgets.len() > 0,
        geometry.cells@.len() == widgets.len(),
    ensures
        exists|heads: Seq<Seq<char>>|
            {
                &&& #[trigger] drawn_in_turn(heads, widgets, geometry.cells@, profile.eink())
                &&& heads[0] == opening_svg(profile)
                &&& document(widgets, profile, geometry) == heads[widgets.len() as int] + "</svg>"@
            },
{
    let n = widgets.len() as int;
    let heads = lemma_heads(opening_svg(profile), widgets, geometry.cells@, profile.eink(), n);
    assert(drawn_in_turn(heads, widgets, geometry.cells@, profile.eink()));
}

/// The pictures of the widgets from `start` on, as they follow each other.
proof fn lemma_split_cells(
    widgets: Seq<Widget>,
    cells: Seq<CellGeometry>,
    mono: bool,
    i: int,
    count: int,
) -> (tail: Seq<char>)
    requires
        0 <= i < count <= widgets.len(),
    ensures
        cells_svg(widgets, cells, mono, count) == cells_svg(widgets, cells, mono, i) + drawing(
            renderer_of(widgets[i].kind),
            widgets[i]@,
            cells[i],
            mono,
        ) + tail,
    decreases count,
{
    let picture = drawing(renderer_of(widgets[i].kind), widgets[i]@, cells[i], mono);
    let head = cells_svg(widgets, cells, mono, i);
    if count == i + 1 {
        let tail = Seq::<char>::empty();
        assert(head + picture + tail =~= head + picture);
        tail
    } else {
        let before = lemma_split_cells(widgets, cells, mono, i, count - 1);
        let last = drawing(
            renderer_of(widgets[count - 1].kind),
            widgets[count - 1]@,
            cells[count - 1],
            mono,
        );
        lemma_regrouped(head + picture, before, last);
        before + last
    }
}

/// What is drawn of a widget in its cell stands in the document of its dashboard.
pub proof fn law_documents_hold_every_picture(
    widgets: Seq<Widget>,
    profile: DeviceProfile,
    geometry: PanelGeometry,
    i: int,
    part: Seq<char>,
)
    requires
        0 <= i < widgets.len(),
        geometry.cells@.len() == widgets.len(),
        mentions(
            drawing(
                renderer_of(widgets[i].kind),
                widgets[i]@,
                geometry.cells@[i],
                profile.eink(),
            ),
            part,
        ),
    ensures
        mentions(document(widgets, profile, geometry), part),
{
    let mono = profile.eink();
    let cells = geometry.cells@;
    let all = cells_svg(widgets, cells, mono, widgets.len() as int);
    let head = cells_svg(widgets, cells, mono, i);
    let picture = drawing(renderer_of(widgets[i].kind), widgets[i]@, cells[i], mono);
    let tail = lemma_split_cells(widgets, cells, mono, i, widgets.len() as int);
    lemma_mentions_inside(head, picture, tail, part);
    lemma_mentions_inside(opening_svg(profile), all, "</svg>"@, part);
}

proof fn lemma_same_cells(
    a: Seq<Widget>,
    b: Seq<Widget>,
    cells: Seq<CellGeometry>,
    mono: bool,
    count: int,
)
    requires
        0 <= count <= a.len(),
        count <= b.len(),
        forall|j: int| 0 <= j < count ==> #[trigger] a[j] == b[j],
    ensures
        cells_svg(a, cells, mono, count) == cells_svg(b, cells, mono, count),
    decreases count,
{
    if count > 0 {
        lemma_same_cells(a, b, cells, mono, count - 1);
        assert(a[count - 1] == b[count - 1]);
    }
}

proof fn lemma_same_rest(
    a: Seq<Widget>,
    b: Seq<Widget>,
    cells: Seq<CellGeometry>,
    mono: bool,
    i: int,
    count: int,
) -> (tail: Seq<char>)
    requires
        0 <= i < count <= a.len(),
        a.len() == b.len(),
        forall|j: int| 0 <= j < a.len() && j != i ==> #[trigger] a[j] == b[j],
    ensures
        cells_svg(a, cells, mono, count) == cells_svg(a, cells, mono, i) + drawing(
            renderer_of(a[i].kind),
            a[i]@,
            cells[i],
            mono,
        ) + tail,
        cells_svg(b, cells, mono, count) == cells_svg(a, cells, mono, i) + drawing(
            renderer_of(b[i].kind),
            b[i]@,
            cells[i],
            mono,
        ) + tail,
    decreases count,
{
    let head = cells_svg(a, cells, mono, i);
    let pa = drawing(renderer_of(a[i].kind), a[i]@, cells[i], mono);
    let pb = drawing(renderer_of(b[i].kind), b[i]@, cells[i], mono);
    lemma_same_cells(a, b, cells, mono, i);
    if count == i + 1 {
        let tail = Seq::<char>::empty();
        assert(head + pa + tail =~= head + pa);
        assert(head + pb + tail =~= head + pb);
        tail
    } else {
        let before = lemma_same_rest(a, b, cells, mono, i, count - 1);
        assert(a[count - 1] == b[count - 1]);
        let last = drawing(
            renderer_of(a[count - 1].kind),
            a[count - 1]@,
            cells[count - 1],
            mono,
        );
        lemma_regrouped(head + pa, before, last);
        lemma_regrouped(head + pb, before, last);
        before + last
    }
}

/// Two dashboards that differ in one widget have documents that are alike before and after that
/// widget's picture, and hold each its own picture between.
pub proof fn law_a_widget_changes_its_own_cell(
    a: Seq<Widget>,
    b: Seq<Widget>,
    profile: DeviceProfile,
    geometry: PanelGeometry,
    i: int,
)
    requires
        0 <= i < a.len(),
        a.len() == b.len(),
        geometry.cells@.len() == a.len(),
        forall|j: int| 0 <= j < a.len() && j != i ==> #[trigger] a[j] == b[j],
    ensures
        ({
            let cell = geometry.cells@[i];
            let mono = profile.eink();
            let pa = drawing(renderer_of(a[i].kind), a[i]@, cell, mono);
            let pb = drawing(renderer_of(b[i].kind), b[i]@, cell, mono);
            &&& exists|head: Seq<char>, tail: Seq<char>|
                document(a, profile, geometry) == #[trigger] (head + pa + tail) && document(
                    b,
                    profile,
                    geometry,
                ) == head + pb + tail
            &&& pa != pb ==> document(a, profile, geometry) != document(b, profile, geometry)
        }),
{
    let cells = geometry.cells@;
    let mono = profile.eink();
    let n = a.len() as int;
    let pa = drawing(renderer_of(a[i].kind), a[i]@, cells[i], mono);
    let pb = drawing(renderer_of(b[i].kind), b[i]@, cells[i], mono);
    let mid = lemma_same_rest(a, b, cells, mono, i, n);
    let first = cells_svg(a, cells, mono, i);
    let opening = opening_svg(profile);
    let head = opening + first;
    let tail = mid + "</svg>"@;
    lemma_wrapped_up(opening, first, pa, mid, "</svg>"@);
    lemma_wrapped_up(opening, first, pb, mid, "</svg>"@);
    assert(document(a, profile, geometry) == head + pa + tail);
    assert(document(b, profile, geometry) == head + pb + tail);
    if document(a, profile, geometry) == document(b, profile, geometry) {
        lemma_middles(head, pa, pb, tail);
    }
}

proof fn lemma_text_contents(
    spot: TextSpot,
    weight: Seq<char>,
    fill: Seq<char>,
    s: Seq<char>,
    t: Seq<char>,
)
    requires
        s.len() <= spot.max_chars,
        t.len() <= spot.max_chars,
        text_svg(spot, weight, fill, s) == text_svg(spot, weight, fill, t),
    ensures
        s == t,
{
    let head = "<text x=\""@ + spot.x.text() + "\" y=\""@ + spot.y.text()
        + "\" font-family=\"Helvetica, Arial, sans-serif\" font-size=\""@ + spot.size.text()
        + "\" font-weight=\""@ + weight + "\" fill=\""@ + fill + "\">"@;
    lemma_middles(head, escaped(s), escaped(t), "</text>"@);
    law_escaping_loses_nothing(s, t);
}

/// Two dashboards that differ only in the number that one metric shows, where both numbers fit
/// its cell, have different documents.
pub proof fn law_numbers_tell_documents_apart(
    a: Seq<Widget>,
    b: Seq<Widget>,
    profile: DeviceProfile,
    geometry: PanelGeometry,
    i: int,
    m: u64,
    n: u64,
)
    requires
        0 <= i < a.len(),
        a.len() == b.len(),
        geometry.cells@.len() == a.len(),
        forall|j: int| 0 <= j < a.len() && j != i ==> #[trigger] a[j] == b[j],
        a[i].kind == WidgetKind::Stat && b[i].kind == WidgetKind::Stat,
        a[i]@.title == b[i]@.title,
        a[i]@.config == JsonView::Null && b[i]@.config == JsonView::Null,
        a[i]@.last_value == Some(JsonView::Number(NumberView::PosInt(m))),
        b[i]@.last_value == Some(JsonView::Number(NumberView::PosInt(n))),
        decimal_of(m as nat).len() <= geometry.cells@[i].value.max_chars,
        decimal_of(n as nat).len() <= geometry.cells@[i].value.max_chars,
        m != n,
    ensures
        document(a, profile, geometry) != document(b, profile, geometry),
{
    let g = geometry.cells@[i];
    let mono = profile.eink();
    law_a_widget_changes_its_own_cell(a, b, profile, geometry, i);
    law_numerals_read_back(m as nat);
    law_numerals_read_back(n as nat);
    let (s, t) = (decimal_of(m as nat), decimal_of(n as nat));
    let head = frame_svg(g) + title_svg(g, mono, a[i]@.title);
    let ts = text_svg(g.value, "700"@, "#000000"@, s);
    let tt = text_svg(g.value, "700"@, "#000000"@, t);
    let pa = drawing(renderer_of(a[i].kind), a[i]@, g, mono);
    let pb = drawing(renderer_of(b[i].kind), b[i]@, g, mono);
    assert(pa == head + ts);
    assert(pb == head + tt);
    if pa == pb {
        let none = Seq::<char>::empty();
        assert(head + ts + none =~= head + ts);
        assert(head + tt + none =~= head + tt);
        lemma_middles(head, ts, tt, none);
        lemma_text_contents(g.value, "700"@, "#000000"@, s, t);
    }
}

// ---- what stands in a cell -----------------------------------------------

/// A stat is drawn as a number, lists and tables as rows, and every other kind as text.
pub proof fn law_kinds_are_drawn_by_their_renderer(kind: WidgetKind)
    ensures
        renderer_of(kind) == WidgetRenderer::Metric <==> kind == WidgetKind::Stat,
        renderer_of(kind) == WidgetRenderer::List <==> kind == WidgetKind::List || kind
            == WidgetKind::Table,
        renderer_of(kind) == WidgetRenderer::Text <==> kind != WidgetKind::Stat && kind
            != WidgetKind::List && kind != WidgetKind::Table,
{
}

/// What comes after the frame of a cell.
proof fn lemma_framed(r: WidgetRenderer, w: WidgetView, g: CellGeometry, mono: bool) -> (rest: Seq<
    char,
>)
    ensures
        drawing(r, w, g, mono) == frame_svg(g) + rest,
{
    let lines = wanted_lines(r, w, g.line_chars as int);
    let count = shorter(lines.len(), g.lines@.len());
    let frame = frame_svg(g);
    let title = title_svg(g, mono, w.title);
    let muted = crate::panel::muted_tone(mono);
    match r {
        WidgetRenderer::Metric => {
            let number = text_svg(g.value, "700"@, "#000000"@, metric_text(w.config, cached(w)));
            lemma_regrouped(frame, title, number);
            match w.config.text_at("label"@) {
                Some(label) => {
                    let below = text_svg(g.label, "500"@, muted, label);
                    lemma_regrouped(frame, title + number, below);
                    title + number + below
                },
                None => title + number,
            }
        },
        WidgetRenderer::List => {
            if lines.len() == 0 {
                let note = text_svg(g.empty, "400"@, muted, "No items"@);
                lemma_regrouped(frame, title, note);
                title + note
            } else {
                let rows = lines_svg(g.lines@, "500"@, lines, count);
                lemma_regrouped(frame, title, rows);
                title + rows
            }
        },
        WidgetRenderer::Text => {
            let rows = lines_svg(g.lines@, "400"@, lines, count);
            lemma_regrouped(frame, title, rows);
            title + rows
        },
    }
}

proof fn lemma_begins(head: Seq<char>, rest: Seq<char>)
    ensures
        begins(head + rest, head),
{
    assert((head + rest).take(head.len() as int) =~= head);
    crate::laws::texts::law_begins_is_a_head(head + rest, head);
}

/// Every cell begins with its frame, at the place and of the size that the geometry gives it.
pub proof fn law_cells_begin_with_their_frame(
    r: WidgetRenderer,
    w: WidgetView,
    g: CellGeometry,
    mono: bool,
)
    ensures
        begins(
            drawing(r, w, g, mono),
            "<rect x=\""@ + g.frame_x.text() + "\" y=\""@ + g.frame_y.text() + "\" width=\""@
                + g.frame_w.text() + "\" height=\""@ + g.frame_h.text()
                + "\" fill=\"none\" stroke=\"#000000\" stroke-width=\"1.5\" rx=\"6\"/>"@,
        ),
{
    let rest = lemma_framed(r, w, g, mono);
    let place = "<rect x=\""@ + g.frame_x.text() + "\" y=\""@ + g.frame_y.text() + "\" width=\""@
        + g.frame_w.text() + "\" height=\""@ + g.frame_h.text();
    let end = "\" stroke-width=\"1.5\" rx=\"6\"/>"@;
    lemma_look();
    lemma_regrouped(place, "\" fill=\"none\" stroke=\""@, "#000000"@);
    lemma_regrouped(place, "\" fill=\"none\" stroke=\""@ + "#000000"@, end);
    lemma_begins(frame_svg(g), rest);
}

proof fn lemma_look()
    ensures
        "\" fill=\"none\" stroke=\""@ + "#000000"@ + "\" stroke-width=\"1.5\" rx=\"6\"/>"@
            == "\" fill=\"none\" stroke=\"#000000\" stroke-width=\"1.5\" rx=\"6\"/>"@,
{
    reveal_strlit("\" fill=\"none\" stroke=\"");
    reveal_strlit("#000000");
    reveal_strlit("\" stroke-width=\"1.5\" rx=\"6\"/>");
    reveal_strlit("\" fill=\"none\" stroke=\"#000000\" stroke-width=\"1.5\" rx=\"6\"/>");
    assert("\" fill=\"none\" stroke=\""@ + "#000000"@ + "\" stroke-width=\"1.5\" rx=\"6\"/>"@
        =~= "\" fill=\"none\" stroke=\"#000000\" stroke-width=\"1.5\" rx=\"6\"/>"@);
}

/// A text of a cell opens at its spot, with its font size, weight and colour, and holds its
/// escaped content, cut to the characters that fit, up to its closing tag.
pub proof fn law_texts_stand_at_their_spot(
    spot: TextSpot,
    weight: Seq<char>,
    fill: Seq<char>,
    content: Seq<char>,
)
    ensures
        begins(
            text_svg(spot, weight, fill, content),
            "<text x=\""@ + spot.x.text() + "\" y=\""@ + spot.y.text(),
        ),
        mentions(
            text_svg(spot, weight, fill, content),
            " font-family=\"Helvetica, Arial, sans-serif\" font-size=\""@ + spot.size.text()
                + "\" font-weight=\""@ + weight + "\" fill=\""@ + fill + "\">"@,
        ),
        ends_with(
            text_svg(spot, weight, fill, content),
            "\">"@ + escaped(truncated(content, spot.max_chars as int)) + "</text>"@,
        ),
{
    let whole = text_svg(spot, weight, fill, content);
    let body = escaped(truncated(content, spot.max_chars as int));
    let at = "<text x=\""@ + spot.x.text() + "\" y=\""@ + spot.y.text();
    let family = "\" font-family=\"Helvetica, Arial, sans-serif\" font-size=\""@;
    let size = spot.size.text() + "\" font-weight=\""@ + weight + "\" fill=\""@ + fill;
    let close = "\">"@ + body + "</text>"@;
    assert(whole =~= at + (family + size + close));
    assert(whole.take(at.len() as int) =~= at);
    crate::laws::texts::law_begins_is_a_head(whole, at);
    assert(whole =~= (at + family + size) + close);
    lemma_ends_with(at + family + size, close);
    reveal_strlit("\" font-family=\"Helvetica, Arial, sans-serif\" font-size=\"");
    reveal_strlit(" font-family=\"Helvetica, Arial, sans-serif\" font-size=\"");
    let face = " font-family=\"Helvetica, Arial, sans-serif\" font-size=\""@;
    assert(family =~= family.take(1) + face);
    let named = face + spot.size.text() + "\" font-weight=\""@ + weight + "\" fill=\""@ + fill
        + "\">"@;
    assert(whole =~= (at + family.take(1)) + named + (body + "</text>"@));
    lemma_mentions(at + family.take(1), named, body + "</text>"@);
}

/// A title that is not blank stands in its cell, at the title's spot, whatever the kind. It is
/// grey, but black on a panel of one bit.
pub proof fn law_titles_are_drawn(r: WidgetRenderer, w: WidgetView, g: CellGeometry, mono: bool)
    requires
        !blank(w.title),
    ensures
        mentions(
            drawing(r, w, g, mono),
            text_svg(
                g.title,
                "600"@,
                if mono {
                    "#000000"@
                } else {
                    "#555555"@
                },
                w.title,
            ),
        ),
{
    let lines = wanted_lines(r, w, g.line_chars as int);
    let count = shorter(lines.len(), g.lines@.len());
    let frame = frame_svg(g);
    let title = title_svg(g, mono, w.title);
    let number = text_svg(g.value, "700"@, "#000000"@, metric_text(w.config, cached(w)));
    let muted = crate::panel::muted_tone(mono);
    lemma_mentions_itself(title);
    lemma_mentions_last(frame, title, title);
    lemma_mentions_first(frame + title, number, title);
    if let Some(label) = w.config.text_at("label"@) {
        lemma_mentions_first(frame + title + number, text_svg(g.label, "500"@, muted, label), title);
    }
    lemma_mentions_first(frame + title, text_svg(g.empty, "400"@, muted, "No items"@), title);
    lemma_mentions_first(frame + title, lines_svg(g.lines@, "500"@, lines, count), title);
    lemma_mentions_first(frame + title, lines_svg(g.lines@, "400"@, lines, count), title);
}

/// The number of a metric.
pub open spec fn number_of(config: JsonView, value: JsonView) -> JsonView {
    match config {
        JsonView::Object(c) if c.dom().contains("value_key"@) && c["value_key"@] is String => {
            let key = c["value_key"@]->String_0;
            match value {
                JsonView::Object(m) if m.dom().contains(key) => m[key],
                _ => JsonView::Null,
            }
        },
        _ => value,
    }
}

/// The value that a widget has, or null.
pub open spec fn value_of(w: WidgetView) -> JsonView {
    match w.last_value {
        Some(v) => v,
        None => JsonView::Null,
    }
}

/// A metric shows its value, or the member of it that `value_key` names, at the spot of its
/// number; what is not there shows as null does. An empty unit adds nothing.
pub proof fn law_metrics_show_their_number(w: WidgetView, g: CellGeometry, mono: bool)
    requires
        w.config.text_at("unit"@) matches Some(unit) ==> unit.len() == 0,
    ensures
        mentions(
            drawing(WidgetRenderer::Metric, w, g, mono),
            text_svg(g.value, "700"@, "#000000"@, shown(number_of(w.config, value_of(w)))),
        ),
{
    lemma_number_drawn(w, g, mono);
}

/// A metric with a unit shows the unit after its number, with a space between.
pub proof fn law_metrics_show_their_unit(
    w: WidgetView,
    g: CellGeometry,
    mono: bool,
    unit: Seq<char>,
)
    requires
        w.config.text_at("unit"@) == Some(unit),
        unit.len() > 0,
    ensures
        mentions(
            drawing(WidgetRenderer::Metric, w, g, mono),
            text_svg(
                g.value,
                "700"@,
                "#000000"@,
                shown(number_of(w.config, value_of(w))).push(' ') + unit,
            ),
        ),
{
    lemma_number_drawn(w, g, mono);
    reveal_strlit(" ");
    let text = shown(number_of(w.config, value_of(w)));
    assert(text.push(' ') + unit =~= text + " "@ + unit);
}

proof fn lemma_number_drawn(w: WidgetView, g: CellGeometry, mono: bool)
    ensures
        mentions(
            drawing(WidgetRenderer::Metric, w, g, mono),
            text_svg(g.value, "700"@, "#000000"@, metric_text(w.config, cached(w))),
        ),
{
    let head = frame_svg(g) + title_svg(g, mono, w.title);
    let number = text_svg(g.value, "700"@, "#000000"@, metric_text(w.config, cached(w)));
    lemma_mentions_itself(number);
    lemma_mentions_last(head, number, number);
    if let Some(label) = w.config.text_at("label"@) {
        lemma_mentions_first(
            head + number,
            text_svg(g.label, "500"@, crate::panel::muted_tone(mono), label),
            number,
        );
    }
}

/// The label that the display options of a metric give stands below its number.
pub proof fn law_metrics_show_their_label(
    w: WidgetView,
    g: CellGeometry,
    mono: bool,
    label: Seq<char>,
)
    requires
        w.config.text_at("label"@) == Some(label),
    ensures
        ends_with(
            drawing(WidgetRenderer::Metric, w, g, mono),
            text_svg(
                g.label,
                "500"@,
                if mono {
                    "#000000"@
                } else {
                    "#555555"@
                },
                label,
            ),
        ),
{
    let head = frame_svg(g) + title_svg(g, mono, w.title) + text_svg(
        g.value,
        "700"@,
        "#000000"@,
        metric_text(w.config, cached(w)),
    );
    lemma_ends_with(head, text_svg(g.label, "500"@, crate::panel::muted_tone(mono), label));
}

proof fn lemma_line_drawn(
    spots: Seq<TextSpot>,
    weight: Seq<char>,
    lines: Seq<Seq<char>>,
    count: int,
    i: int,
)
    requires
        0 <= i < count,
    ensures
        mentions(
            lines_svg(spots, weight, lines, count),
            text_svg(spots[i], weight, "#000000"@, lines[i]),
        ),
    decreases count,
{
    let before = lines_svg(spots, weight, lines, count - 1);
    let last = text_svg(spots[count - 1], weight, "#000000"@, lines[count - 1]);
    let wanted = text_svg(spots[i], weight, "#000000"@, lines[i]);
    if i == count - 1 {
        lemma_mentions_itself(last);
        lemma_mentions_last(before, last, wanted);
    } else {
        lemma_line_drawn(spots, weight, lines, count - 1, i);
        lemma_mentions_first(before, last, wanted);
    }
}

/// A list whose value is an array shows its items in their order, one on each line, as far as
/// there are lines.
pub proof fn law_lists_show_their_items(
    w: WidgetView,
    g: CellGeometry,
    mono: bool,
    items: Seq<JsonView>,
    i: int,
)
    requires
        w.last_value == Some(JsonView::Array(items)),
        0 <= i < items.len(),
        i < g.lines@.len(),
    ensures
        mentions(
            drawing(WidgetRenderer::List, w, g, mono),
            text_svg(g.lines@[i], "500"@, "#000000"@, row_text(items[i])),
        ),
{
    assert(list_items(w.config, cached(w)) == items);
    lemma_row_drawn(w, g, mono, i);
}

/// A list shows the items of the member that `items_key` names, when its value has it.
pub proof fn law_lists_show_the_items_of_their_key(
    w: WidgetView,
    g: CellGeometry,
    mono: bool,
    m: Map<Seq<char>, JsonView>,
    key: Seq<char>,
    items: Seq<JsonView>,
    i: int,
)
    requires
        w.last_value == Some(JsonView::Object(m)),
        w.config.text_at("items_key"@) == Some(key),
        m.dom().contains(key) && m[key] == JsonView::Array(items),
        0 <= i < items.len(),
        i < g.lines@.len(),
    ensures
        mentions(
            drawing(WidgetRenderer::List, w, g, mono),
            text_svg(g.lines@[i], "500"@, "#000000"@, row_text(items[i])),
        ),
{
    assert(list_items(w.config, cached(w)) == items);
    lemma_row_drawn(w, g, mono, i);
}

proof fn lemma_row_drawn(w: WidgetView, g: CellGeometry, mono: bool, i: int)
    requires
        0 <= i < list_items(w.config, cached(w)).len(),
        i < g.lines@.len(),
    ensures
        mentions(
            drawing(WidgetRenderer::List, w, g, mono),
            text_svg(
                g.lines@[i],
                "500"@,
                "#000000"@,
                row_text(list_items(w.config, cached(w))[i]),
            ),
        ),
{
    let lines = row_texts(list_items(w.config, cached(w)));
    let count = shorter(lines.len(), g.lines@.len());
    let head = frame_svg(g) + title_svg(g, mono, w.title);
    lemma_line_drawn(g.lines@, "500"@, lines, count, i);
    lemma_mentions_last(
        head,
        lines_svg(g.lines@, "500"@, lines, count),
        text_svg(g.lines@[i], "500"@, "#000000"@, lines[i]),
    );
}

/// Whether a value has no items to list: it is an array without any, an object without an array
/// under the key, or any other value.
pub open spec fn itemless(config: JsonView, v: JsonView) -> bool {
    match v {
        JsonView::Array(items) => items.len() == 0,
        JsonView::Object(m) => config.text_at("items_key"@) matches Some(key) ==> m.dom().contains(
            key,
        ) ==> (m[key] matches JsonView::Array(items) ==> items.len() == 0),
        _ => true,
    }
}

/// A list without items says so.
pub proof fn law_empty_lists_say_so(w: WidgetView, g: CellGeometry, mono: bool)
    requires
        itemless(w.config, value_of(w)),
    ensures
        ends_with(
            drawing(WidgetRenderer::List, w, g, mono),
            text_svg(
                g.empty,
                "400"@,
                if mono {
                    "#000000"@
                } else {
                    "#555555"@
                },
                "No items"@,
            ),
        ),
{
    let head = frame_svg(g) + title_svg(g, mono, w.title);
    assert(list_items(w.config, cached(w)).len() == 0);
    assert(wanted_lines(WidgetRenderer::List, w, g.line_chars as int).len() == 0);
    lemma_ends_with(
        head,
        text_svg(g.empty, "400"@, crate::panel::muted_tone(mono), "No items"@),
    );
}

/// A text widget shows its prose, wrapped to its cell, line by line as far as there are lines.
pub proof fn law_texts_show_their_prose(w: WidgetView, g: CellGeometry, mono: bool, s: Seq<char>, i: int)
    requires
        s == prose(w.config, value_of(w)),
        0 <= i < wrapped(s, g.line_chars as int).len(),
        i < g.lines@.len(),
    ensures
        mentions(
            drawing(WidgetRenderer::Text, w, g, mono),
            text_svg(
                g.lines@[i],
                "400"@,
                "#000000"@,
                wrapped(s, g.line_chars as int)[i],
            ),
        ),
{
    let lines = wrapped(s, g.line_chars as int);
    assert(prose(w.config, cached(w)) == s);
    let count = shorter(lines.len(), g.lines@.len());
    let head = frame_svg(g) + title_svg(g, mono, w.title);
    lemma_line_drawn(g.lines@, "400"@, lines, count, i);
    lemma_mentions_last(
        head,
        lines_svg(g.lines@, "400"@, lines, count),
        text_svg(g.lines@[i], "400"@, "#000000"@, lines[i]),
    );
}

/// A metric without a title and a label is its frame and its number, and nothing else.
pub proof fn law_plain_metrics_are_their_number(w: WidgetView, g: CellGeometry, mono: bool)
    requires
        blank(w.title),
        w.config.text_at("label"@) is None,
        w.config.text_at("unit"@) is None,
    ensures
        drawing(WidgetRenderer::Metric, w, g, mono) == frame_svg(g) + text_svg(
            g.value,
            "700"@,
            "#000000"@,
            shown(number_of(w.config, value_of(w))),
        ),
{
    assert(frame_svg(g) + title_svg(g, mono, w.title) =~= frame_svg(g));
}

/// Whether `heads` are the beginnings of a cell that ends with its lines, one after the other.
pub open spec fn lined_up(
    heads: Seq<Seq<char>>,
    spots: Seq<TextSpot>,
    weight: Seq<char>,
    lines: Seq<Seq<char>>,
    count: int,
) -> bool {
    &&& heads.len() == count + 1
    &&& forall|i: int|
        0 <= i < count ==> #[trigger] heads[i + 1] == heads[i] + text_svg(
            spots[i],
            weight,
            "#000000"@,
            lines[i],
        )
}

proof fn lemma_lined_up(
    start: Seq<char>,
    spots: Seq<TextSpot>,
    weight: Seq<char>,
    lines: Seq<Seq<char>>,
    count: int,
) -> (heads: Seq<Seq<char>>)
    requires
        0 <= count,
    ensures
        lined_up(heads, spots, weight, lines, count),
        heads[0] == start,
        heads[count] == start + lines_svg(spots, weight, lines, count),
    decreases count,
{
    if count == 0 {
        assert(start + lines_svg(spots, weight, lines, 0) =~= start);
        seq![start]
    } else {
        let before = lemma_lined_up(start, spots, weight, lines, count - 1);
        let last = text_svg(spots[count - 1], weight, "#000000"@, lines[count - 1]);
        let heads = before.push(before[count - 1] + last);
        lemma_regrouped(start, lines_svg(spots, weight, lines, count - 1), last);
        assert forall|i: int| 0 <= i < count implies #[trigger] heads[i + 1] == heads[i] + text_svg(
            spots[i],
            weight,
            "#000000"@,
            lines[i],
        ) by {
            if i < count - 1 {
                assert(heads[i + 1] == before[i + 1]);
            }
        }
        heads
    }
}

/// A text widget without a title is its frame and its lines in turn, as many as there are lines
/// and spots for them, and nothing else.
pub proof fn law_plain_texts_are_their_lines(
    w: WidgetView,
    g: CellGeometry,
    mono: bool,
    lines: Seq<Seq<char>>,
    count: int,
)
    requires
        blank(w.title),
        lines == wrapped(prose(w.config, value_of(w)), g.line_chars as int),
        count == lines.len() && count <= g.lines@.len() || count == g.lines@.len() && count
            <= lines.len(),
    ensures
        exists|heads: Seq<Seq<char>>|
            #[trigger] lined_up(heads, g.lines@, "400"@, lines, count) && heads[0] == frame_svg(g)
                && heads[count] == drawing(WidgetRenderer::Text, w, g, mono),
{
    assert(frame_svg(g) + title_svg(g, mono, w.title) =~= frame_svg(g));
    let heads = lemma_lined_up(frame_svg(g), g.lines@, "400"@, lines, count);
    assert(lined_up(heads, g.lines@, "400"@, lines, count));
}

/// A list without a title is its frame and its rows in turn, as many as there are items and
/// spots for them, and nothing else.
pub proof fn law_plain_lists_are_their_rows(
    w: WidgetView,
    g: CellGeometry,
    mono: bool,
    items: Seq<JsonView>,
    rows: Seq<Seq<char>>,
    count: int,
)
    requires
        blank(w.title),
        w.last_value == Some(JsonView::Array(items)),
        items.len() > 0,
        rows == Seq::new(items.len(), |i: int| row_text(items[i])),
        count == rows.len() && count <= g.lines@.len() || count == g.lines@.len() && count
            <= rows.len(),
    ensures
        exists|heads: Seq<Seq<char>>|
            #[trigger] lined_up(heads, g.lines@, "500"@, rows, count) && heads[0] == frame_svg(g)
                && heads[count] == drawing(WidgetRenderer::List, w, g, mono),
{
    assert(list_items(w.config, cached(w)) == items);
    assert(row_texts(items) =~= rows);
    assert(frame_svg(g) + title_svg(g, mono, w.title) =~= frame_svg(g));
    let heads = lemma_lined_up(frame_svg(g), g.lines@, "500"@, rows, count);
    assert(lined_up(heads, g.lines@, "500"@, rows, count));
}

/// The prose of a widget is the markdown of its display options where there is one, and else the
/// text that its value is.
pub proof fn law_prose_of_texts(config: JsonView, v: JsonView, s: Seq<char>)
    ensures
        config.text_at("markdown"@) == Some(s) ==> prose(config, v) == s,
        config.text_at("markdown"@) is None && v == JsonView::String(s) ==> prose(config, v) == s,
{
}

/// Without markdown, the prose of an object is its `text`, or else its `summary`, when that is a
/// text; of nothing there is none; and of any other value it is the compact JSON.
pub proof fn law_prose_of_values(
    config: JsonView,
    m: Map<Seq<char>, JsonView>,
    s: Seq<char>,
    v: JsonView,
)
    requires
        config.text_at("markdown"@) is None,
    ensures
        m.dom().contains("text"@) && m["text"@] == JsonView::String(s) ==> prose(
            config,
            JsonView::Object(m),
        ) == s,
        !m.dom().contains("text"@) && m.dom().contains("summary"@) && m["summary"@]
            == JsonView::String(s) ==> prose(config, JsonView::Object(m)) == s,
        !m.dom().contains("text"@) && !m.dom().contains("summary"@) ==> prose(
            config,
            JsonView::Object(m),
        ) == printed_tree(stored_tree(JsonView::Object(m))),
        m.dom().contains("text"@) && !(m["text"@] is String) ==> prose(config, JsonView::Object(m))
            == printed_tree(stored_tree(JsonView::Object(m))),
        prose(config, JsonView::Null).len() == 0,
        v is Bool || v is Number || v is Array ==> prose(config, v) == printed_tree(stored_tree(v)),
{
}

// ---- the ground ----------------------------------------------------------

/// A document begins with the size of its panel and a white ground of that size, and ends with
/// the closing tag.
pub proof fn law_documents_have_the_size_of_their_panel(
    widgets: Seq<Widget>,
    profile: DeviceProfile,
    geometry: PanelGeometry,
)
    ensures
        begins(
            document(widgets, profile, geometry),
            "<svg xmlns=\"http://www.w3.org/2000/svg\" width=\""@ + decimal_of(profile.w as nat)
                + "\" height=\""@ + decimal_of(profile.h as nat) + "\" viewBox=\"0 0 "@ + decimal_of(
                profile.w as nat,
            ) + " "@ + decimal_of(profile.h as nat) + "\"><rect x=\"0\" y=\"0\" width=\""@ + decimal_of(
                profile.w as nat,
            ) + "\" height=\""@ + decimal_of(profile.h as nat) + "\" fill=\"#ffffff\"/>"@,
        ),
        ends_with(document(widgets, profile, geometry), "</svg>"@),
{
    let whole = document(widgets, profile, geometry);
    let opening = opening_svg(profile);
    let middle = if widgets.len() == 0 {
        empty_svg(geometry.center_x, geometry.center_y)
    } else {
        cells_svg(widgets, geometry.cells@, profile.eink(), widgets.len() as int)
    };
    lemma_regrouped(opening, middle, "</svg>"@);
    assert((opening + (middle + "</svg>"@)).take(opening.len() as int) =~= opening);
    crate::laws::texts::law_begins_is_a_head(whole, opening);
    lemma_ends_with(opening + middle, "</svg>"@);
}

/// A dashboard without widgets says so in the middle of its panel, and holds nothing else.
pub proof fn law_empty_dashboards_say_so(profile: DeviceProfile, geometry: PanelGeometry)
    ensures
        document(Seq::empty(), profile, geometry) == opening_svg(profile) + ("<text x=\""@
            + geometry.center_x.text() + "\" y=\""@ + geometry.center_y.text()
            + "\" text-anchor=\"middle\" font-family=\"Helvetica, Arial, sans-serif\" font-size=\"18\" fill=\"#000000\">No widgets on this dashboard</text>"@) + "</svg>"@,
{
}

/// Coordinates are written as pixels with one decimal: the digits before the point tell the
/// whole pixels, and the one after it the tenths.
pub proof fn law_pixels_read_back(p: Pixels)
    ensures
        ({
            let text = p.text();
            let unsigned = if p.negative {
                text.skip(1)
            } else {
                text
            };
            &&& p.negative ==> text[0] == '-'
            &&& unsigned.len() >= 3
            &&& unsigned[unsigned.len() - 2] == '.'
            &&& digits_value(unsigned.take(unsigned.len() - 2)) == Some((p.tenths / 10) as nat)
            &&& digits_value(unsigned.skip(unsigned.len() - 1)) == Some((p.tenths % 10) as nat)
        }),
{
    let whole = decimal_of((p.tenths / 10) as nat);
    let part = decimal_of((p.tenths % 10) as nat);
    law_numerals_read_back((p.tenths / 10) as nat);
    law_numerals_read_back((p.tenths % 10) as nat);
    reveal_strlit("-");
    reveal_strlit(".");
    let unsigned = if p.negative {
        p.text().skip(1)
    } else {
        p.text()
    };
    assert(unsigned =~= whole + "."@ + part);
    assert(part.len() == 1);
    assert(unsigned.take(unsigned.len() - 2) =~= whole);
    assert(unsigned.skip(unsigned.len() - 1) =~= part);
}

// ---- panels and grids ----------------------------------------------------

/// A panel that is turned by a quarter or by three is laid out with its sides swapped, and every
/// other as it is. Only full quarters count.
pub proof fn law_turned_panels_are_laid_out_upright(p: DeviceProfile)
    ensures
        ({
            let turn = p.rotation as int % 360;
            let swapped = 90 <= turn < 180 || 270 <= turn < 360;
            &&& p.upright().w == if swapped {
                p.h
            } else {
                p.w
            }
            &&& p.upright().h == if swapped {
                p.w
            } else {
                p.h
            }
            &&& p.upright().bit_depth == p.bit_depth
            &&& p.upright().palette == p.palette
            &&& p.upright().rotation == p.rotation
            &&& p.quarter() == turn / 90
        }),
{
}

/// A panel counts as e-ink when its palette has one bit or its pixels have.
pub proof fn law_one_bit_panels_are_eink(p: DeviceProfile)
    ensures
        p.palette == Palette::Mono ==> p.eink(),
        p.bit_depth == 1 ==> p.eink(),
        p.palette != Palette::Mono && p.bit_depth != 1 ==> !p.eink(),
{
}

/// The grid has no more rows than it needs: one, or down to the lower edge of some widget.
pub proof fn law_rows_end_at_a_widget(layouts: Seq<GridLayout>)
    ensures
        grid_rows(layouts) >= 1,
        grid_rows(layouts) == 1 || exists|i: int|
            0 <= i < layouts.len() && grid_rows(layouts) == lower_edge(#[trigger] layouts[i]),
    decreases layouts.len(),
{
    if layouts.len() > 0 {
        let rest = layouts.drop_last();
        law_rows_end_at_a_widget(rest);
        if grid_rows(layouts) == lower_edge(layouts.last()) {
            assert(layouts[layouts.len() - 1] == layouts.last());
        } else if grid_rows(rest) != 1 {
            let i = choose|i: int|
                0 <= i < rest.len() && grid_rows(rest) == lower_edge(#[trigger] rest[i]);
            assert(layouts[i] == rest[i]);
        }
    }
}

/// The coordinates that a panel can have reach from a thousand million pixels before its origin
/// to five thousand million after it, and fonts up to fifty-six pixels.
pub proof fn law_coordinates_that_a_panel_can_have(p: Pixels, spot: TextSpot)
    ensures
        p.negative ==> (p.near() <==> p.tenths <= 10_000_000_000),
        !p.negative ==> (p.near() <==> p.tenths <= 50_000_000_000),
        spot.sound() <==> spot.x.near() && spot.y.near() && !spot.size.negative && spot.size.tenths
            <= 560,
{
}

/// Widgets fit the grid exactly when the row that each reaches down to can be numbered.
pub proof fn law_edges_that_fit(widgets: Seq<Widget>, i: int)
    ensures
        edges_fit(widgets) && 0 <= i < widgets.len() ==> lower_edge(widgets[i].layout)
            <= 4_294_967_295,
        (forall|j: int|
            0 <= j < widgets.len() ==> lower_edge((#[trigger] widgets[j]).layout) <= 4_294_967_295)
            ==> edges_fit(widgets),
{
}

/// A widget on the grid reaches down by its height, and by a row when it has none.
pub proof fn law_widgets_reach_down_by_their_height(layout: GridLayout)
    ensures
        layout.h >= 1 ==> lower_edge(layout) == layout.y + layout.h,
        layout.h == 0 ==> lower_edge(layout) == layout.y + 1,
{
}

/// A widget that lies on the grid and has a size is drawn where it lies. One beyond the last
/// column is drawn in it, and one without a size as the smallest.
pub proof fn law_widgets_are_drawn_where_they_lie(layout: GridLayout)
    ensures
        layout.x <= 11 && layout.w >= 1 && layout.h >= 1 ==> span_of(layout) == layout,
        layout.x > 11 ==> span_of(layout).x == 11,
        layout.x <= 11 ==> span_of(layout).x == layout.x,
        layout.w == 0 ==> span_of(layout).w == 1,
        layout.w > 0 ==> span_of(layout).w == layout.w,
        layout.h == 0 ==> span_of(layout).h == 1,
        layout.h > 0 ==> span_of(layout).h == layout.h,
        span_of(layout).y == layout.y,
{
}

} // verus!
