//! Tables, what is read of the store, and the events that tell of changes.

use vstd::prelude::*;

use crate::json::JsonView;
use crate::model::{CanvasLayout, DashboardView, DeviceView, EventView, GridLayout, WidgetView};
use crate::store::{
    elsewhere, law_removed_dashboard_takes_its_widgets, law_written_widget_is_read,
    readable_dashboards, readable_on, DashboardRowView, StoreView, WidgetRowView,
};
use crate::table::{
    by_creation, found, law_put_is_found, law_removed_is_not_found, lemma_place_at,
    lemma_place_from, sorted_in, unique, with_row, without, Keyed,
};
use crate::text::{lemma_text_le_total, text_le};

verus! {

// ---- tables --------------------------------------------------------------

/// The row of a key is the one that bears it, when the keys are unique; a key that no row bears
/// is not found.
pub proof fn law_rows_are_found_by_their_key<M: Keyed>(rows: Seq<M>, i: int, key: Seq<char>)
    requires
        unique(rows),
    ensures
        0 <= i < rows.len() ==> found(rows, rows[i].key()) == Some(rows[i]),
        (forall|j: int| 0 <= j < rows.len() ==> (#[trigger] rows[j]).key() != key) ==> found(
            rows,
            key,
        ) is None,
{
    if 0 <= i < rows.len() {
        lemma_place_at(rows, rows[i].key(), i);
    }
    lemma_place_from(rows, key, 0);
}

/// A row of a new key comes last, and one of a key that is there takes the place of the old row;
/// every other row stays where it is.
pub proof fn law_rows_keep_their_place<M: Keyed>(rows: Seq<M>, row: M, i: int)
    requires
        unique(rows),
        0 <= i < rows.len(),
    ensures
        rows[i].key() == row.key() ==> with_row(rows, row).len() == rows.len() && with_row(
            rows,
            row,
        )[i] == row,
        rows[i].key() != row.key() ==> with_row(rows, row)[i] == rows[i],
        found(rows, row.key()) is None ==> with_row(rows, row).len() == rows.len() + 1 && with_row(
            rows,
            row,
        )[rows.len() as int] == row,
{
    lemma_place_from(rows, row.key(), 0);
    if rows[i].key() == row.key() {
        lemma_place_at(rows, row.key(), i);
    }
}

/// Removing a row closes the gap, and removing a key that is not there changes nothing.
pub proof fn law_removal_closes_the_gap<M: Keyed>(rows: Seq<M>, i: int, j: int)
    requires
        unique(rows),
        0 <= i < rows.len(),
    ensures
        ({
            let next = without(rows, rows[i].key());
            &&& next.len() == rows.len() - 1
            &&& 0 <= j < i ==> next[j] == rows[j]
            &&& i <= j < next.len() ==> next[j] == rows[j + 1]
        }),
{
    lemma_place_at(rows, rows[i].key(), i);
}

/// Removing a key that no row bears changes nothing.
pub proof fn law_absent_rows_are_not_removed<M: Keyed>(rows: Seq<M>, key: Seq<char>)
    requires
        found(rows, key) is None,
    ensures
        without(rows, key) == rows,
{
}

/// The rows of one time of creation, in their order.
pub open spec fn made_at<M: Keyed>(rows: Seq<M>, stamp: Seq<char>) -> Seq<M>
    decreases rows.len(),
{
    if rows.len() == 0 {
        Seq::empty()
    } else {
        let before = made_at(rows.drop_last(), stamp);
        if rows.last().stamp() == stamp {
            before.push(rows.last())
        } else {
            before
        }
    }
}

proof fn lemma_inserted_in_order<M: Keyed>(sorted: Seq<M>, row: M, stamp: Seq<char>)
    ensures
        made_at(sorted_in(sorted, row), stamp) == if row.stamp() == stamp {
            made_at(sorted, stamp).push(row)
        } else {
            made_at(sorted, stamp)
        },
    decreases sorted.len(),
{
    let next = sorted_in(sorted, row);
    if sorted.len() == 0 || text_le(sorted.last().stamp(), row.stamp()) {
        assert(next.drop_last() =~= sorted);
    } else {
        let rest = sorted.drop_last();
        lemma_inserted_in_order(rest, row, stamp);
        assert(next.drop_last() =~= sorted_in(rest, row));
        lemma_text_le_total(row.stamp(), row.stamp());
    }
}

/// Rows of one time of creation are listed in the order in which they were inserted.
pub proof fn law_rows_of_one_time_keep_their_order<M: Keyed>(rows: Seq<M>, stamp: Seq<char>)
    ensures
        made_at(by_creation(rows), stamp) == made_at(rows, stamp),
    decreases rows.len(),
{
    if rows.len() > 0 {
        law_rows_of_one_time_keep_their_order(rows.drop_last(), stamp);
        lemma_inserted_in_order(by_creation(rows.drop_last()), rows.last(), stamp);
    }
}

/// Rows are listed by the time of their creation, the oldest first, and none is lost or added.
pub proof fn law_the_oldest_row_comes_first<M: Keyed>(rows: Seq<M>, row: M, i: int, j: int)
    requires
        0 <= i <= j < by_creation(rows).len(),
    ensures
        text_le(by_creation(rows)[i].stamp(), by_creation(rows)[j].stamp()),
        by_creation(rows).len() == rows.len(),
        by_creation(rows).to_multiset().count(row) == rows.to_multiset().count(row),
{
    broadcast use vstd::seq_lib::group_to_multiset_ensures;

    crate::table::law_by_creation_sorts(rows);
    let sorted = by_creation(rows);
    assert(text_le((sorted[i]).stamp(), (sorted[j]).stamp()));
    assert(sorted.len() == sorted.to_multiset().len());
    assert(rows.len() == rows.to_multiset().len());
}

// ---- reading -------------------------------------------------------------

/// The widgets of a dashboard among rows are those of its own rows that can be read, in the
/// order of the rows; the dashboards are those that can be read.
pub proof fn law_rows_are_read_in_order(
    rows: Seq<WidgetRowView>,
    row: WidgetRowView,
    d: Seq<char>,
    boards: Seq<DashboardRowView>,
    board: DashboardRowView,
)
    ensures
        readable_on(Seq::empty(), d).len() == 0,
        (row.dashboard_id == d && row.body is Some) ==> readable_on(rows.push(row), d)
            == readable_on(rows, d).push(row.body.unwrap()),
        row.dashboard_id != d || row.body is None ==> readable_on(rows.push(row), d) == readable_on(
            rows,
            d,
        ),
        readable_dashboards(Seq::empty()).len() == 0,
        board.body matches Some(b) ==> readable_dashboards(boards.push(board))
            == readable_dashboards(boards).push(b),
        board.body is None ==> readable_dashboards(boards.push(board)) == readable_dashboards(boards),
{
    assert(rows.push(row).drop_last() =~= rows);
    assert(boards.push(board).drop_last() =~= boards);
}

/// Removing the widgets of a dashboard leaves the rows of every other, in their order.
pub proof fn law_rows_of_other_dashboards_stay(rows: Seq<WidgetRowView>, d: Seq<char>)
    ensures
        elsewhere(rows, d) == rows.filter(|row: WidgetRowView| row.dashboard_id != d),
    decreases rows.len(),
{
    let keep = |row: WidgetRowView| row.dashboard_id != d;
    if rows.len() == 0 {
        reveal(Seq::filter);
        assert(elsewhere(rows, d) =~= rows.filter(keep));
    } else {
        let first = seq![rows.first()];
        let rest = rows.skip(1);
        law_rows_of_other_dashboards_stay(rest, d);
        assert(rows =~= first + rest);
        Seq::filter_distributes_over_add(first, rest, keep);
        assert(first.filter(keep) =~= if keep(rows.first()) {
            first
        } else {
            Seq::<WidgetRowView>::empty()
        }) by {
            reveal(Seq::filter);
            assert(first.drop_last() =~= Seq::<WidgetRowView>::empty());
            assert(first.drop_last().filter(keep) =~= Seq::<WidgetRowView>::empty());
        }
        assert(elsewhere(rows, d) =~= rows.filter(keep));
    }
}

/// What is read under an id is what its row holds, and on a dashboard only where the row belongs
/// to it.
pub proof fn law_rows_are_read_by_id(
    s: StoreView,
    id: Seq<char>,
    d: Seq<char>,
    row: WidgetRowView,
    board: DashboardRowView,
)
    ensures
        found(s.widgets, id) == Some(row) ==> match row.body {
            Some(w) => s.widget(id) == Ok::<Option<WidgetView>, Seq<char>>(Some(w)),
            None => s.widget(id) == Err::<Option<WidgetView>, Seq<char>>("deserializing widget"@),
        },
        found(s.widgets, id) == Some(row) && row.dashboard_id == d ==> s.widget_on(d, id) == s.widget(
            id,
        ),
        found(s.widgets, id) == Some(row) && row.dashboard_id != d ==> s.widget_on(d, id) == Ok::<
            Option<WidgetView>,
            Seq<char>,
        >(None),
        found(s.widgets, id) is None ==> s.widget(id) == Ok::<Option<WidgetView>, Seq<char>>(None)
            && s.widget_on(d, id) == Ok::<Option<WidgetView>, Seq<char>>(None),
        found(s.dashboards, id) == Some(board) ==> match board.body {
            Some(b) => s.dashboard(id) == Ok::<Option<DashboardView>, Seq<char>>(Some(b)),
            None => s.dashboard(id) == Err::<Option<DashboardView>, Seq<char>>(
                "deserializing dashboard"@,
            ),
        },
        found(s.dashboards, id) is None ==> s.dashboard(id) == Ok::<Option<DashboardView>, Seq<char>>(
            None,
        ),
{
}

/// The id of a widget belongs to another dashboard exactly when its row says so.
pub proof fn law_ids_belong_to_one_dashboard(s: StoreView, w: WidgetView, row: WidgetRowView)
    ensures
        found(s.widgets, w.id) is None ==> s.owner(w) is None,
        found(s.widgets, w.id) == Some(row) && row.dashboard_id == w.dashboard_id ==> s.owner(
            w,
        ) is None,
        found(s.widgets, w.id) == Some(row) && row.dashboard_id != w.dashboard_id ==> s.owner(w)
            == Some(row.dashboard_id),
{
}

// ---- writing -------------------------------------------------------------

/// The row of a widget that is written holds the widget, under its id and its dashboard's, with
/// the time of the write; a new one is as old as that.
pub proof fn law_written_widgets_have_their_row(s: StoreView, w: WidgetView, now: Seq<char>)
    ensures
        found(s.with_widget(w, now).widgets, w.id) matches Some(row) && row.id == w.id
            && row.dashboard_id == w.dashboard_id && row.body == Some(w) && row.updated_at == now
            && row.created_at == match found(s.widgets, w.id) {
            Some(before) => before.created_at,
            None => now,
        },
{
    law_put_is_found(s.widgets, s.widget_row(w, now));
}

/// The row of a dashboard that is written holds the dashboard and the time of its last change; a
/// new one is as old as the dashboard says.
pub proof fn law_written_dashboards_have_their_row(s: StoreView, d: DashboardView)
    ensures
        found(s.with_dashboard(d).dashboards, d.id) matches Some(row) && row.id == d.id && row.body
            == Some(d) && row.updated_at == d.updated_at && row.created_at == match found(
            s.dashboards,
            d.id,
        ) {
            Some(before) => before.created_at,
            None => d.created_at,
        },
{
    let row = DashboardRowView {
        id: d.id,
        body: Some(d),
        created_at: match found(s.dashboards, d.id) {
            Some(before) => before.created_at,
            None => d.created_at,
        },
        updated_at: d.updated_at,
    };
    law_put_is_found(s.dashboards, row);
}

/// Caching the outcome of a refresh keeps the row's dashboard and the time of its creation, and
/// sets the time of the write.
pub proof fn law_cached_widgets_keep_their_row(
    s: StoreView,
    w: WidgetView,
    row: WidgetRowView,
    outcome: Result<JsonView, Seq<char>>,
    at: Seq<char>,
    updated_at: Seq<char>,
)
    requires
        found(s.widgets, w.id) == Some(row),
    ensures
        found(s.with_value(w, outcome, at, updated_at).widgets, w.id) matches Some(next)
            && next.dashboard_id == row.dashboard_id && next.created_at == row.created_at
            && next.updated_at == updated_at && next.body is Some,
{
    lemma_place_from(s.widgets, w.id, 0);
    let next = WidgetRowView {
        body: Some(crate::store::refreshed(w, outcome, at)),
        updated_at,
        ..row
    };
    law_put_is_found(s.widgets, next);
}

/// A new store holds nothing, and nobody listens or watches.
pub proof fn law_new_stores_are_empty()
    ensures
        StoreView::empty().dashboards.len() == 0,
        StoreView::empty().widgets.len() == 0,
        StoreView::empty().devices.len() == 0,
        StoreView::empty().events.len() == 0,
        StoreView::empty().viewers == 0,
        StoreView::empty().receivers == 0,
{
}

/// A widget is written, and read so afterwards, unless its id belongs to another dashboard; that
/// is refused by name and changes nothing.
pub proof fn law_widgets_are_written_where_they_belong(s: StoreView, w: WidgetView, now: Seq<char>)
    ensures
        (found(s.widgets, w.id) matches Some(row) && row.dashboard_id != w.dashboard_id) ==> s.writing(
            w,
            now,
        ) == (
            Err::<(), Seq<char>>(
                "widget '"@ + w.id + "' already belongs to dashboard '"@ + found(
                    s.widgets,
                    w.id,
                ).unwrap().dashboard_id + "'"@,
            ),
            s,
        ),
        (found(s.widgets, w.id) matches Some(row) ==> row.dashboard_id == w.dashboard_id) ==> s.writing(
            w,
            now,
        ).0 is Ok && s.writing(w, now).1.widget_on(w.dashboard_id, w.id) == Ok::<
            Option<WidgetView>,
            Seq<char>,
        >(Some(w)),
{
    lemma_other(w.id);
    law_written_widget_is_read(s, w, now, seq!['x'] + w.id);
}

proof fn lemma_other(s: Seq<char>)
    ensures
        seq!['x'] + s != s,
{
    assert((seq!['x'] + s).len() != s.len());
}

/// A widget that is moved is read at its new place, on the grid, on the canvas or on both, and
/// is else as it was; where there is none to move, nothing changes and the same is told.
pub proof fn law_moves_are_read(
    s: StoreView,
    id: Seq<char>,
    w: WidgetView,
    grid: Option<GridLayout>,
    canvas: Option<CanvasLayout>,
    now: Seq<char>,
    e: Seq<char>,
)
    requires
        s.wf(),
    ensures
        s.widget(id) == Ok::<Option<WidgetView>, Seq<char>>(Some(w)) ==> ({
            let (r, after) = s.moving(s.widget(id), grid, canvas, now);
            &&& after.widget(id) == r
            &&& r matches Ok(Some(next))
            &&& grid matches Some(l) ==> next.layout == l
            &&& grid is None ==> next.layout == w.layout
            &&& canvas is Some ==> next.canvas == canvas
            &&& canvas is None ==> next.canvas == w.canvas
            &&& next == (WidgetView { layout: next.layout, canvas: next.canvas, ..w })
        }),
        s.moving(Ok(None), grid, canvas, now) == (Ok::<Option<WidgetView>, Seq<char>>(None), s),
        s.moving(Err(e), grid, canvas, now) == (Err::<Option<WidgetView>, Seq<char>>(e), s),
{
    lemma_place_from(s.widgets, id, 0);
    let next = crate::store::placed(w, grid, canvas);
    lemma_other(next.id);
    law_written_widget_is_read(s, next, now, seq!['x'] + next.id);
}

/// The outcome of a refresh is cached on the widget with the id; one for a widget that is gone
/// is passed over, and one for a widget that cannot be read is an error.
pub proof fn law_outcomes_are_cached(
    s: StoreView,
    id: Seq<char>,
    w: WidgetView,
    outcome: Result<JsonView, Seq<char>>,
    at: Seq<char>,
    updated_at: Seq<char>,
)
    requires
        s.wf(),
    ensures
        s.widget(id) == Ok::<Option<WidgetView>, Seq<char>>(Some(w)) ==> ({
            let (r, after) = s.caching(id, outcome, at, updated_at);
            &&& r is Ok
            &&& after.widget(id) matches Ok(Some(next))
            &&& next.last_refresh_at == Some(at)
            &&& outcome matches Ok(v) ==> next.last_value == Some(v) && next.last_error is None
            &&& outcome matches Err(e) ==> next.last_value == w.last_value && next.last_error == Some(e)
        }),
        found(s.widgets, id) is None ==> s.caching(id, outcome, at, updated_at) == (
            Ok::<(), Seq<char>>(()),
            s,
        ),
        (found(s.widgets, id) matches Some(row) && row.body is None) ==> s.caching(
            id,
            outcome,
            at,
            updated_at,
        ) == (Err::<(), Seq<char>>("deserializing widget"@), s),
{
    lemma_place_from(s.widgets, id, 0);
    if s.widget(id) == Ok::<Option<WidgetView>, Seq<char>>(Some(w)) {
        let row = found(s.widgets, id).unwrap();
        let next = WidgetRowView {
            body: Some(crate::store::refreshed(w, outcome, at)),
            updated_at,
            ..row
        };
        assert(row.id == id && w.id == id);
        law_put_is_found(s.widgets, next);
    }
}

/// Removing says whether something was removed: a widget by its id, or only from its own
/// dashboard, a dashboard by its id, and a binding by its device. What was not there changes
/// nothing.
pub proof fn law_removals_tell_whether_there_was_something(
    s: StoreView,
    d: Seq<char>,
    id: Seq<char>,
)
    requires
        s.wf(),
    ensures
        s.removing(id).0 <==> found(s.widgets, id) is Some,
        found(s.removing(id).1.widgets, id) is None,
        s.removing_from(d, id).0 <==> (found(s.widgets, id) matches Some(row) && row.dashboard_id == d),
        s.removing_from(d, id).0 ==> found(s.removing_from(d, id).1.widgets, id) is None,
        !s.removing_from(d, id).0 ==> s.removing_from(d, id).1 == s,
        s.dissolving(id).0 <==> found(s.dashboards, id) is Some,
        found(s.dissolving(id).1.dashboards, id) is None,
        s.dissolving(d).1.widget_on(d, id) == Ok::<Option<WidgetView>, Seq<char>>(None),
        s.unbinding(id).0 <==> found(s.devices, id) is Some,
        found(s.unbinding(id).1.devices, id) is None,
        s.unbinding(id).1.dashboards == s.dashboards && s.unbinding(id).1.widgets == s.widgets,
{
    law_removed_is_not_found(s.widgets, id);
    law_removed_is_not_found(s.dashboards, id);
    law_removed_is_not_found(s.devices, id);
    law_removed_dashboard_takes_its_widgets(s, d, id);
}

// ---- telling -------------------------------------------------------------

/// While someone listens, each change is told once, after what was told before: a dashboard that
/// is written or removed by its id, a widget that is written as it is, one that is removed by its
/// id and its dashboard's.
pub proof fn law_changes_are_told(
    s: StoreView,
    d: DashboardView,
    w: WidgetView,
    row: WidgetRowView,
    id: Seq<char>,
    now: Seq<char>,
)
    requires
        s.receivers > 0,
    ensures
        s.with_dashboard(d).events == s.events.push(EventView::DashboardUpdated { dashboard_id: d.id }),
        found(s.dashboards, id) is Some ==> s.without_dashboard(id).events == s.events.push(
            EventView::DashboardUpdated { dashboard_id: id },
        ),
        s.with_widget(w, now).events == s.events.push(
            EventView::WidgetUpdated { dashboard_id: w.dashboard_id, widget: w },
        ),
        found(s.widgets, id) == Some(row) ==> s.without_widget(id).events == s.events.push(
            EventView::WidgetDeleted { dashboard_id: row.dashboard_id, widget_id: id },
        ),
{
}

/// While someone listens, the outcome of a refresh is told: the value, or the error, with the
/// widget, its dashboard and the time.
pub proof fn law_outcomes_are_told(
    s: StoreView,
    w: WidgetView,
    v: JsonView,
    e: Seq<char>,
    at: Seq<char>,
    updated_at: Seq<char>,
)
    requires
        s.receivers > 0,
    ensures
        s.with_value(w, Ok(v), at, updated_at).events == s.events.push(
            EventView::WidgetData {
                dashboard_id: w.dashboard_id,
                widget_id: w.id,
                value: v,
                at,
            },
        ),
        s.with_value(w, Err(e), at, updated_at).events == s.events.push(
            EventView::WidgetError {
                dashboard_id: w.dashboard_id,
                widget_id: w.id,
                error: e,
                at,
            },
        ),
{
}

/// What changes nothing tells nothing, nor does a binding, nor any change while nobody listens.
pub proof fn law_what_changes_nothing_is_not_told(
    s: StoreView,
    d: DashboardView,
    w: WidgetView,
    dd: DeviceView,
    id: Seq<char>,
    outcome: Result<JsonView, Seq<char>>,
    now: Seq<char>,
)
    ensures
        found(s.dashboards, id) is None ==> s.without_dashboard(id).events == s.events,
        found(s.widgets, id) is None ==> s.without_widget(id) == s,
        s.with_device(dd).events == s.events,
        s.receivers == 0 ==> s.with_dashboard(d).events == s.events,
        s.receivers == 0 ==> s.without_dashboard(id).events == s.events,
        s.receivers == 0 ==> s.with_widget(w, now).events == s.events,
        s.receivers == 0 ==> s.without_widget(id).events == s.events,
        s.receivers == 0 ==> s.with_value(w, outcome, now, now).events == s.events,
{
}

/// No change of what is stored changes who listens or watches.
pub proof fn law_changes_leave_the_listeners(
    s: StoreView,
    d: DashboardView,
    w: WidgetView,
    dd: DeviceView,
    id: Seq<char>,
    outcome: Result<JsonView, Seq<char>>,
    now: Seq<char>,
)
    ensures
        s.with_dashboard(d).receivers == s.receivers && s.with_dashboard(d).viewers == s.viewers,
        s.without_dashboard(id).receivers == s.receivers && s.without_dashboard(id).viewers
            == s.viewers,
        s.with_widget(w, now).receivers == s.receivers && s.with_widget(w, now).viewers == s.viewers,
        s.without_widget(id).receivers == s.receivers && s.without_widget(id).viewers == s.viewers,
        s.with_device(dd).receivers == s.receivers && s.with_device(dd).viewers == s.viewers,
        s.with_value(w, outcome, now, now).receivers == s.receivers && s.with_value(
            w,
            outcome,
            now,
            now,
        ).viewers == s.viewers,
{
}

/// Who comes is counted, and who leaves is counted no longer; nothing else changes.
pub proof fn law_listeners_are_counted(s: StoreView)
    ensures
        s.subscribed() == (StoreView { receivers: s.receivers + 1, ..s }),
        s.watched() == (StoreView { viewers: s.viewers + 1, ..s }),
        s.receivers > 0 ==> s.unsubscribed().receivers == s.receivers - 1,
        s.viewers > 0 ==> s.unwatched().viewers == s.viewers - 1,
{
}

} // verus!
