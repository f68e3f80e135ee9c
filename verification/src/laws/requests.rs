//! What requests answer, and what is read after them.

use vstd::prelude::*;

use crate::api::{
    binding_deleted, bindings_listed, cached_on, catalog_tree, dashboard_changed,
    dashboard_created, dashboard_deleted, dashboard_read, dashboards_listed,
    ensure_answer, flag_is_on, full_grid, image_answer, manifest_answer, name_or_id, refresh_answer,
    rev_of, settings_answer, target_of, tells_config, widget_changed, widget_created, widget_deleted,
    widget_moved, widgets_listed, ImageReply, ReplyBodyView, ReplyView, WidgetBodyView,
};
use crate::device::{device_profile, screen_tree};
use crate::json::JsonView;
use crate::laws::storing::law_written_widgets_have_their_row;
use crate::model::{
    CanvasLayout, DashboardView, DeviceDashboard, DeviceView, GridLayout, SourceView, WidgetView,
};
use crate::raster::fnv_from;
use crate::render::{law_one_changed_byte_changes_the_rev, rev_input, RenderedImage};
use crate::sources::source_fault;
use crate::store::{
    law_removed_dashboard_takes_its_widgets, law_removed_widget_is_gone,
    law_written_dashboard_is_read, law_written_widget_is_read, readable_dashboards, readable_on,
    StoreView,
};
use crate::table::{
    by_creation, found, law_put_is_found, law_removal_leaves_others, law_removed_is_not_found,
    lemma_place_from,
};
use crate::text::{blank, hex_of, trimmed};

verus! {

proof fn lemma_other(s: Seq<char>)
    ensures
        seq!['x'] + s != s,
{
    assert((seq!['x'] + s).len() != s.len());
}

// ---- dashboards ----------------------------------------------------------

/// A dashboard with a name that is not blank is created under the given id, with its trimmed
/// name, and is read so afterwards. Its view is not set, and it is as old as the request.
pub proof fn law_named_dashboards_are_created(
    s: StoreView,
    name: Seq<char>,
    id: Seq<char>,
    now: Seq<char>,
    other: Seq<char>,
)
    requires
        !blank(name),
        other != id,
    ensures
        ({
            let (r, after) = dashboard_created(s, name, id, now);
            &&& r.status == 200
            &&& r.body matches ReplyBodyView::Dashboard(d)
            &&& d.id == id && d.name == trimmed(name)
            &&& d.created_at == now && d.updated_at == now && d.view_mode is None
            &&& after.dashboard(id) == Ok::<Option<DashboardView>, Seq<char>>(Some(d))
            &&& after.dashboard(other) == s.dashboard(other)
            &&& after.widgets == s.widgets && after.devices == s.devices
        }),
{
    let d = dashboard_created(s, name, id, now).0.body->Dashboard_0;
    law_written_dashboard_is_read(s, d, other);
}

/// A blank name is refused, when a dashboard is created as when it is changed.
pub proof fn law_blank_names_are_refused(
    s: StoreView,
    name: Seq<char>,
    id: Seq<char>,
    view_mode: Option<Seq<char>>,
    now: Seq<char>,
    d: DashboardView,
)
    requires
        blank(name),
    ensures
        dashboard_created(s, name, id, now).0.status == 400,
        dashboard_created(s, name, id, now).0.body == ReplyBodyView::Error("name is required"@),
        dashboard_created(s, name, id, now).1 == s,
        s.dashboard(id) == Ok::<Option<DashboardView>, Seq<char>>(Some(d)) ==> dashboard_changed(
            s,
            id,
            Some(name),
            view_mode,
            now,
        ).0 == (ReplyView { status: 400, body: ReplyBodyView::Error("name is required"@) }),
{
}

/// A change of a dashboard is read afterwards: the name that it gives, trimmed, and the view,
/// each where it gives one, under the time of the change.
pub proof fn law_changed_dashboards_are_read(
    s: StoreView,
    id: Seq<char>,
    name: Option<Seq<char>>,
    view_mode: Option<Seq<char>>,
    now: Seq<char>,
    d: DashboardView,
)
    requires
        s.wf(),
        s.dashboard(id) == Ok::<Option<DashboardView>, Seq<char>>(Some(d)),
        name matches Some(n) ==> !blank(n),
        view_mode matches Some(m) ==> m == "grid"@ || m == "canvas"@,
    ensures
        ({
            let (r, after) = dashboard_changed(s, id, name, view_mode, now);
            &&& r.status == 200
            &&& after.dashboard(id) matches Ok(Some(next))
            &&& r.body == ReplyBodyView::Dashboard(next)
            &&& next.id == id && next.created_at == d.created_at && next.updated_at == now
            &&& next.name == match name {
                Some(n) => trimmed(n),
                None => d.name,
            }
            &&& view_mode is Some ==> next.view_mode == view_mode
            &&& view_mode is None ==> next.view_mode == d.view_mode
            &&& after.widgets == s.widgets && after.devices == s.devices
        }),
{
    lemma_place_from(s.dashboards, id, 0);
    let next = dashboard_changed(s, id, name, view_mode, now).0.body->Dashboard_0;
    law_written_dashboard_is_read(s, next, seq!['x'] + next.id);
    lemma_other(next.id);
}

/// A view other than the grid and the canvas is refused.
pub proof fn law_unknown_views_are_refused(
    s: StoreView,
    id: Seq<char>,
    name: Option<Seq<char>>,
    mode: Seq<char>,
    now: Seq<char>,
    d: DashboardView,
)
    requires
        s.dashboard(id) == Ok::<Option<DashboardView>, Seq<char>>(Some(d)),
        name matches Some(n) ==> !blank(n),
        mode != "grid"@ && mode != "canvas"@,
    ensures
        dashboard_changed(s, id, name, Some(mode), now) == (
            ReplyView {
                status: 400,
                body: ReplyBodyView::Error("view_mode must be 'grid' or 'canvas'"@),
            },
            s,
        ),
{
}

/// What does not exist is not found: a dashboard can then be neither read nor changed, and no
/// widget be created on it; a widget that does not stand on the dashboard can be neither changed,
/// moved, refreshed nor removed.
pub proof fn law_what_is_not_there_is_not_found(
    s: StoreView,
    id: Seq<char>,
    wid: Seq<char>,
    name: Option<Seq<char>>,
    view_mode: Option<Seq<char>>,
    body: WidgetBodyView,
    grid: Option<GridLayout>,
    canvas: Option<CanvasLayout>,
    fresh: Seq<char>,
    now: Seq<char>,
)
    ensures
        ({
            let missing = ReplyView { status: 404, body: ReplyBodyView::Error("not found"@) };
            let no_dashboard = ReplyView {
                status: 404,
                body: ReplyBodyView::Error("dashboard not found"@),
            };
            &&& found(s.dashboards, id) is None ==> dashboard_read(s, id) == missing
                && dashboard_changed(s, id, name, view_mode, now) == (missing, s)
                && dashboard_deleted(s, id).0 == missing && widget_created(
                s,
                id,
                body,
                fresh,
                now,
            ) == (no_dashboard, s)
            &&& (found(s.widgets, wid) matches Some(row) ==> row.dashboard_id != id) ==> widget_changed(
                s,
                id,
                wid,
                body,
                now,
            ) == (
                missing,
                s,
            ) && widget_moved(s, id, wid, grid, canvas, now) == (missing, s) && widget_deleted(
                s,
                id,
                wid,
            ) == (missing, s) && target_of(s, id, wid) == Err::<WidgetView, ReplyView>(missing)
        }),
{
}

/// What is stored and cannot be read is an error of the service.
pub proof fn law_unreadable_rows_are_errors(
    s: StoreView,
    id: Seq<char>,
    wid: Seq<char>,
    name: Option<Seq<char>>,
    view_mode: Option<Seq<char>>,
    body: WidgetBodyView,
    grid: Option<GridLayout>,
    canvas: Option<CanvasLayout>,
    now: Seq<char>,
)
    ensures
        (found(s.dashboards, id) matches Some(row) && row.body is None) ==> dashboard_read(s, id).status
            == 500 && dashboard_changed(s, id, name, view_mode, now).0.status == 500
            && widget_created(s, id, body, wid, now).0.status == 404,
        (found(s.widgets, wid) matches Some(row) && row.dashboard_id == id && row.body is None)
            ==> widget_changed(s, id, wid, body, now).0.status == 500 && widget_moved(
            s,
            id,
            wid,
            grid,
            canvas,
            now,
        ).0.status == 500 && (target_of(s, id, wid) matches Err(r) && r.status == 500),
{
}

/// A dashboard is read with its own widgets, the oldest first.
pub proof fn law_dashboards_are_read_with_their_widgets(
    s: StoreView,
    id: Seq<char>,
    d: DashboardView,
)
    requires
        s.dashboard(id) == Ok::<Option<DashboardView>, Seq<char>>(Some(d)),
    ensures
        dashboard_read(s, id).status == 200,
        dashboard_read(s, id).body matches ReplyBodyView::Opened(read, list) && read == d
            && widgets_listed(s, id) == (ReplyView { status: 200, body: ReplyBodyView::Widgets(list) }),
{
}

/// The widgets of a dashboard are listed as the table holds them, the oldest first.
pub proof fn law_lists_are_what_the_tables_hold(s: StoreView, id: Seq<char>)
    ensures
        widgets_listed(s, id).status == 200,
        widgets_listed(s, id).body == ReplyBodyView::Widgets(readable_on(by_creation(s.widgets), id)),
        dashboards_listed(s).status == 200,
        dashboards_listed(s).body == ReplyBodyView::Dashboards(
            readable_dashboards(by_creation(s.dashboards)),
        ),
{
}

/// A dashboard that is removed is gone with its widgets, and everything else stays.
pub proof fn law_removed_dashboards_are_gone(
    s: StoreView,
    id: Seq<char>,
    other: Seq<char>,
    wid: Seq<char>,
)
    requires
        s.wf(),
        found(s.dashboards, id) is Some,
        other != id,
    ensures
        ({
            let (r, after) = dashboard_deleted(s, id);
            &&& r == (ReplyView { status: 200, body: ReplyBodyView::Done })
            &&& dashboard_read(after, id).status == 404
            &&& after.dashboard(other) == s.dashboard(other)
            &&& after.widget_on(id, wid) == Ok::<Option<WidgetView>, Seq<char>>(None)
            &&& (found(s.widgets, wid) matches Some(row) && row.dashboard_id == other)
                ==> after.widget_on(other, wid) == s.widget_on(other, wid)
            &&& after.devices == s.devices
        }),
{
    law_removed_dashboard_takes_its_widgets(s, id, wid);
    law_removed_dashboard_takes_its_widgets(s, id, other);
    law_removed_is_not_found(s.dashboards, id);
    law_removal_leaves_others(s.dashboards, id, other);
    if let Some(row) = found(s.widgets, wid) {
        if row.dashboard_id != id {
            crate::store::law_kept_widgets_stay_where_they_are(s, id, wid);
        }
    }
}

// ---- widgets -------------------------------------------------------------

/// A request to create a widget on a dashboard that exists is accepted when it names a kind, its
/// source may be written, and the id that it chose belongs to no other dashboard.
pub proof fn law_widgets_are_created(
    s: StoreView,
    dashboard_id: Seq<char>,
    body: WidgetBodyView,
    fresh: Seq<char>,
    now: Seq<char>,
    d: DashboardView,
)
    requires
        s.dashboard(dashboard_id) == Ok::<Option<DashboardView>, Seq<char>>(Some(d)),
        body.kind is Some,
        body.source matches Some(source) ==> source_fault(source) is None,
        ({
            let id = match body.id {
                Some(t) if !blank(t) => t,
                _ => fresh,
            };
            found(s.widgets, id) matches Some(row) ==> row.dashboard_id == dashboard_id
        }),
    ensures
        widget_created(s, dashboard_id, body, fresh, now).0.status == 200,
{
}

/// A widget that was created carries what the request gives: it is read on its dashboard with
/// the kind of the request, and with the very title, display options, source, cadence, and
/// places on the grid and the canvas that the request has. It stands under the id that the
/// request chose, or the fresh one; without a title it has none, without options and source
/// they are null, and without a place on the grid it takes four by four in the corner.
pub proof fn law_created_widgets_carry_the_request(
    s: StoreView,
    dashboard_id: Seq<char>,
    body: WidgetBodyView,
    fresh: Seq<char>,
    now: Seq<char>,
    other: Seq<char>,
)
    requires
        widget_created(s, dashboard_id, body, fresh, now).0.status == 200,
    ensures
        ({
            let (r, after) = widget_created(s, dashboard_id, body, fresh, now);
            let id = match body.id {
                Some(t) if !blank(t) => t,
                _ => fresh,
            };
            &&& after.widget_on(dashboard_id, id) matches Ok(Some(w))
            &&& r.body == ReplyBodyView::Widget(w)
            &&& w.id == id && w.dashboard_id == dashboard_id
            &&& body.kind == Some(w.kind)
            &&& body.title matches Some(t) ==> w.title == t
            &&& body.title is None ==> w.title.len() == 0
            &&& body.config matches Some(c) ==> w.config == c
            &&& body.config is None ==> w.config == JsonView::Null
            &&& body.source matches Some(source) ==> w.source == source
            &&& body.source is None ==> w.source == (SourceView::Static { data: JsonView::Null })
            &&& body.layout matches Some(l) ==> w.layout == l
            &&& body.layout is None ==> w.layout == (GridLayout { x: 0, y: 0, w: 4, h: 4 })
            &&& w.canvas == body.canvas
            &&& (body.refresh_interval matches Some(t) && !blank(t)) ==> w.refresh_interval
                == body.refresh_interval
            &&& (body.refresh_interval matches Some(t) ==> blank(t)) ==> w.refresh_interval is None
            &&& w.last_value is None && w.last_error is None && w.last_refresh_at is None
            &&& found(after.widgets, id) matches Some(row)
            &&& row.updated_at == now
            &&& other != id ==> after.widget(other) == s.widget(other)
            &&& after.dashboards == s.dashboards && after.devices == s.devices
        }),
{
    let w = widget_created(s, dashboard_id, body, fresh, now).0.body->Widget_0;
    lemma_other(w.id);
    law_written_widget_is_read(s, w, now, seq!['x'] + w.id);
    law_written_widgets_have_their_row(s, w, now);
    if other != w.id {
        law_written_widget_is_read(s, w, now, other);
    }
}

/// A request to create a widget is refused for want of a kind, then for its source, then for an
/// id that belongs to another dashboard; the answer says which.
pub proof fn law_widgets_are_refused(
    s: StoreView,
    dashboard_id: Seq<char>,
    body: WidgetBodyView,
    fresh: Seq<char>,
    now: Seq<char>,
    d: DashboardView,
)
    requires
        s.dashboard(dashboard_id) == Ok::<Option<DashboardView>, Seq<char>>(Some(d)),
    ensures
        ({
            let (r, after) = widget_created(s, dashboard_id, body, fresh, now);
            let id = match body.id {
                Some(t) if !blank(t) => t,
                _ => fresh,
            };
            let fault = match body.source {
                Some(source) => source_fault(source),
                None => None,
            };
            &&& body.kind is None ==> r == (ReplyView {
                status: 400,
                body: ReplyBodyView::Error("kind is required"@),
            })
            &&& body.kind is Some ==> (fault matches Some(e) ==> r == (ReplyView {
                status: 400,
                body: ReplyBodyView::Error(e),
            }))
            &&& body.kind is Some && fault is None ==> (found(s.widgets, id) matches Some(row)
                ==> row.dashboard_id != dashboard_id ==> r == (ReplyView {
                status: 500,
                body: ReplyBodyView::Error(
                    "widget '"@ + id + "' already belongs to dashboard '"@ + row.dashboard_id + "'"@,
                ),
            }))
            &&& r.status != 200 ==> after == s
        }),
{
}

/// A change of a widget is read afterwards: each field that the request gives has the very value
/// given, and each that it leaves out is as it was. A blank cadence clears it, and a new source
/// clears what was cached.
pub proof fn law_changed_widgets_carry_the_request(
    s: StoreView,
    dashboard_id: Seq<char>,
    id: Seq<char>,
    body: WidgetBodyView,
    now: Seq<char>,
    w: WidgetView,
    other: Seq<char>,
)
    requires
        s.wf(),
        s.widget_on(dashboard_id, id) == Ok::<Option<WidgetView>, Seq<char>>(Some(w)),
        body.source matches Some(source) ==> source_fault(source) is None,
        other != id,
    ensures
        ({
            let (r, after) = widget_changed(s, dashboard_id, id, body, now);
            &&& r.status == 200
            &&& after.widget_on(dashboard_id, id) matches Ok(Some(next))
            &&& r.body == ReplyBodyView::Widget(next)
            &&& next.id == id && next.dashboard_id == dashboard_id
            &&& body.kind matches Some(k) ==> next.kind == k
            &&& body.kind is None ==> next.kind == w.kind
            &&& body.title matches Some(t) ==> next.title == t
            &&& body.title is None ==> next.title == w.title
            &&& body.config matches Some(c) ==> next.config == c
            &&& body.config is None ==> next.config == w.config
            &&& body.source matches Some(source) ==> next.source == source
            &&& body.source is None ==> next.source == w.source
            &&& (body.refresh_interval matches Some(t) && !blank(t)) ==> next.refresh_interval
                == body.refresh_interval
            &&& (body.refresh_interval matches Some(t) && blank(t)) ==> next.refresh_interval is None
            &&& body.refresh_interval is None ==> next.refresh_interval == w.refresh_interval
            &&& body.layout matches Some(l) ==> next.layout == l
            &&& body.layout is None ==> next.layout == w.layout
            &&& body.canvas is Some ==> next.canvas == body.canvas
            &&& body.canvas is None ==> next.canvas == w.canvas
            &&& body.source is Some ==> next.last_value is None && next.last_error is None
                && next.last_refresh_at is None
            &&& body.source is None ==> next.last_value == w.last_value && next.last_error
                == w.last_error && next.last_refresh_at == w.last_refresh_at
            &&& found(after.widgets, id) matches Some(row)
            &&& row.updated_at == now
            &&& after.widget(other) == s.widget(other)
            &&& after.dashboards == s.dashboards && after.devices == s.devices
        }),
{
    lemma_place_from(s.widgets, id, 0);
    let next = crate::api::patched(w, body);
    law_written_widgets_have_their_row(s, next, now);
    law_written_widget_is_read(s, next, now, other);
}

/// A move of a widget is read afterwards: on the grid when all four numbers are given, on the
/// canvas when a place there is given, and nothing else of it changes.
pub proof fn law_moved_widgets_stand_where_they_were_put(
    s: StoreView,
    dashboard_id: Seq<char>,
    id: Seq<char>,
    at: (Option<u32>, Option<u32>, Option<u32>, Option<u32>),
    canvas: Option<CanvasLayout>,
    now: Seq<char>,
    w: WidgetView,
    other: Seq<char>,
)
    requires
        s.wf(),
        s.widget_on(dashboard_id, id) == Ok::<Option<WidgetView>, Seq<char>>(Some(w)),
        other != id,
    ensures
        ({
            let (r, after) = widget_moved(
                s,
                dashboard_id,
                id,
                full_grid(at.0, at.1, at.2, at.3),
                canvas,
                now,
            );
            let full = at.0 is Some && at.1 is Some && at.2 is Some && at.3 is Some;
            &&& r.status == 200
            &&& after.widget_on(dashboard_id, id) matches Ok(Some(next))
            &&& r.body == ReplyBodyView::Widget(next)
            &&& full ==> at == (
                Some(next.layout.x),
                Some(next.layout.y),
                Some(next.layout.w),
                Some(next.layout.h),
            )
            &&& !full ==> next.layout == w.layout
            &&& canvas is Some ==> next.canvas == canvas
            &&& canvas is None ==> next.canvas == w.canvas
            &&& next == (WidgetView { layout: next.layout, canvas: next.canvas, ..w })
            &&& found(after.widgets, id) matches Some(row)
            &&& row.updated_at == now
            &&& after.widget(other) == s.widget(other)
            &&& after.dashboards == s.dashboards && after.devices == s.devices
        }),
{
    lemma_place_from(s.widgets, id, 0);
    let next = crate::store::placed(w, full_grid(at.0, at.1, at.2, at.3), canvas);
    law_written_widgets_have_their_row(s, next, now);
    law_written_widget_is_read(s, next, now, other);
}

/// A widget that is removed is gone, and every other stays.
pub proof fn law_removed_widgets_are_gone(
    s: StoreView,
    dashboard_id: Seq<char>,
    id: Seq<char>,
    other: Seq<char>,
)
    requires
        s.wf(),
        found(s.widgets, id) matches Some(row) && row.dashboard_id == dashboard_id,
        other != id,
    ensures
        ({
            let (r, after) = widget_deleted(s, dashboard_id, id);
            &&& r == (ReplyView { status: 200, body: ReplyBodyView::Done })
            &&& after.widget(id) == Ok::<Option<WidgetView>, Seq<char>>(None)
            &&& after.widget(other) == s.widget(other)
            &&& after.dashboards == s.dashboards && after.devices == s.devices
        }),
{
    law_removed_widget_is_gone(s, id, other);
}

// ---- refreshing on demand ------------------------------------------------

/// The widget that a request refreshes is the one that stands under the id on the dashboard.
pub proof fn law_refreshes_reach_their_widget(
    s: StoreView,
    dashboard_id: Seq<char>,
    id: Seq<char>,
    w: WidgetView,
)
    ensures
        target_of(s, dashboard_id, id) == Ok::<WidgetView, ReplyView>(w) <==> (found(s.widgets, id)
            matches Some(row) && row.dashboard_id == dashboard_id && row.body == Some(w)),
{
}

/// A refresh answers with the value that it delivered, or with its error, and the request
/// succeeds either way.
pub proof fn law_refreshes_answer_with_their_outcome(v: JsonView, e: Seq<char>)
    ensures
        refresh_answer(Ok(v)) == (ReplyView { status: 200, body: ReplyBodyView::Value(v) }),
        refresh_answer(Err(e)) == (ReplyView { status: 200, body: ReplyBodyView::Error(e) }),
{
}

/// After a refresh the widget is read with the value and without an error, or with the error and
/// the value that it had; with the time of the refresh; and else as it was.
pub proof fn law_refreshes_are_cached(
    s: StoreView,
    id: Seq<char>,
    w: WidgetView,
    outcome: Result<JsonView, Seq<char>>,
    at: Seq<char>,
    updated_at: Seq<char>,
    other: Seq<char>,
)
    requires
        s.wf(),
        s.widget(id) == Ok::<Option<WidgetView>, Seq<char>>(Some(w)),
        other != id,
    ensures
        ({
            let after = cached_on(s, id, outcome, at, updated_at);
            &&& after.widget(id) matches Ok(Some(next))
            &&& next.last_refresh_at == Some(at)
            &&& outcome matches Ok(v) ==> next.last_value == Some(v) && next.last_error is None
            &&& outcome matches Err(e) ==> next.last_value == w.last_value && next.last_error == Some(e)
            &&& next == (WidgetView {
                last_value: next.last_value,
                last_error: next.last_error,
                last_refresh_at: next.last_refresh_at,
                ..w
            })
            &&& after.widget(other) == s.widget(other)
            &&& after.dashboards == s.dashboards && after.devices == s.devices
        }),
{
    lemma_place_from(s.widgets, id, 0);
    let row = crate::store::WidgetRowView {
        body: Some(crate::store::refreshed(w, outcome, at)),
        updated_at,
        ..found(s.widgets, w.id).unwrap()
    };
    law_put_is_found(s.widgets, row);
    crate::table::law_put_leaves_others(s.widgets, row, other);
}

/// The outcome for a widget that is gone, or that cannot be read, is dropped.
pub proof fn law_late_outcomes_are_dropped(
    s: StoreView,
    id: Seq<char>,
    outcome: Result<JsonView, Seq<char>>,
    at: Seq<char>,
    updated_at: Seq<char>,
)
    requires
        !(s.widget(id) matches Ok(Some(_))),
    ensures
        cached_on(s, id, outcome, at, updated_at) == s,
{
}

// ---- devices -------------------------------------------------------------

/// A device without a name goes by its id.
pub proof fn law_nameless_devices_go_by_their_id(name: Seq<char>, device_id: Seq<char>)
    ensures
        name_or_id(None, device_id) == device_id,
        name_or_id(Some(name), device_id) == name,
{
}

/// The answer to an ensured device holds the id of the dashboard that it is bound to.
pub proof fn law_ensured_devices_learn_their_dashboard(dd: DeviceView, e: Seq<char>)
    ensures
        ensure_answer(Ok(dd)).status == 200,
        ensure_answer(Ok(dd)).body matches ReplyBodyView::Document(v) && v.text_at(
            "dashboard_id"@,
        ) == Some(dd.dashboard_id),
        ensure_answer(Err(e)) == (ReplyView { status: 500, body: ReplyBodyView::Error(e) }),
{
}

/// The answer to accepted settings holds the dashboard's id and the poll interval; refused ones
/// are the client's fault.
pub proof fn law_settings_are_echoed(id: Seq<char>, rate: u32, e: Seq<char>)
    ensures
        settings_answer(Ok((id, rate))).status == 200,
        settings_answer(Ok((id, rate))).body matches ReplyBodyView::Document(v) && v.member("ok"@)
            == Some(JsonView::Bool(true)) && v.text_at("dashboard_id"@) == Some(id) && v.whole_at(
            "refresh_rate"@,
        ) == Some(rate as u64),
        settings_answer(Err(e)) == (ReplyView { status: 400, body: ReplyBodyView::Error(e) }),
{
    reveal_strlit("ok");
    reveal_strlit("dashboard_id");
    reveal_strlit("refresh_rate");
    assert("ok"@.len() == 2);
    assert("dashboard_id"@[0] != "refresh_rate"@[0]);
}

/// A device is told what it shows, or the error that came instead.
pub proof fn law_devices_are_told_what_they_show(
    reply: ReplyView,
    s: StoreView,
    dd: DeviceView,
    device_type: Seq<char>,
    prefs: JsonView,
    e: Seq<char>,
)
    ensures
        tells_config(reply, Ok(dd), s, device_type, prefs) ==> reply.status == 200 && (reply.body
            matches ReplyBodyView::Device(c) && c.binding == dd && c.widgets == readable_on(
            by_creation(s.widgets),
            dd.dashboard_id,
        ) && c.profile == device_profile(device_type, prefs)),
        tells_config(reply, Err(e), s, device_type, prefs) ==> reply == (ReplyView {
            status: 500,
            body: ReplyBodyView::Error(e),
        }),
{
}

/// Every binding is listed, in its place, with the device and the dashboard that it binds.
pub proof fn law_every_binding_is_listed(s: StoreView, i: int)
    requires
        0 <= i < s.devices.len(),
    ensures
        bindings_listed(s).status == 200,
        ({
            &&& bindings_listed(s).body matches ReplyBodyView::Document(v)
            &&& v.member("bindings"@) matches Some(JsonView::Array(items))
            &&& items.len() == s.devices.len()
            &&& items[i].text_at("device_id"@) == Some(s.devices[i].device_id)
            &&& items[i].text_at("dashboard_id"@) == Some(s.devices[i].dashboard_id)
        }),
{
    reveal_strlit("device_id");
    reveal_strlit("dashboard_id");
    assert("device_id"@.len() != "dashboard_id"@.len());
}

/// A binding that is dropped is gone; the others stay, and so do dashboards and widgets.
pub proof fn law_dropped_bindings_are_gone(s: StoreView, device_id: Seq<char>, other: Seq<char>)
    requires
        s.wf(),
        other != device_id,
    ensures
        ({
            let (r, after) = binding_deleted(s, device_id);
            &&& r == (ReplyView { status: 200, body: ReplyBodyView::Done })
            &&& found(after.devices, device_id) is None
            &&& found(after.devices, other) == found(s.devices, other)
            &&& after.dashboards == s.dashboards && after.widgets == s.widgets
            &&& after.events == s.events
        }),
{
    law_removed_is_not_found(s.devices, device_id);
    law_removal_leaves_others(s.devices, device_id, other);
}

/// The manifest of a rendered image holds the image's revision, the poll interval of the
/// device's binding and the screen of the image's panel.
pub proof fn law_manifests_tell_of_their_image(image: RenderedImage, binding: DeviceDashboard, e: String)
    ensures
        manifest_answer(Ok((image, binding))).status == 200,
        ({
            &&& manifest_answer(Ok((image, binding))).body matches ReplyBodyView::Document(v)
            &&& v.text_at("rev"@) == Some(rev_of(image))
            &&& v.whole_at("refresh_rate"@) == Some(binding.refresh_rate as u64)
            &&& v.member("screen"@) == Some(screen_tree(image.profile))
        }),
        manifest_answer(Err(e)) == (ReplyView { status: 500, body: ReplyBodyView::Error(e@) }),
{
    reveal_strlit("rev");
    reveal_strlit("refresh_rate");
    reveal_strlit("screen");
    assert("rev"@.len() == 3 && "refresh_rate"@.len() == 12 && "screen"@.len() == 6);
}

/// The revision of an image is the hash of what it is made of, in sixteen hexadecimal digits,
/// and one changed byte of the image changes it.
pub proof fn law_revisions_follow_the_image(a: RenderedImage, b: RenderedImage, i: int)
    ensures
        rev_of(a) == hex_of(fnv_from(14_695_981_039_346_656_037, rev_input(a)) as nat, 16),
        rev_of(a).len() == 16,
        a.profile == b.profile && a.source_hash == b.source_hash && 0 <= i < a.bytes@.len()
            && a.bytes@[i] != b.bytes@[i] && b.bytes@ == a.bytes@.update(i, b.bytes@[i]) ==> rev_of(a)
            != rev_of(b),
{
    reveal_with_fuel(hex_of, 17);
    if a.profile == b.profile && a.source_hash == b.source_hash && 0 <= i < a.bytes@.len()
        && a.bytes@[i] != b.bytes@[i] && b.bytes@ == a.bytes@.update(i, b.bytes@[i]) {
        law_one_changed_byte_changes_the_rev(a, b, i);
    }
}

/// A device that knows the revision of the image is told that nothing is new; any other gets the
/// bytes, with their type and the quoted revision.
pub proof fn law_images_are_sent_when_they_are_new(
    r: ImageReply,
    image: RenderedImage,
    known: Seq<char>,
    known_rev: Option<Seq<char>>,
    e: String,
)
    ensures
        image_answer(r, Err(e), known_rev) ==> (r matches ImageReply::Refused(reply) && reply@ == (
        ReplyView { status: 500, body: ReplyBodyView::Error(e@) })),
        image_answer(r, Ok(image), Some(rev_of(image))) <==> r is NotModified,
        known != rev_of(image) ==> (image_answer(r, Ok(image), Some(known)) ==> (r
            matches ImageReply::Image { content_type, etag, bytes } && content_type
            == image.content_type && bytes == image.bytes && etag@.len() == rev_of(image).len() + 2
            && etag@.subrange(1, etag@.len() - 1) == rev_of(image) && etag@[0] == '"'
            && etag@[etag@.len() - 1] == '"')),
        image_answer(r, Ok(image), None) ==> r is Image,
{
    reveal_strlit("\"");
    if let ImageReply::Image { content_type, etag, bytes } = r {
        if image_answer(r, Ok(image), Some(known)) {
            assert(etag@.subrange(1, etag@.len() - 1) =~= rev_of(image));
        }
    }
}

// ---- flags and the catalog -----------------------------------------------

/// Four texts switch a flag on, and no other does.
pub proof fn law_flags_are_switched_on_by_four_texts(s: Seq<char>)
    ensures
        flag_is_on("1"@),
        flag_is_on("true"@),
        flag_is_on("yes"@),
        flag_is_on("on"@),
        flag_is_on(s) ==> s == "1"@ || s == "true"@ || s == "yes"@ || s == "on"@,
{
}

/// Whether a value is the array of some texts.
pub open spec fn lists(v: Option<JsonView>, names: Seq<Seq<char>>) -> bool {
    &&& v matches Some(JsonView::Array(items))
    &&& items.len() == names.len()
    &&& forall|i: int| 0 <= i < names.len() ==> #[trigger] items[i] == JsonView::String(names[i])
}

/// The catalog lists the ten kinds of widgets, the seven kinds of sources and the nine curated
/// endpoints by their names.
pub proof fn law_the_catalog_lists_what_there_is()
    ensures
        lists(
            catalog_tree().member("widget_kinds"@),
            seq![
                "stat"@,
                "line_chart"@,
                "bar_chart"@,
                "area_chart"@,
                "pie_chart"@,
                "table"@,
                "list"@,
                "text"@,
                "map"@,
                "agent_feed"@,
            ],
        ),
        lists(
            catalog_tree().member("source_types"@),
            seq![
                "static"@,
                "core_endpoint"@,
                "monitor"@,
                "workflow"@,
                "composio"@,
                "http"@,
                "agent"@,
            ],
        ),
        lists(
            catalog_tree().member("core_endpoints"@),
            seq![
                "system_status"@,
                "sidecar_status"@,
                "connections"@,
                "quests"@,
                "monitors"@,
                "engines"@,
                "agents"@,
                "workflows"@,
                "meetings"@,
            ],
        ),
{
    reveal_strlit("widget_kinds");
    reveal_strlit("source_types");
    reveal_strlit("core_endpoints");
    assert("widget_kinds"@[0] != "source_types"@[0]);
    assert("widget_kinds"@[0] != "core_endpoints"@[0]);
    assert("source_types"@[0] != "core_endpoints"@[0]);
}

} // verus!
