//! The requests of the dashboards API: what each answers, and what it changes.

use vstd::prelude::*;

use crate::clock::{is_generated, is_stamp, new_dashboard_id, new_widget_id, now};
use crate::device::{
    binding_of, configured, device_config_json, ensure_device_dashboard, ensured, items_of,
    request_items, screen_json, screen_tree, settings_of, shown_on, whole_tree, DeviceConfig, DeviceConfigView,
};
use crate::json::{
    add_member, lemma_trees_push, members, opt_tree, trees, Json, JsonView, Number,
};
use crate::model::{
    CanvasLayout, Dashboard, DashboardView, DeviceDashboard, DeviceView, GridLayout, SourceView,
    Widget, WidgetKind, WidgetSource, WidgetView,
};
use crate::raster::{fnv_from, FNV_OFFSET};
use crate::render::{rev_input, RenderedImage};
use crate::replace::batch_marks;
use crate::sources::{endpoint_names, source_fault, validate_widget_source, CORE_ENDPOINT_NAMES};
use crate::store::{
    belongs_elsewhere, dashboard_views, device_views, law_written_dashboard_is_read,
    law_written_widget_is_read, outcome_of, placed, readable_dashboards, readable_on, source_holds,
    sources_hold, widget_views, DashboardStore, StoreView,
};
use crate::table::{
    by_creation, found, law_put_is_found, law_put_leaves_others, law_removal_leaves_others,
    law_removed_is_not_found, without,
};
use crate::text::{blank, hex_of, is_blank, opt_text, same_text, trim, trimmed};

verus! {

// ---- requests ------------------------------------------------------------

/// The query of the event stream.
#[derive(Debug)]
pub struct EventsQuery {
    /// Whether the subscriber is internal, and so no viewer.
    pub internal: bool,
}

impl Default for EventsQuery {
    fn default() -> (r: EventsQuery)
        ensures
            !r.internal,
    {
        EventsQuery { internal: false }
    }
}

/// The texts that switch a flag on.
pub open spec fn flag_is_on(s: Seq<char>) -> bool {
    s == "1"@ || s == "true"@ || s == "yes"@ || s == "on"@
}

/// Reads a flag: `1`, `true`, `yes` and `on` switch it on, and nothing else does.
pub fn bool_flag(s: &str) -> (r: bool)
    ensures
        r == flag_is_on(s@),
{
    same_text(s, "1") || same_text(s, "true") || same_text(s, "yes") || same_text(s, "on")
}

/// The request to create a dashboard.
#[derive(Debug)]
pub struct DashboardBody {
    pub name: String,
}

/// The request to change a dashboard. What is absent stays.
#[derive(Debug)]
pub struct DashboardUpdateBody {
    pub name: Option<String>,
    pub view_mode: Option<String>,
}

/// The request to create a widget, or to change one, where what is absent stays.
#[derive(Debug)]
pub struct WidgetBody {
    pub id: Option<String>,
    pub kind: Option<WidgetKind>,
    pub title: Option<String>,
    pub config: Option<Json>,
    pub source: Option<WidgetSource>,
    pub refresh_interval: Option<String>,
    pub layout: Option<GridLayout>,
    pub canvas: Option<CanvasLayout>,
}

/// The model of a [`WidgetBody`].
pub struct WidgetBodyView {
    pub id: Option<Seq<char>>,
    pub kind: Option<WidgetKind>,
    pub title: Option<Seq<char>>,
    pub config: Option<JsonView>,
    pub source: Option<SourceView>,
    pub refresh_interval: Option<Seq<char>>,
    pub layout: Option<GridLayout>,
    pub canvas: Option<CanvasLayout>,
}

/// The model of an optional source.
pub open spec fn opt_source(s: Option<WidgetSource>) -> Option<SourceView> {
    match s {
        Some(x) => Some(x@),
        None => None,
    }
}

impl View for WidgetBody {
    type V = WidgetBodyView;

    open spec fn view(&self) -> WidgetBodyView {
        WidgetBodyView {
            id: opt_text(self.id),
            kind: self.kind,
            title: opt_text(self.title),
            config: opt_tree(self.config),
            source: opt_source(self.source),
            refresh_interval: opt_text(self.refresh_interval),
            layout: self.layout,
            canvas: self.canvas,
        }
    }
}

/// The request to move a widget. The grid changes only when all four of its numbers are
/// there.
#[derive(Debug)]
pub struct LayoutUpdateBody {
    pub x: Option<u32>,
    pub y: Option<u32>,
    pub w: Option<u32>,
    pub h: Option<u32>,
    pub canvas: Option<CanvasLayout>,
}

// ---- replies -------------------------------------------------------------

/// What a request answers.
#[derive(Debug)]
pub struct Reply {
    /// The HTTP status.
    pub status: u16,
    pub body: ReplyBody,
}

/// The content of an answer.
#[derive(Debug)]
pub enum ReplyBody {
    Error(String),
    Done,
    Dashboards(Vec<Dashboard>),
    Dashboard(Dashboard),
    Opened(Dashboard, Vec<Widget>),
    Widgets(Vec<Widget>),
    Widget(Widget),
    /// What a device shows.
    Device(DeviceConfig),
    /// The value that a refresh delivered.
    Value(Json),
    /// The whole body.
    Document(Json),
}

/// The model of a [`Reply`].
pub struct ReplyView {
    pub status: u16,
    pub body: ReplyBodyView,
}

/// The model of a [`ReplyBody`].
pub enum ReplyBodyView {
    Error(Seq<char>),
    Done,
    Dashboards(Seq<DashboardView>),
    Dashboard(DashboardView),
    Opened(DashboardView, Seq<WidgetView>),
    Widgets(Seq<WidgetView>),
    Widget(WidgetView),
    Device(DeviceConfigView),
    Value(JsonView),
    Document(JsonView),
}

impl View for Reply {
    type V = ReplyView;

    open spec fn view(&self) -> ReplyView {
        ReplyView {
            status: self.status,
            body: match self.body {
                ReplyBody::Error(e) => ReplyBodyView::Error(e@),
                ReplyBody::Done => ReplyBodyView::Done,
                ReplyBody::Dashboards(list) => ReplyBodyView::Dashboards(dashboard_views(list@)),
                ReplyBody::Dashboard(d) => ReplyBodyView::Dashboard(d@),
                ReplyBody::Opened(d, list) => ReplyBodyView::Opened(d@, widget_views(list@)),
                ReplyBody::Widgets(list) => ReplyBodyView::Widgets(widget_views(list@)),
                ReplyBody::Widget(w) => ReplyBodyView::Widget(w@),
                ReplyBody::Device(c) => ReplyBodyView::Device(c@),
                ReplyBody::Value(v) => ReplyBodyView::Value(v@),
                ReplyBody::Document(v) => ReplyBodyView::Document(v@),
            },
        }
    }
}

/// An answer of success.
pub open spec fn accepted(body: ReplyBodyView) -> ReplyView {
    ReplyView { status: 200, body }
}

/// An answer that refuses, with its status and its reason.
pub open spec fn refused(status: u16, reason: Seq<char>) -> ReplyView {
    ReplyView { status, body: ReplyBodyView::Error(reason) }
}

fn accept(body: ReplyBody) -> (r: Reply)
    ensures
        r.status == 200,
        r.body == body,
{
    Reply { status: 200, body }
}

fn refuse(status: u16, reason: &str) -> (r: Reply)
    ensures
        r@ == refused(status, reason@),
{
    Reply { status, body: ReplyBody::Error(reason.to_owned()) }
}

// ---- dashboards ----------------------------------------------------------

/// What listing the dashboards answers.
pub open spec fn dashboards_listed(s: StoreView) -> ReplyView {
    accepted(ReplyBodyView::Dashboards(readable_dashboards(by_creation(s.dashboards))))
}

/// Answers with all dashboards, the oldest first.
pub fn list_dashboards(store: &DashboardStore) -> (r: Reply)
    ensures
        r@ == dashboards_listed(store@),
{
    accept(ReplyBody::Dashboards(store.list_dashboards()))
}

/// What creating a dashboard answers, and the store after it.
pub open spec fn dashboard_created(
    s: StoreView,
    name: Seq<char>,
    id: Seq<char>,
    now: Seq<char>,
) -> (ReplyView, StoreView) {
    if blank(name) {
        (refused(400, "name is required"@), s)
    } else {
        let d = DashboardView {
            id,
            name: trimmed(name),
            created_at: now,
            updated_at: now,
            view_mode: None,
        };
        (accepted(ReplyBodyView::Dashboard(d)), s.with_dashboard(d))
    }
}

/// Creates a dashboard with the given id at the given time. A blank name is refused.
pub fn create_dashboard_as(store: &mut DashboardStore, body: &DashboardBody, id: &str, now: &str) -> (r:
    Reply)
    requires
        old(store)@.wf(),
    ensures
        (r@, final(store)@) == dashboard_created(old(store)@, body.name@, id@, now@),
        final(store)@.wf(),
{
    let name = trim(body.name.as_str());
    if name.as_str().is_empty() {
        return refuse(400, "name is required");
    }
    let dashboard = Dashboard {
        id: id.to_owned(),
        name,
        created_at: now.to_owned(),
        updated_at: now.to_owned(),
        view_mode: None,
    };
    store.upsert_dashboard(&dashboard);
    accept(ReplyBody::Dashboard(dashboard))
}

/// Creates a dashboard. A blank name is refused.
pub fn create_dashboard(store: &mut DashboardStore, body: &DashboardBody) -> (r: Reply)
    requires
        old(store)@.wf(),
    ensures
        exists|id: Seq<char>, t: Seq<char>|
            is_generated(id, "dash_"@) && is_stamp(t) && (r@, final(store)@) == #[trigger] dashboard_created(
                old(store)@,
                body.name@,
                id,
                t,
            ),
        final(store)@.wf(),
{
    let id = new_dashboard_id();
    let t = now();
    create_dashboard_as(store, body, id.as_str(), t.as_str())
}

/// What reading a dashboard answers.
pub open spec fn dashboard_read(s: StoreView, id: Seq<char>) -> ReplyView {
    match s.dashboard(id) {
        Ok(Some(d)) => accepted(
            ReplyBodyView::Opened(d, readable_on(by_creation(s.widgets), id)),
        ),
        Ok(None) => refused(404, "not found"@),
        Err(e) => refused(500, e),
    }
}

/// Answers with a dashboard and its widgets.
pub fn get_dashboard(store: &DashboardStore, id: &str) -> (r: Reply)
    ensures
        r@ == dashboard_read(store@, id@),
{
    match store.get_dashboard(id) {
        Ok(Some(d)) => accept(ReplyBody::Opened(d, store.list_widgets(id))),
        Ok(None) => refuse(404, "not found"),
        Err(e) => refuse(500, e.as_str()),
    }
}

/// What changing a dashboard answers, and the store after it.
pub open spec fn dashboard_changed(
    s: StoreView,
    id: Seq<char>,
    name: Option<Seq<char>>,
    view_mode: Option<Seq<char>>,
    now: Seq<char>,
) -> (ReplyView, StoreView) {
    match s.dashboard(id) {
        Ok(None) => (refused(404, "not found"@), s),
        Err(e) => (refused(500, e), s),
        Ok(Some(d)) => if name matches Some(n) && blank(n) {
            (refused(400, "name is required"@), s)
        } else if view_mode matches Some(m) && m != "grid"@ && m != "canvas"@ {
            (refused(400, "view_mode must be 'grid' or 'canvas'"@), s)
        } else {
            let next = DashboardView {
                name: match name {
                    Some(n) => trimmed(n),
                    None => d.name,
                },
                view_mode: match view_mode {
                    Some(m) => Some(m),
                    None => d.view_mode,
                },
                updated_at: now,
                ..d
            };
            (accepted(ReplyBodyView::Dashboard(next)), s.with_dashboard(next))
        },
    }
}

/// Renames a dashboard or switches its view, as far as each is given, at the given time.
pub fn update_dashboard_at(
    store: &mut DashboardStore,
    id: &str,
    body: &DashboardUpdateBody,
    now: &str,
) -> (r: Reply)
    requires
        old(store)@.wf(),
    ensures
        (r@, final(store)@) == dashboard_changed(
            old(store)@,
            id@,
            opt_text(body.name),
            opt_text(body.view_mode),
            now@,
        ),
        final(store)@.wf(),
{
    let mut dashboard = match store.get_dashboard(id) {
        Ok(Some(d)) => d,
        Ok(None) => return refuse(404, "not found"),
        Err(e) => return refuse(500, e.as_str()),
    };
    if let Some(name) = &body.name {
        let name = trim(name.as_str());
        if name.as_str().is_empty() {
            return refuse(400, "name is required");
        }
        dashboard.name = name;
    }
    if let Some(mode) = &body.view_mode {
        if !same_text(mode.as_str(), "grid") && !same_text(mode.as_str(), "canvas") {
            return refuse(400, "view_mode must be 'grid' or 'canvas'");
        }
        dashboard.view_mode = Some(mode.clone());
    }
    dashboard.updated_at = now.to_owned();
    store.upsert_dashboard(&dashboard);
    accept(ReplyBody::Dashboard(dashboard))
}

/// Renames a dashboard or switches its view, as far as each is given.
pub fn update_dashboard(store: &mut DashboardStore, id: &str, body: &DashboardUpdateBody) -> (r: Reply)
    requires
        old(store)@.wf(),
    ensures
        exists|t: Seq<char>|
            is_stamp(t) && (r@, final(store)@) == #[trigger] dashboard_changed(
                old(store)@,
                id@,
                opt_text(body.name),
                opt_text(body.view_mode),
                t,
            ),
        final(store)@.wf(),
{
    let t = now();
    update_dashboard_at(store, id, body, t.as_str())
}

/// What removing a dashboard answers, and the store after it.
pub open spec fn dashboard_deleted(s: StoreView, id: Seq<char>) -> (ReplyView, StoreView) {
    (
        if found(s.dashboards, id) is Some {
            accepted(ReplyBodyView::Done)
        } else {
            refused(404, "not found"@)
        },
        s.without_dashboard(id),
    )
}

/// Removes a dashboard and its widgets.
pub fn delete_dashboard(store: &mut DashboardStore, id: &str) -> (r: Reply)
    requires
        old(store)@.wf(),
    ensures
        (r@, final(store)@) == dashboard_deleted(old(store)@, id@),
        final(store)@.wf(),
{
    if store.delete_dashboard(id) {
        accept(ReplyBody::Done)
    } else {
        refuse(404, "not found")
    }
}

// ---- widgets -------------------------------------------------------------

/// What listing the widgets of a dashboard answers.
pub open spec fn widgets_listed(s: StoreView, id: Seq<char>) -> ReplyView {
    accepted(ReplyBodyView::Widgets(readable_on(by_creation(s.widgets), id)))
}

/// Answers with the widgets of a dashboard, the oldest first.
pub fn list_widgets(store: &DashboardStore, id: &str) -> (r: Reply)
    ensures
        r@ == widgets_listed(store@, id@),
{
    accept(ReplyBody::Widgets(store.list_widgets(id)))
}

/// A text, unless it is absent or blank.
pub open spec fn filled_in(s: Option<Seq<char>>) -> Option<Seq<char>> {
    match s {
        Some(t) if !blank(t) => Some(t),
        _ => None,
    }
}

fn fill_in(s: &Option<String>) -> (r: Option<String>)
    ensures
        opt_text(r) == filled_in(opt_text(*s)),
{
    match s {
        Some(t) => if is_blank(t.as_str()) {
            None
        } else {
            Some(t.clone())
        },
        None => None,
    }
}

/// The source of a request to create a widget: empty inline data when it names none.
pub open spec fn source_or_empty(s: Option<SourceView>) -> SourceView {
    match s {
        Some(x) => x,
        None => SourceView::Static { data: JsonView::Null },
    }
}

/// The widget that a request creates.
pub open spec fn new_widget(
    body: WidgetBodyView,
    kind: WidgetKind,
    dashboard_id: Seq<char>,
    fresh: Seq<char>,
) -> WidgetView {
    WidgetView {
        id: match filled_in(body.id) {
            Some(id) => id,
            None => fresh,
        },
        dashboard_id,
        kind,
        title: match body.title {
            Some(t) => t,
            None => Seq::empty(),
        },
        config: match body.config {
            Some(c) => c,
            None => JsonView::Null,
        },
        source: source_or_empty(body.source),
        refresh_interval: filled_in(body.refresh_interval),
        layout: match body.layout {
            Some(l) => l,
            None => GridLayout { x: 0, y: 0, w: 4, h: 4 },
        },
        canvas: body.canvas,
        last_value: None,
        last_refresh_at: None,
        last_error: None,
    }
}

/// What writing a widget answers, and the store after it: an id that belongs to another
/// dashboard is refused.
pub open spec fn widget_written(s: StoreView, w: WidgetView, now: Seq<char>) -> (
    ReplyView,
    StoreView,
) {
    match s.owner(w) {
        Some(d) => (refused(500, belongs_elsewhere(w.id, d)), s),
        None => (accepted(ReplyBodyView::Widget(w)), s.with_widget(w, now)),
    }
}

/// What creating a widget answers, and the store after it.
pub open spec fn widget_created(
    s: StoreView,
    dashboard_id: Seq<char>,
    body: WidgetBodyView,
    fresh: Seq<char>,
    now: Seq<char>,
) -> (ReplyView, StoreView) {
    if !(s.dashboard(dashboard_id) matches Ok(Some(_))) {
        (refused(404, "dashboard not found"@), s)
    } else {
        match body.kind {
            None => (refused(400, "kind is required"@), s),
            Some(kind) => match source_fault(source_or_empty(body.source)) {
                Some(e) => (refused(400, e), s),
                None => widget_written(s, new_widget(body, kind, dashboard_id, fresh), now),
            },
        }
    }
}

fn write_widget(store: &mut DashboardStore, widget: Widget, now: &str) -> (r: Reply)
    requires
        old(store)@.wf(),
    ensures
        (r@, final(store)@) == widget_written(old(store)@, widget@, now@),
        final(store)@.wf(),
{
    match store.upsert_widget_at(&widget, now) {
        Ok(()) => accept(ReplyBody::Widget(widget)),
        Err(e) => refuse(500, e.as_str()),
    }
}

/// Adds a widget to a dashboard at the given time, under the id that the request chose, or
/// else the given fresh one.
pub fn create_widget_as(
    store: &mut DashboardStore,
    id: &str,
    body: &WidgetBody,
    fresh: &str,
    now: &str,
) -> (r: Reply)
    requires
        old(store)@.wf(),
    ensures
        (r@, final(store)@) == widget_created(old(store)@, id@, body@, fresh@, now@),
        final(store)@.wf(),
{
    match store.get_dashboard(id) {
        Ok(Some(_)) => {},
        _ => return refuse(404, "dashboard not found"),
    }
    let kind = match body.kind {
        Some(k) => k,
        None => return refuse(400, "kind is required"),
    };
    let source = match &body.source {
        Some(s) => s.clone(),
        None => WidgetSource::Static { data: Json::Null },
    };
    match validate_widget_source(&source) {
        Ok(()) => {},
        Err(e) => return refuse(400, e.as_str()),
    }
    let empty = String::new();
    assert(empty@ =~= Seq::<char>::empty());
    let widget = Widget {
        id: match fill_in(&body.id) {
            Some(chosen) => chosen,
            None => fresh.to_owned(),
        },
        dashboard_id: id.to_owned(),
        kind,
        title: match &body.title {
            Some(t) => t.clone(),
            None => empty,
        },
        config: match &body.config {
            Some(c) => c.clone(),
            None => Json::Null,
        },
        source,
        refresh_interval: fill_in(&body.refresh_interval),
        layout: match body.layout {
            Some(l) => l,
            None => GridLayout::default(),
        },
        canvas: body.canvas,
        last_value: None,
        last_refresh_at: None,
        last_error: None,
    };
    write_widget(store, widget, now)
}

/// Adds a widget to a dashboard.
pub fn create_widget(store: &mut DashboardStore, id: &str, body: &WidgetBody) -> (r: Reply)
    requires
        old(store)@.wf(),
    ensures
        exists|fresh: Seq<char>, t: Seq<char>|
            is_generated(fresh, "wgt_"@) && is_stamp(t) && (r@, final(store)@) == #[trigger] widget_created(
                old(store)@,
                id@,
                body@,
                fresh,
                t,
            ),
        final(store)@.wf(),
{
    let fresh = new_widget_id();
    let t = now();
    create_widget_as(store, id, body, fresh.as_str(), t.as_str())
}

/// A widget with the fields that a request gives. A new source drops what was cached.
pub open spec fn patched(w: WidgetView, body: WidgetBodyView) -> WidgetView {
    WidgetView {
        id: w.id,
        dashboard_id: w.dashboard_id,
        kind: match body.kind {
            Some(k) => k,
            None => w.kind,
        },
        title: match body.title {
            Some(t) => t,
            None => w.title,
        },
        config: match body.config {
            Some(c) => c,
            None => w.config,
        },
        source: match body.source {
            Some(s) => s,
            None => w.source,
        },
        refresh_interval: match body.refresh_interval {
            Some(_) => filled_in(body.refresh_interval),
            None => w.refresh_interval,
        },
        layout: match body.layout {
            Some(l) => l,
            None => w.layout,
        },
        canvas: match body.canvas {
            Some(c) => Some(c),
            None => w.canvas,
        },
        last_value: if body.source is Some {
            None
        } else {
            w.last_value
        },
        last_refresh_at: if body.source is Some {
            None
        } else {
            w.last_refresh_at
        },
        last_error: if body.source is Some {
            None
        } else {
            w.last_error
        },
    }
}

/// What is wrong with the source that a request gives, if it gives one.
pub open spec fn new_source_fault(body: WidgetBodyView) -> Option<Seq<char>> {
    match body.source {
        Some(s) => source_fault(s),
        None => None,
    }
}

/// What changing a widget answers, and the store after it. A source that may not be written
/// is refused and changes nothing.
pub open spec fn widget_changed(
    s: StoreView,
    dashboard_id: Seq<char>,
    id: Seq<char>,
    body: WidgetBodyView,
    now: Seq<char>,
) -> (ReplyView, StoreView) {
    match s.widget_on(dashboard_id, id) {
        Ok(Some(w)) => match new_source_fault(body) {
            Some(e) => (refused(400, e), s),
            None => widget_written(s, patched(w, body), now),
        },
        Ok(None) => (refused(404, "not found"@), s),
        Err(e) => (refused(500, e), s),
    }
}

/// Changes the fields of a widget that a request gives, at the given time.
pub fn update_widget_at(
    store: &mut DashboardStore,
    id: &str,
    wid: &str,
    body: &WidgetBody,
    now: &str,
) -> (r: Reply)
    requires
        old(store)@.wf(),
    ensures
        (r@, final(store)@) == widget_changed(old(store)@, id@, wid@, body@, now@),
        final(store)@.wf(),
{
    let mut widget = match store.get_widget_for_dashboard(id, wid) {
        Ok(Some(w)) => w,
        Ok(None) => return refuse(404, "not found"),
        Err(e) => return refuse(500, e.as_str()),
    };
    if let Some(s) = &body.source {
        match validate_widget_source(s) {
            Ok(()) => {},
            Err(e) => return refuse(400, e.as_str()),
        }
    }
    let ghost w = widget@;
    if let Some(k) = body.kind {
        widget.kind = k;
    }
    if let Some(t) = &body.title {
        widget.title = t.clone();
    }
    if let Some(c) = &body.config {
        widget.config = c.clone();
    }
    if let Some(s) = &body.source {
        widget.source = s.clone();
        widget.last_value = None;
        widget.last_error = None;
        widget.last_refresh_at = None;
    }
    if body.refresh_interval.is_some() {
        widget.refresh_interval = fill_in(&body.refresh_interval);
    }
    if let Some(l) = body.layout {
        widget.layout = l;
    }
    if let Some(c) = body.canvas {
        widget.canvas = Some(c);
    }
    assert(widget@ == patched(w, body@));
    write_widget(store, widget, now)
}

/// Changes the fields of a widget that a request gives.
pub fn update_widget(store: &mut DashboardStore, id: &str, wid: &str, body: &WidgetBody) -> (r: Reply)
    requires
        old(store)@.wf(),
    ensures
        exists|t: Seq<char>|
            is_stamp(t) && (r@, final(store)@) == #[trigger] widget_changed(old(store)@, id@, wid@, body@, t),
        final(store)@.wf(),
{
    let t = now();
    update_widget_at(store, id, wid, body, t.as_str())
}

/// What removing a widget answers, and the store after it.
pub open spec fn widget_deleted(s: StoreView, dashboard_id: Seq<char>, id: Seq<char>) -> (
    ReplyView,
    StoreView,
) {
    match found(s.widgets, id) {
        Some(row) if row.dashboard_id == dashboard_id => (
            accepted(ReplyBodyView::Done),
            s.without_widget(id),
        ),
        _ => (refused(404, "not found"@), s),
    }
}

/// Removes a widget of a dashboard.
pub fn delete_widget(store: &mut DashboardStore, id: &str, wid: &str) -> (r: Reply)
    requires
        old(store)@.wf(),
    ensures
        (r@, final(store)@) == widget_deleted(old(store)@, id@, wid@),
        final(store)@.wf(),
{
    if store.delete_widget_for_dashboard(id, wid) {
        accept(ReplyBody::Done)
    } else {
        refuse(404, "not found")
    }
}

/// The grid that a request to move a widget gives: only a full one counts.
pub open spec fn full_grid(
    x: Option<u32>,
    y: Option<u32>,
    w: Option<u32>,
    h: Option<u32>,
) -> Option<GridLayout> {
    if x is Some && y is Some && w is Some && h is Some {
        Some(GridLayout { x: x.unwrap(), y: y.unwrap(), w: w.unwrap(), h: h.unwrap() })
    } else {
        None
    }
}

/// What moving a widget answers, and the store after it.
pub open spec fn widget_moved(
    s: StoreView,
    dashboard_id: Seq<char>,
    id: Seq<char>,
    grid: Option<GridLayout>,
    canvas: Option<CanvasLayout>,
    now: Seq<char>,
) -> (ReplyView, StoreView) {
    match s.widget_on(dashboard_id, id) {
        Ok(Some(w)) => {
            let next = placed(w, grid, canvas);
            (accepted(ReplyBodyView::Widget(next)), s.with_widget(next, now))
        },
        Ok(None) => (refused(404, "not found"@), s),
        Err(e) => (refused(500, e), s),
    }
}

/// Moves a widget on the grid, on the canvas, or on both, at the given time.
pub fn update_widget_layout_at(
    store: &mut DashboardStore,
    id: &str,
    wid: &str,
    body: &LayoutUpdateBody,
    now: &str,
) -> (r: Reply)
    requires
        old(store)@.wf(),
    ensures
        (r@, final(store)@) == widget_moved(
            old(store)@,
            id@,
            wid@,
            full_grid(body.x, body.y, body.w, body.h),
            body.canvas,
            now@,
        ),
        final(store)@.wf(),
{
    let grid = match (body.x, body.y, body.w, body.h) {
        (Some(x), Some(y), Some(w), Some(h)) => Some(GridLayout { x, y, w, h }),
        _ => None,
    };
    match store.update_widget_layout_fields_at(id, wid, grid, body.canvas, now) {
        Ok(Some(w)) => accept(ReplyBody::Widget(w)),
        Ok(None) => refuse(404, "not found"),
        Err(e) => refuse(500, e.as_str()),
    }
}

/// Moves a widget on the grid, on the canvas, or on both.
pub fn update_widget_layout(
    store: &mut DashboardStore,
    id: &str,
    wid: &str,
    body: &LayoutUpdateBody,
) -> (r: Reply)
    requires
        old(store)@.wf(),
    ensures
        exists|t: Seq<char>|
            is_stamp(t) && (r@, final(store)@) == #[trigger] widget_moved(
                old(store)@,
                id@,
                wid@,
                full_grid(body.x, body.y, body.w, body.h),
                body.canvas,
                t,
            ),
        final(store)@.wf(),
{
    let t = now();
    update_widget_layout_at(store, id, wid, body, t.as_str())
}

// ---- refreshing on demand ------------------------------------------------

/// The widget whose source a request resolves, or what the request answers instead.
pub open spec fn target_of(s: StoreView, id: Seq<char>, wid: Seq<char>) -> Result<
    WidgetView,
    ReplyView,
> {
    match s.widget_on(id, wid) {
        Ok(Some(w)) => Ok(w),
        Ok(None) => Err(refused(404, "not found"@)),
        Err(e) => Err(refused(500, e)),
    }
}

/// The widget whose source a request resolves, or what the request answers instead.
pub fn refresh_target(store: &DashboardStore, id: &str, wid: &str) -> (r: Result<Widget, Reply>)
    ensures
        match target_of(store@, id@, wid@) {
            Ok(w) => r matches Ok(x) && x@ == w,
            Err(reply) => r matches Err(x) && x@ == reply,
        },
{
    match store.get_widget_for_dashboard(id, wid) {
        Ok(Some(w)) => Ok(w),
        Ok(None) => Err(refuse(404, "not found")),
        Err(e) => Err(refuse(500, e.as_str())),
    }
}

/// What a request to refresh answers: the value, or the error that the widget shows. The
/// request itself succeeds either way.
pub open spec fn refresh_answer(outcome: Result<JsonView, Seq<char>>) -> ReplyView {
    match outcome {
        Ok(v) => accepted(ReplyBodyView::Value(v)),
        Err(e) => refused(200, e),
    }
}

/// The store after an outcome was cached on a widget, where that can be read.
pub open spec fn cached_on(
    s: StoreView,
    id: Seq<char>,
    outcome: Result<JsonView, Seq<char>>,
    at: Seq<char>,
    updated_at: Seq<char>,
) -> StoreView {
    match s.widget(id) {
        Ok(Some(w)) => s.with_value(w, outcome, at, updated_at),
        _ => s,
    }
}

/// Caches the outcome of a refresh at the given times and answers with it.
pub fn refresh_widget_at(
    store: &mut DashboardStore,
    wid: &str,
    result: Result<Json, String>,
    at: &str,
    updated_at: &str,
) -> (r: Reply)
    requires
        old(store)@.wf(),
    ensures
        r@ == refresh_answer(outcome_of(result)),
        final(store)@ == cached_on(old(store)@, wid@, outcome_of(result), at@, updated_at@),
        final(store)@.wf(),
{
    let _ = store.update_widget_value_at(wid, &result, at, updated_at);
    match result {
        Ok(v) => accept(ReplyBody::Value(v)),
        Err(e) => refuse(200, e.as_str()),
    }
}

/// Caches the outcome of a refresh and answers with it.
pub fn refresh_widget(store: &mut DashboardStore, wid: &str, result: Result<Json, String>) -> (r: Reply)
    requires
        old(store)@.wf(),
    ensures
        r@ == refresh_answer(outcome_of(result)),
        exists|at: Seq<char>, updated_at: Seq<char>|
            is_stamp(at) && is_stamp(updated_at) && final(store)@ == #[trigger] cached_on(
                old(store)@,
                wid@,
                outcome_of(result),
                at,
                updated_at,
            ),
        final(store)@.wf(),
{
    let at = now();
    let updated_at = now();
    refresh_widget_at(store, wid, result, at.as_str(), updated_at.as_str())
}

// ---- the catalog ---------------------------------------------------------

/// Texts as an array.
pub open spec fn text_array(list: Seq<Seq<char>>) -> JsonView {
    JsonView::Array(Seq::new(list.len(), |i: int| JsonView::String(list[i])))
}

/// The wire names of the kinds of widgets.
pub open spec fn kind_names() -> Seq<Seq<char>> {
    seq![
        "stat"@,
        "line_chart"@,
        "bar_chart"@,
        "area_chart"@,
        "pie_chart"@,
        "table"@,
        "list"@,
        "text"@,
        "map"@,
        "agent_feed"@,
    ]
}

/// The wire names of the kinds of sources.
pub open spec fn source_names() -> Seq<Seq<char>> {
    seq![
        "static"@,
        "core_endpoint"@,
        "monitor"@,
        "workflow"@,
        "composio"@,
        "http"@,
        "agent"@,
    ]
}

/// What a builder of dashboards may choose from.
pub open spec fn catalog_tree() -> JsonView {
    JsonView::Object(
        map![
            "widget_kinds"@ => text_array(kind_names()),
            "source_types"@ => text_array(source_names()),
            "core_endpoints"@ => text_array(endpoint_names()),
        ],
    )
}

fn array_of(list: &[&'static str]) -> (r: Json)
    ensures
        r@ == text_array(Seq::new(list@.len(), |i: int| list@[i]@)),
{
    let ghost all = Seq::new(list@.len(), |i: int| list@[i]@);
    let ghost goal = text_array(all)->Array_0;
    let mut items: Vec<Json> = Vec::new();
    assert(trees(items@) =~= goal.take(0));
    for i in 0..list.len()
        invariant
            all == Seq::new(list@.len(), |i: int| list@[i]@),
            goal == text_array(all)->Array_0,
            trees(items@) == goal.take(i as int),
    {
        let ghost before = items@;
        items.push(Json::String(list[i].to_owned()));
        proof {
            lemma_trees_push(before, items@.last());
            assert(items@ =~= before.push(items@.last()));
            assert(trees(items@) =~= goal.take(i + 1));
        }
    }
    assert(goal.take(goal.len() as int) =~= goal);
    Json::Array(items)
}

/// Answers with the kinds of widgets, the kinds of sources and the curated endpoints.
pub fn catalog() -> (r: Reply)
    ensures
        r@ == accepted(ReplyBodyView::Document(catalog_tree())),
{
    let kinds = [
        "stat",
        "line_chart",
        "bar_chart",
        "area_chart",
        "pie_chart",
        "table",
        "list",
        "text",
        "map",
        "agent_feed",
    ];
    let sources = [
        "static",
        "core_endpoint",
        "monitor",
        "workflow",
        "composio",
        "http",
        "agent",
    ];
    let endpoints = CORE_ENDPOINT_NAMES;
    proof {
        assert(Seq::new(kinds@.len(), |i: int| kinds@[i]@) =~= kind_names());
        assert(Seq::new(sources@.len(), |i: int| sources@[i]@) =~= source_names());
        assert(Seq::new(endpoints@.len(), |i: int| endpoints@[i]@) =~= endpoint_names());
    }
    let mut entries: Vec<(String, Json)> = Vec::new();
    add_member(&mut entries, "widget_kinds", array_of(&kinds));
    add_member(&mut entries, "source_types", array_of(&sources));
    add_member(&mut entries, "core_endpoints", array_of(&endpoints));
    assert(members(entries@) =~= catalog_tree()->Object_0);
    accept(ReplyBody::Document(Json::Object(entries)))
}

// ---- devices -------------------------------------------------------------

/// The request to ensure that a device has a dashboard.
#[derive(Debug)]
pub struct DeviceEnsureReq {
    pub device_id: String,
    /// The device's name; its id when it is absent.
    pub device_name: Option<String>,
}

/// The request to render a device's dashboard.
#[derive(Debug)]
pub struct DeviceRenderReq {
    pub device_id: String,
    pub device_name: String,
    pub device_type: String,
    pub prefs: Json,
    /// The revision that the device already holds.
    pub known_rev: Option<String>,
}

/// The request to change a device's settings.
#[derive(Debug)]
pub struct DeviceSetReq {
    pub device_id: String,
    pub device_name: String,
    pub refresh_rate: Option<u32>,
    /// The widgets to show: nothing inside when the request held no array, and for each item
    /// a widget or why it could not be read.
    pub widgets: Option<Option<Vec<Result<Widget, String>>>>,
}

/// The display manifest of a device.
pub open spec fn manifest_tree(rev: Seq<char>, refresh_rate: u32, screen: JsonView) -> JsonView {
    JsonView::Object(
        map![
            "rev"@ => JsonView::String(rev),
            "refresh_rate"@ => whole_tree(refresh_rate as u64),
            "screen"@ => screen,
        ],
    )
}

/// The revision of an image.
pub open spec fn rev_of(image: RenderedImage) -> Seq<char> {
    hex_of(fnv_from(FNV_OFFSET, rev_input(image)) as nat, 16)
}

/// What asking for the manifest of a device's rendered image answers.
pub open spec fn manifest_answer(rendered: Result<(RenderedImage, DeviceDashboard), String>) -> ReplyView {
    match rendered {
        Ok((image, binding)) => accepted(
            ReplyBodyView::Document(
                manifest_tree(rev_of(image), binding.refresh_rate, screen_tree(image.profile)),
            ),
        ),
        Err(e) => refused(500, e@),
    }
}

/// Answers with the manifest of a device's rendered image, or with why there is none.
pub fn device_manifest(rendered: &Result<(RenderedImage, DeviceDashboard), String>) -> (r: Reply)
    ensures
        r@ == manifest_answer(*rendered),
{
    let (image, binding) = match rendered {
        Ok((image, binding)) => (image, binding),
        Err(e) => return refuse(500, e.as_str()),
    };
    let mut entries: Vec<(String, Json)> = Vec::new();
    add_member(&mut entries, "rev", Json::String(image.rev()));
    add_member(
        &mut entries,
        "refresh_rate",
        Json::Number(Number::PosInt(binding.refresh_rate as u64)),
    );
    add_member(&mut entries, "screen", screen_json(&image.profile));
    assert(members(entries@) =~= manifest_tree(
        rev_of(*image),
        binding.refresh_rate,
        screen_tree(image.profile),
    )->Object_0);
    accept(ReplyBody::Document(Json::Object(entries)))
}

/// What a request for a device's image answers.
#[derive(Debug)]
pub enum ImageReply {
    /// The device already holds this image.
    NotModified,
    /// The image, its type and its revision as an entity tag.
    Image { content_type: &'static str, etag: String, bytes: Vec<u8> },
    /// There is no image, and why.
    Refused(Reply),
}

/// Whether the device already holds the image: its revision is the one that it knows.
pub open spec fn already_held(image: RenderedImage, known_rev: Option<Seq<char>>) -> bool {
    known_rev == Some(rev_of(image))
}

/// Whether a reply to a request for a device's image is the one that is owed: nothing new when
/// the device already holds the image, and else the image, or why there is none.
pub open spec fn image_answer(
    r: ImageReply,
    rendered: Result<RenderedImage, String>,
    known_rev: Option<Seq<char>>,
) -> bool {
    match rendered {
        Ok(image) => if already_held(image, known_rev) {
            r is NotModified
        } else {
            r matches ImageReply::Image { content_type, etag, bytes } && content_type
                == image.content_type && etag@ == "\""@ + rev_of(image) + "\""@ && bytes
                == image.bytes
        },
        Err(e) => r matches ImageReply::Refused(reply) && reply@ == refused(500, e@),
    }
}

/// Answers with an image, with nothing new when the device already holds it, or with why there
/// is none.
pub fn device_image(rendered: Result<RenderedImage, String>, known_rev: &Option<String>) -> (r:
    ImageReply)
    ensures
        image_answer(r, rendered, opt_text(*known_rev)),
{
    let image = match rendered {
        Ok(image) => image,
        Err(e) => return ImageReply::Refused(refuse(500, e.as_str())),
    };
    let rev = image.rev();
    let held = match known_rev {
        Some(known) => same_text(known.as_str(), rev.as_str()),
        None => false,
    };
    if held {
        return ImageReply::NotModified;
    }
    let mut etag = "\"".to_owned();
    etag.append(rev.as_str());
    etag.append("\"");
    ImageReply::Image { content_type: image.content_type, etag, bytes: image.bytes }
}

/// Whether a reply tells what a device with this binding shows, or the error that came
/// instead.
pub open spec fn tells_config(
    reply: ReplyView,
    binding: Result<DeviceView, Seq<char>>,
    s: StoreView,
    device_type: Seq<char>,
    prefs: JsonView,
) -> bool {
    reply == match binding {
        Ok(dd) => accepted(ReplyBodyView::Device(shown_on(s, dd, device_type, prefs))),
        Err(e) => refused(500, e),
    }
}

/// Answers with what a device shows, with its dashboard ensured first.
pub fn device_config(store: &mut DashboardStore, req: &DeviceRenderReq) -> (r: Reply)
    requires
        old(store)@.wf(),
    ensures
        exists|id: Seq<char>, t: Seq<char>|
            {
                let (binding, after) = #[trigger] ensured(
                    old(store)@,
                    req.device_id@,
                    req.device_name@,
                    id,
                    t,
                );
                &&& is_generated(id, "dash_"@)
                &&& is_stamp(t)
                &&& tells_config(r@, binding, after, req.device_type@, req.prefs@)
                &&& final(store)@ == after
            },
        final(store)@.wf(),
{
    match device_config_json(
        store,
        req.device_id.as_str(),
        req.device_name.as_str(),
        req.device_type.as_str(),
        &req.prefs,
    ) {
        Ok(config) => accept(ReplyBody::Device(config)),
        Err(e) => refuse(500, e.as_str()),
    }
}

/// The name of a device: its id when the request gives none.
pub open spec fn name_or_id(name: Option<Seq<char>>, device_id: Seq<char>) -> Seq<char> {
    match name {
        Some(n) => n,
        None => device_id,
    }
}

/// What ensuring a device's dashboard answers.
pub open spec fn ensure_answer(binding: Result<DeviceView, Seq<char>>) -> ReplyView {
    match binding {
        Ok(dd) => accepted(
            ReplyBodyView::Document(
                JsonView::Object(map!["dashboard_id"@ => JsonView::String(dd.dashboard_id)]),
            ),
        ),
        Err(e) => refused(500, e),
    }
}

/// Answers with the id of a device's dashboard.
pub fn ensure_reply(binding: Result<DeviceDashboard, String>) -> (r: Reply)
    ensures
        r@ == ensure_answer(binding_of(binding)),
{
    match binding {
        Ok(dd) => {
            let ghost id = dd.dashboard_id@;
            let mut entries: Vec<(String, Json)> = Vec::new();
            add_member(&mut entries, "dashboard_id", Json::String(dd.dashboard_id));
            assert(members(entries@) =~= map!["dashboard_id"@ => JsonView::String(id)]);
            accept(ReplyBody::Document(Json::Object(entries)))
        },
        Err(e) => refuse(500, e.as_str()),
    }
}

/// Ensures that a device has a dashboard and answers with the dashboard's id.
pub fn device_ensure(store: &mut DashboardStore, req: &DeviceEnsureReq) -> (r: Reply)
    requires
        old(store)@.wf(),
    ensures
        exists|id: Seq<char>, t: Seq<char>|
            {
                let (binding, after) = #[trigger] ensured(
                    old(store)@,
                    req.device_id@,
                    name_or_id(opt_text(req.device_name), req.device_id@),
                    id,
                    t,
                );
                &&& is_generated(id, "dash_"@)
                &&& is_stamp(t)
                &&& r@ == ensure_answer(binding)
                &&& final(store)@ == after
            },
        final(store)@.wf(),
{
    let name = match &req.device_name {
        Some(n) => n.as_str(),
        None => req.device_id.as_str(),
    };
    assert(name@ == name_or_id(opt_text(req.device_name), req.device_id@));
    let outcome = ensure_device_dashboard(store, req.device_id.as_str(), name);
    ensure_reply(outcome)
}

/// What a change of a device's settings answers. A bad batch is the client's fault.
pub open spec fn settings_answer(r: Result<(Seq<char>, u32), Seq<char>>) -> ReplyView {
    match r {
        Ok(p) => accepted(
            ReplyBodyView::Document(
                JsonView::Object(
                    map![
                        "ok"@ => JsonView::Bool(true),
                        "dashboard_id"@ => JsonView::String(p.0),
                        "refresh_rate"@ => whole_tree(p.1 as u64),
                    ],
                ),
            ),
        ),
        Err(e) => refused(400, e),
    }
}

/// Answers with the outcome of a change of a device's settings.
pub fn settings_reply(r: Result<(String, u32), String>) -> (reply: Reply)
    ensures
        reply@ == settings_answer(settings_of(r)),
{
    match r {
        Ok((dashboard_id, refresh_rate)) => {
            let ghost id = dashboard_id@;
            let mut entries: Vec<(String, Json)> = Vec::new();
            add_member(&mut entries, "ok", Json::Bool(true));
            add_member(&mut entries, "dashboard_id", Json::String(dashboard_id));
            add_member(
                &mut entries,
                "refresh_rate",
                Json::Number(Number::PosInt(refresh_rate as u64)),
            );
            assert(members(entries@) =~= map![
                "ok"@ => JsonView::Bool(true),
                "dashboard_id"@ => JsonView::String(id),
                "refresh_rate"@ => whole_tree(refresh_rate as u64),
            ]);
            accept(ReplyBody::Document(Json::Object(entries)))
        },
        Err(e) => refuse(400, e.as_str()),
    }
}

/// Changes a device's settings.
pub fn set_device_config(store: &mut DashboardStore, req: &DeviceSetReq) -> (r: Reply)
    requires
        old(store)@.wf(),
    ensures
        exists|
            id: Seq<char>,
            made_at: Seq<char>,
            rated_at: Seq<char>,
            fresh: Seq<Seq<char>>,
            times: Seq<Seq<char>>,
        |
            {
                let (outcome, after) = #[trigger] configured(
                    old(store)@,
                    req.device_id@,
                    req.device_name@,
                    req.refresh_rate,
                    request_items(req.widgets),
                    id,
                    made_at,
                    rated_at,
                    fresh,
                    times,
                );
                &&& is_generated(id, "dash_"@)
                &&& is_stamp(made_at)
                &&& is_stamp(rated_at)
                &&& batch_marks(items_of(request_items(req.widgets)), fresh, times)
                &&& r@ == settings_answer(outcome)
                &&& final(store)@ == after
            },
        final(store)@.wf(),
{
    let outcome = crate::device::set_device_config(
        store,
        req.device_id.as_str(),
        req.device_name.as_str(),
        req.refresh_rate,
        &req.widgets,
    );
    settings_reply(outcome)
}

/// A binding as the list of bindings shows it.
pub open spec fn binding_tree(dd: DeviceView) -> JsonView {
    JsonView::Object(
        map![
            "device_id"@ => JsonView::String(dd.device_id),
            "dashboard_id"@ => JsonView::String(dd.dashboard_id),
        ],
    )
}

/// The list of bindings.
pub open spec fn bindings_tree(devices: Seq<DeviceView>) -> JsonView {
    JsonView::Object(
        map![
            "bindings"@ => JsonView::Array(Seq::new(devices.len(), |i: int| binding_tree(devices[i]))),
        ],
    )
}

/// What listing the bindings of devices answers.
pub open spec fn bindings_listed(s: StoreView) -> ReplyView {
    accepted(ReplyBodyView::Document(bindings_tree(s.devices)))
}

/// Answers with every device's binding.
pub fn device_bindings(store: &DashboardStore) -> (r: Reply)
    ensures
        r@ == bindings_listed(store@),
{
    let list = store.list_device_dashboards();
    let ghost devices = device_views(list@);
    let ghost goal = Seq::new(devices.len(), |i: int| binding_tree(devices[i]));
    let mut items: Vec<Json> = Vec::new();
    assert(trees(items@) =~= goal.take(0));
    for i in 0..list.len()
        invariant
            devices == device_views(list@),
            goal == Seq::new(devices.len(), |i: int| binding_tree(devices[i])),
            trees(items@) == goal.take(i as int),
    {
        let ghost before = items@;
        let mut entries: Vec<(String, Json)> = Vec::new();
        add_member(&mut entries, "device_id", Json::String(list[i].device_id.clone()));
        add_member(&mut entries, "dashboard_id", Json::String(list[i].dashboard_id.clone()));
        assert(members(entries@) =~= binding_tree(devices[i as int])->Object_0);
        items.push(Json::Object(entries));
        proof {
            lemma_trees_push(before, items@.last());
            assert(items@ =~= before.push(items@.last()));
            assert(trees(items@) =~= goal.take(i + 1));
        }
    }
    assert(goal.take(goal.len() as int) =~= goal);
    let mut outer: Vec<(String, Json)> = Vec::new();
    add_member(&mut outer, "bindings", Json::Array(items));
    assert(members(outer@) =~= bindings_tree(devices)->Object_0);
    accept(ReplyBody::Document(Json::Object(outer)))
}

/// What dropping a device's binding answers, and the store after it.
pub open spec fn binding_deleted(s: StoreView, device_id: Seq<char>) -> (ReplyView, StoreView) {
    (
        accepted(ReplyBodyView::Done),
        StoreView { devices: without(s.devices, device_id), ..s },
    )
}

/// Drops a device's binding. A device without one is no error.
pub fn delete_device_binding(store: &mut DashboardStore, device_id: &str) -> (r: Reply)
    requires
        old(store)@.wf(),
    ensures
        (r@, final(store)@) == binding_deleted(old(store)@, device_id@),
        final(store)@.wf(),
{
    let _ = store.delete_device_dashboard(device_id);
    accept(ReplyBody::Done)
}

// ---- laws ----------------------------------------------------------------

/// A request to create or to change a dashboard or a widget that is refused changes nothing.
pub proof fn law_refused_requests_change_nothing(
    s: StoreView,
    id: Seq<char>,
    wid: Seq<char>,
    name: Option<Seq<char>>,
    view_mode: Option<Seq<char>>,
    body: WidgetBodyView,
    grid: Option<GridLayout>,
    canvas: Option<CanvasLayout>,
    fresh: Seq<char>,
    now: Seq<char>,
)
    ensures
        dashboard_created(s, id, fresh, now).0.status != 200 ==> dashboard_created(
            s,
            id,
            fresh,
            now,
        ).1 == s,
        dashboard_changed(s, id, name, view_mode, now).0.status != 200 ==> dashboard_changed(
            s,
            id,
            name,
            view_mode,
            now,
        ).1 == s,
        widget_created(s, id, body, fresh, now).0.status != 200 ==> widget_created(
            s,
            id,
            body,
            fresh,
            now,
        ).1 == s,
        widget_changed(s, id, wid, body, now).0.status != 200 ==> widget_changed(
            s,
            id,
            wid,
            body,
            now,
        ).1 == s,
        widget_moved(s, id, wid, grid, canvas, now).0.status != 200 ==> widget_moved(
            s,
            id,
            wid,
            grid,
            canvas,
            now,
        ).1 == s,
{
}

/// A widget is reached through its own dashboard alone: under any other a request to change,
/// to move or to remove it finds nothing and changes nothing.
pub proof fn law_wrong_dashboard_reaches_no_widget(
    s: StoreView,
    id: Seq<char>,
    wid: Seq<char>,
    body: WidgetBodyView,
    grid: Option<GridLayout>,
    canvas: Option<CanvasLayout>,
    now: Seq<char>,
)
    requires
        found(s.widgets, wid) matches Some(row) ==> row.dashboard_id != id,
    ensures
        widget_changed(s, id, wid, body, now) == (refused(404, "not found"@), s),
        widget_moved(s, id, wid, grid, canvas, now) == (refused(404, "not found"@), s),
        widget_deleted(s, id, wid) == (refused(404, "not found"@), s),
{
}

/// Renaming a dashboard and switching its view do not disturb each other, nor the widgets:
/// what a request leaves out stays.
pub proof fn law_absent_fields_of_a_dashboard_stay(
    s: StoreView,
    id: Seq<char>,
    name: Option<Seq<char>>,
    view_mode: Option<Seq<char>>,
    now: Seq<char>,
)
    requires
        dashboard_changed(s, id, name, view_mode, now).0.status == 200,
    ensures
        ({
            let (r, after) = dashboard_changed(s, id, name, view_mode, now);
            &&& s.dashboard(id) matches Ok(Some(d))
            &&& r.body matches ReplyBodyView::Dashboard(next)
            &&& name is None ==> next.name == d.name
            &&& view_mode is None ==> next.view_mode == d.view_mode
            &&& next.id == d.id && next.created_at == d.created_at
            &&& after.widgets == s.widgets
        }),
{
}

/// A dashboard that was created is what is read under its id, with its trimmed name and no
/// more widgets than it had.
pub proof fn law_created_dashboard_is_read(
    s: StoreView,
    name: Seq<char>,
    id: Seq<char>,
    now: Seq<char>,
)
    requires
        !blank(name),
    ensures
        dashboard_read(dashboard_created(s, name, id, now).1, id) matches ReplyView {
            status: 200,
            body: ReplyBodyView::Opened(d, list),
        } && d.id == id && d.name == trimmed(name) && list == readable_on(by_creation(s.widgets), id),
{
    let d = DashboardView {
        id,
        name: trimmed(name),
        created_at: now,
        updated_at: now,
        view_mode: None,
    };
    law_written_dashboard_is_read(s, d, seq!['x'] + id);
    assert((seq!['x'] + id).len() != id.len());
}

/// A widget that was created is what is read of it on its dashboard; its source is one that
/// the resolver will call, and nothing is cached yet.
pub proof fn law_created_widget_is_read(
    s: StoreView,
    dashboard_id: Seq<char>,
    body: WidgetBodyView,
    fresh: Seq<char>,
    now: Seq<char>,
)
    requires
        widget_created(s, dashboard_id, body, fresh, now).0.status == 200,
    ensures
        ({
            let (r, after) = widget_created(s, dashboard_id, body, fresh, now);
            &&& r.body matches ReplyBodyView::Widget(w)
            &&& after.widget_on(dashboard_id, w.id) == Ok::<Option<WidgetView>, Seq<char>>(Some(w))
            &&& source_fault(w.source) is None
            &&& w.last_value is None && w.last_error is None && w.last_refresh_at is None
        }),
{
    let w = new_widget(body, body.kind.unwrap(), dashboard_id, fresh);
    law_written_widget_is_read(s, w, now, seq!['x'] + w.id);
    assert((seq!['x'] + w.id).len() != w.id.len());
}

proof fn lemma_write_keeps_sources(s: StoreView, w: WidgetView, now: Seq<char>)
    requires
        sources_hold(s),
        source_fault(w.source) is None,
    ensures
        sources_hold(s.with_widget(w, now)),
{
    let row = s.widget_row(w, now);
    assert forall|id: Seq<char>| source_holds(s.with_widget(w, now), id) by {
        assert(source_holds(s, id));
        if id == w.id {
            law_put_is_found(s.widgets, row);
        } else {
            law_put_leaves_others(s.widgets, row, id);
        }
    }
}

/// A bad source never reaches the store: as long as no stored widget has a source that may
/// not be written, no request to create, change, move or remove a widget makes one.
pub proof fn law_bad_sources_never_reach_the_store(
    s: StoreView,
    dashboard_id: Seq<char>,
    id: Seq<char>,
    body: WidgetBodyView,
    grid: Option<GridLayout>,
    canvas: Option<CanvasLayout>,
    fresh: Seq<char>,
    now: Seq<char>,
)
    requires
        s.wf(),
        sources_hold(s),
    ensures
        sources_hold(widget_created(s, dashboard_id, body, fresh, now).1),
        sources_hold(widget_changed(s, dashboard_id, id, body, now).1),
        sources_hold(widget_moved(s, dashboard_id, id, grid, canvas, now).1),
        sources_hold(widget_deleted(s, dashboard_id, id).1),
{
    assert(source_holds(s, id));
    if widget_created(s, dashboard_id, body, fresh, now).0.status == 200 {
        lemma_write_keeps_sources(s, new_widget(body, body.kind.unwrap(), dashboard_id, fresh), now);
    }
    if let Ok(Some(w)) = s.widget_on(dashboard_id, id) {
        if new_source_fault(body) is None {
            lemma_write_keeps_sources(s, patched(w, body), now);
        }
        lemma_write_keeps_sources(s, placed(w, grid, canvas), now);
    }
    let after = s.without_widget(id);
    assert forall|other: Seq<char>| source_holds(after, other) by {
        assert(source_holds(s, other));
        if other == id {
            law_removed_is_not_found(s.widgets, id);
        } else {
            law_removal_leaves_others(s.widgets, id, other);
        }
    }
}

/// A request to change a widget's source to one that may not be written is answered with what
/// is wrong, and changes nothing.
pub proof fn law_bad_new_source_is_refused(
    s: StoreView,
    dashboard_id: Seq<char>,
    id: Seq<char>,
    body: WidgetBodyView,
    now: Seq<char>,
)
    requires
        s.widget_on(dashboard_id, id) matches Ok(Some(_)),
        body.source matches Some(source) && source_fault(source) is Some,
    ensures
        widget_changed(s, dashboard_id, id, body, now) == (
            refused(400, source_fault(body.source.unwrap()).unwrap()),
            s,
        ),
{
}

/// A new source drops everything that was cached, and without one the cache stays; the id
/// and the dashboard of a widget never change.
pub proof fn law_new_source_drops_the_cache(w: WidgetView, body: WidgetBodyView)
    ensures
        body.source is Some ==> patched(w, body).last_value is None && patched(
            w,
            body,
        ).last_error is None && patched(w, body).last_refresh_at is None,
        body.source is None ==> patched(w, body).last_value == w.last_value && patched(
            w,
            body,
        ).last_error == w.last_error && patched(w, body).last_refresh_at == w.last_refresh_at,
        patched(w, body).id == w.id,
        patched(w, body).dashboard_id == w.dashboard_id,
{
}

/// A request that gives nothing changes nothing of a widget.
pub proof fn law_empty_patch_keeps_the_widget(w: WidgetView, id: Option<Seq<char>>)
    ensures
        patched(
            w,
            WidgetBodyView {
                id,
                kind: None,
                title: None,
                config: None,
                source: None,
                refresh_interval: None,
                layout: None,
                canvas: None,
            },
        ) == w,
{
}

} // verus!
