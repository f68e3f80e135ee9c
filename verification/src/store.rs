//! The store of dashboards, widgets and device bindings.
//!
//! Rows keep the columns that the tables on disk have: the keys, the time of creation, which
//! a later write of the same key does not touch, and the time of the last write. A row whose
//! stored text could not be read has no body.

use vstd::prelude::*;

use crate::clock::{is_stamp, now};
use crate::json::{Json, JsonView};
use crate::model::{
    CanvasLayout, Dashboard, DashboardEvent, DashboardView, DeviceDashboard, DeviceView, EventView,
    GridLayout, Widget, WidgetView,
};
use crate::sources::source_fault;
use crate::table::{
    by_creation, found, law_put_is_found, law_put_keeps_keys_unique, law_put_leaves_others,
    law_removal_keeps_keys_unique, law_removal_leaves_others, law_removed_is_not_found,
    lemma_left_was_there, lemma_place_from, models_at, place, unique, with_row, without, Keyed,
    Record, Table,
};
use crate::text::same_text;

verus! {

// ---- rows ----------------------------------------------------------------

/// A row of the table of dashboards.
#[derive(Debug)]
pub struct DashboardRow {
    pub id: String,
    /// The dashboard, unless the stored text cannot be read.
    pub body: Option<Dashboard>,
    pub created_at: String,
    pub updated_at: String,
}

/// The model of a [`DashboardRow`].
pub struct DashboardRowView {
    pub id: Seq<char>,
    pub body: Option<DashboardView>,
    pub created_at: Seq<char>,
    pub updated_at: Seq<char>,
}

/// The model of an optional dashboard.
pub open spec fn opt_dashboard(d: Option<Dashboard>) -> Option<DashboardView> {
    match d {
        Some(d) => Some(d@),
        None => None,
    }
}

impl Keyed for DashboardRowView {
    open spec fn key(self) -> Seq<char> {
        self.id
    }

    open spec fn stamp(self) -> Seq<char> {
        self.created_at
    }
}

impl Record for DashboardRow {
    type Model = DashboardRowView;

    open spec fn model(&self) -> DashboardRowView {
        DashboardRowView {
            id: self.id@,
            body: opt_dashboard(self.body),
            created_at: self.created_at@,
            updated_at: self.updated_at@,
        }
    }

    fn key(&self) -> (r: &str) {
        self.id.as_str()
    }

    fn stamp(&self) -> (r: &str) {
        self.created_at.as_str()
    }
}

/// A row of the table of widgets.
#[derive(Debug)]
pub struct WidgetRow {
    pub id: String,
    pub dashboard_id: String,
    /// The widget, unless the stored text cannot be read.
    pub body: Option<Widget>,
    pub created_at: String,
    pub updated_at: String,
}

/// The model of a [`WidgetRow`].
pub struct WidgetRowView {
    pub id: Seq<char>,
    pub dashboard_id: Seq<char>,
    pub body: Option<WidgetView>,
    pub created_at: Seq<char>,
    pub updated_at: Seq<char>,
}

/// The model of an optional widget.
pub open spec fn opt_widget(w: Option<Widget>) -> Option<WidgetView> {
    match w {
        Some(w) => Some(w@),
        None => None,
    }
}

impl Keyed for WidgetRowView {
    open spec fn key(self) -> Seq<char> {
        self.id
    }

    open spec fn stamp(self) -> Seq<char> {
        self.created_at
    }
}

impl Record for WidgetRow {
    type Model = WidgetRowView;

    open spec fn model(&self) -> WidgetRowView {
        WidgetRowView {
            id: self.id@,
            dashboard_id: self.dashboard_id@,
            body: opt_widget(self.body),
            created_at: self.created_at@,
            updated_at: self.updated_at@,
        }
    }

    fn key(&self) -> (r: &str) {
        self.id.as_str()
    }

    fn stamp(&self) -> (r: &str) {
        self.created_at.as_str()
    }
}

impl Keyed for DeviceView {
    open spec fn key(self) -> Seq<char> {
        self.device_id
    }

    open spec fn stamp(self) -> Seq<char> {
        self.created_at
    }
}

impl Record for DeviceDashboard {
    type Model = DeviceView;

    open spec fn model(&self) -> DeviceView {
        self@
    }

    fn key(&self) -> (r: &str) {
        self.device_id.as_str()
    }

    fn stamp(&self) -> (r: &str) {
        self.created_at.as_str()
    }
}

// ---- the model of the store ----------------------------------------------

/// The model of a [`DashboardStore`].
pub struct StoreView {
    pub dashboards: Seq<DashboardRowView>,
    pub widgets: Seq<WidgetRowView>,
    pub devices: Seq<DeviceView>,
    /// The events that wait to be sent.
    pub events: Seq<EventView>,
    /// The live viewers.
    pub viewers: nat,
    /// The live subscribers, viewers or not.
    pub receivers: nat,
}

/// The readable dashboards of successive rows.
pub open spec fn readable_dashboards(rows: Seq<DashboardRowView>) -> Seq<DashboardView>
    decreases rows.len(),
{
    if rows.len() == 0 {
        Seq::empty()
    } else {
        match rows.last().body {
            Some(d) => readable_dashboards(rows.drop_last()).push(d),
            None => readable_dashboards(rows.drop_last()),
        }
    }
}

/// The readable widgets of successive rows.
pub open spec fn readable_widgets(rows: Seq<WidgetRowView>) -> Seq<WidgetView>
    decreases rows.len(),
{
    if rows.len() == 0 {
        Seq::empty()
    } else {
        match rows.last().body {
            Some(w) => readable_widgets(rows.drop_last()).push(w),
            None => readable_widgets(rows.drop_last()),
        }
    }
}

/// The readable widgets of one dashboard among successive rows.
pub open spec fn readable_on(rows: Seq<WidgetRowView>, dashboard_id: Seq<char>) -> Seq<WidgetView>
    decreases rows.len(),
{
    if rows.len() == 0 {
        Seq::empty()
    } else {
        let before = readable_on(rows.drop_last(), dashboard_id);
        match rows.last().body {
            Some(w) if rows.last().dashboard_id == dashboard_id => before.push(w),
            _ => before,
        }
    }
}

/// The rows of the other dashboards.
pub open spec fn elsewhere(rows: Seq<WidgetRowView>, dashboard_id: Seq<char>) -> Seq<WidgetRowView>
    decreases rows.len(),
{
    if rows.len() == 0 {
        Seq::empty()
    } else if rows.first().dashboard_id == dashboard_id {
        elsewhere(rows.skip(1), dashboard_id)
    } else {
        seq![rows.first()] + elsewhere(rows.skip(1), dashboard_id)
    }
}

/// Whether the source of the widget with an id, if it can be read, is one that may be written.
pub open spec fn source_holds(s: StoreView, id: Seq<char>) -> bool {
    s.widget(id) matches Ok(Some(w)) ==> source_fault(w.source) is None
}

/// Whether every stored widget has a source that may be written.
pub open spec fn sources_hold(s: StoreView) -> bool {
    forall|id: Seq<char>| #[trigger] source_holds(s, id)
}

/// What went wrong with the row of a dashboard whose text cannot be read.
pub open spec fn unreadable_dashboard() -> Seq<char> {
    "deserializing dashboard"@
}

/// What went wrong with the row of a widget whose text cannot be read.
pub open spec fn unreadable_widget() -> Seq<char> {
    "deserializing widget"@
}

impl StoreView {
    /// A store that holds nothing and that nobody listens to.
    pub open spec fn empty() -> StoreView {
        StoreView {
            dashboards: Seq::empty(),
            widgets: Seq::empty(),
            devices: Seq::empty(),
            events: Seq::empty(),
            viewers: 0,
            receivers: 0,
        }
    }

    /// The store after an event was sent: it reaches the subscribers, if there are any.
    pub open spec fn sending(self, event: EventView) -> StoreView {
        if self.receivers > 0 {
            StoreView { events: self.events.push(event), ..self }
        } else {
            self
        }
    }

    /// The dashboard with an id, or why it cannot be read.
    pub open spec fn dashboard(self, id: Seq<char>) -> Result<Option<DashboardView>, Seq<char>> {
        match found(self.dashboards, id) {
            Some(row) => match row.body {
                Some(d) => Ok(Some(d)),
                None => Err(unreadable_dashboard()),
            },
            None => Ok(None),
        }
    }

    /// The widget with an id, or why it cannot be read.
    pub open spec fn widget(self, id: Seq<char>) -> Result<Option<WidgetView>, Seq<char>> {
        match found(self.widgets, id) {
            Some(row) => match row.body {
                Some(w) => Ok(Some(w)),
                None => Err(unreadable_widget()),
            },
            None => Ok(None),
        }
    }

    /// The widget with an id, if it belongs to a dashboard.
    pub open spec fn widget_on(self, dashboard_id: Seq<char>, id: Seq<char>) -> Result<
        Option<WidgetView>,
        Seq<char>,
    > {
        match found(self.widgets, id) {
            Some(row) if row.dashboard_id == dashboard_id => self.widget(id),
            _ => Ok(None),
        }
    }

    /// The store with a dashboard written, and the change told.
    pub open spec fn with_dashboard(self, d: DashboardView) -> StoreView {
        let created_at = match found(self.dashboards, d.id) {
            Some(row) => row.created_at,
            None => d.created_at,
        };
        let row = DashboardRowView {
            id: d.id,
            body: Some(d),
            created_at,
            updated_at: d.updated_at,
        };
        StoreView { dashboards: with_row(self.dashboards, row), ..self }.sending(
            EventView::DashboardUpdated { dashboard_id: d.id },
        )
    }

    /// The store without a dashboard and its widgets, and the change told when there was
    /// one.
    pub open spec fn without_dashboard(self, id: Seq<char>) -> StoreView {
        let next = StoreView {
            dashboards: without(self.dashboards, id),
            widgets: elsewhere(self.widgets, id),
            ..self
        };
        if found(self.dashboards, id) is Some {
            next.sending(EventView::DashboardUpdated { dashboard_id: id })
        } else {
            next
        }
    }

    /// The row of a widget that is written now.
    pub open spec fn widget_row(self, w: WidgetView, now: Seq<char>) -> WidgetRowView {
        WidgetRowView {
            id: w.id,
            dashboard_id: w.dashboard_id,
            body: Some(w),
            created_at: match found(self.widgets, w.id) {
                Some(row) => row.created_at,
                None => now,
            },
            updated_at: now,
        }
    }

    /// The dashboard, other than the widget's own, that a widget's id already belongs to.
    pub open spec fn owner(self, w: WidgetView) -> Option<Seq<char>> {
        match found(self.widgets, w.id) {
            Some(row) if row.dashboard_id != w.dashboard_id => Some(row.dashboard_id),
            _ => None,
        }
    }

    /// The store with a widget written, and the change told.
    pub open spec fn with_widget(self, w: WidgetView, now: Seq<char>) -> StoreView {
        StoreView { widgets: with_row(self.widgets, self.widget_row(w, now)), ..self }.sending(
            EventView::WidgetUpdated { dashboard_id: w.dashboard_id, widget: w },
        )
    }

    /// The store without a widget, and the change told when there was one.
    pub open spec fn without_widget(self, id: Seq<char>) -> StoreView {
        match found(self.widgets, id) {
            Some(row) => StoreView { widgets: without(self.widgets, id), ..self }.sending(
                EventView::WidgetDeleted { dashboard_id: row.dashboard_id, widget_id: id },
            ),
            None => self,
        }
    }

    /// The store with a device's binding written. The time of its creation stays.
    pub open spec fn with_device(self, dd: DeviceView) -> StoreView {
        let created_at = match found(self.devices, dd.device_id) {
            Some(old_row) => old_row.created_at,
            None => dd.created_at,
        };
        StoreView { devices: with_row(self.devices, DeviceView { created_at, ..dd }), ..self }
    }

    /// The store with one more subscriber.
    pub open spec fn subscribed(self) -> StoreView {
        StoreView { receivers: self.receivers + 1, ..self }
    }

    /// The store with one subscriber less.
    pub open spec fn unsubscribed(self) -> StoreView {
        StoreView { receivers: (self.receivers - 1) as nat, ..self }
    }

    /// The store with one more viewer.
    pub open spec fn watched(self) -> StoreView {
        StoreView { viewers: self.viewers + 1, ..self }
    }

    /// The store with one viewer less.
    pub open spec fn unwatched(self) -> StoreView {
        StoreView { viewers: (self.viewers - 1) as nat, ..self }
    }

    /// The tables have unique keys, and every body agrees with the columns of its row.
    pub open spec fn wf(self) -> bool {
        &&& unique(self.dashboards)
        &&& unique(self.widgets)
        &&& unique(self.devices)
        &&& forall|i: int|
            0 <= i < self.dashboards.len() ==> ((#[trigger] self.dashboards[i]).body matches Some(
                d,
            ) ==> d.id == self.dashboards[i].id)
        &&& forall|i: int|
            0 <= i < self.widgets.len() ==> ((#[trigger] self.widgets[i]).body matches Some(w)
                ==> w.id == self.widgets[i].id && w.dashboard_id == self.widgets[i].dashboard_id)
    }
}

// ---- the store -----------------------------------------------------------

/// Proof that one live viewer is counted. It is handed back when the viewer leaves.
#[derive(Debug)]
pub struct ViewerGuard {
    _counted: (),
}

/// Proof that one live subscriber is counted. It is handed back when the subscriber leaves.
#[derive(Debug)]
pub struct Subscription {
    _counted: (),
}

/// The tables of dashboards, widgets and device bindings, with the events that wait to be
/// sent and the counts of who is listening.
#[derive(Debug)]
pub struct DashboardStore {
    pub dashboards: Table<DashboardRow>,
    pub widgets: Table<WidgetRow>,
    pub devices: Table<DeviceDashboard>,
    pub events: Vec<DashboardEvent>,
    pub viewers: usize,
    pub receivers: usize,
}

/// The models of events.
pub open spec fn event_views(events: Seq<DashboardEvent>) -> Seq<EventView> {
    Seq::new(events.len(), |i: int| events[i]@)
}

/// The models of widgets.
pub open spec fn widget_views(widgets: Seq<Widget>) -> Seq<WidgetView> {
    Seq::new(widgets.len(), |i: int| widgets[i]@)
}

/// The models of dashboards.
pub open spec fn dashboard_views(dashboards: Seq<Dashboard>) -> Seq<DashboardView> {
    Seq::new(dashboards.len(), |i: int| dashboards[i]@)
}

/// The models of device bindings.
pub open spec fn device_views(devices: Seq<DeviceDashboard>) -> Seq<DeviceView> {
    Seq::new(devices.len(), |i: int| devices[i]@)
}

impl View for DashboardStore {
    type V = StoreView;

    open spec fn view(&self) -> StoreView {
        StoreView {
            dashboards: self.dashboards@,
            widgets: self.widgets@,
            devices: self.devices@,
            events: event_views(self.events@),
            viewers: self.viewers as nat,
            receivers: self.receivers as nat,
        }
    }
}

/// The outcome of looking up something that may be unreadable.
pub open spec fn lookup_of<T: View>(r: Result<Option<T>, String>) -> Result<Option<T::V>, Seq<char>> {
    match r {
        Ok(Some(x)) => Ok(Some(x@)),
        Ok(None) => Ok(None),
        Err(e) => Err(e@),
    }
}

impl DashboardStore {
    /// An empty store that nobody listens to.
    pub fn new() -> (r: DashboardStore)
        ensures
            r@ == StoreView::empty(),
            r@.wf(),
    {
        let events: Vec<DashboardEvent> = Vec::new();
        assert(event_views(events@) =~= Seq::<EventView>::empty());
        DashboardStore {
            dashboards: Table::new(),
            widgets: Table::new(),
            devices: Table::new(),
            events,
            viewers: 0,
            receivers: 0,
        }
    }

    /// Whether the tables have unique keys, and every body agrees with the columns of its row.
    pub fn is_wf(&self) -> (r: bool)
        ensures
            r == self@.wf(),
    {
        for i in 0..self.dashboards.rows.len()
            invariant
                forall|j: int|
                    0 <= j < i ==> ((#[trigger] self@.dashboards[j]).body matches Some(d) ==> d.id
                        == self@.dashboards[j].id),
        {
            let row = &self.dashboards.rows[i];
            assert(self@.dashboards[i as int] == row.model());
            if let Some(d) = &row.body {
                if !same_text(d.id.as_str(), row.id.as_str()) {
                    return false;
                }
            }
        }
        for i in 0..self.widgets.rows.len()
            invariant
                forall|j: int|
                    0 <= j < i ==> ((#[trigger] self@.widgets[j]).body matches Some(w) ==> w.id
                        == self@.widgets[j].id && w.dashboard_id == self@.widgets[j].dashboard_id),
        {
            let row = &self.widgets.rows[i];
            assert(self@.widgets[i as int] == row.model());
            if let Some(w) = &row.body {
                if !same_text(w.id.as_str(), row.id.as_str()) || !same_text(
                    w.dashboard_id.as_str(),
                    row.dashboard_id.as_str(),
                ) {
                    return false;
                }
            }
        }
        self.dashboards.has_unique_keys() && self.widgets.has_unique_keys()
            && self.devices.has_unique_keys()
    }

    // ---- device bindings -------------------------------------------------

    /// The dashboard binding of a device.
    pub fn get_device_dashboard(&self, device_id: &str) -> (r: Option<DeviceDashboard>)
        ensures
            match r {
                Some(dd) => found(self@.devices, device_id@) == Some(dd@),
                None => found(self@.devices, device_id@) is None,
            },
    {
        match self.devices.get(device_id) {
            Some(dd) => Some(dd.clone()),
            None => None,
        }
    }

    /// Writes the dashboard binding of a device. A binding that was there keeps the time of
    /// its creation.
    pub fn upsert_device_dashboard(&mut self, dd: &DeviceDashboard)
        ensures
            final(self)@ == old(self)@.with_device(dd@),
            old(self)@.wf() ==> final(self)@.wf(),
    {
        let ghost before = self@;
        let created_at = match self.devices.get(dd.device_id.as_str()) {
            Some(row) => row.created_at.clone(),
            None => dd.created_at.clone(),
        };
        let row = DeviceDashboard {
            device_id: dd.device_id.clone(),
            dashboard_id: dd.dashboard_id.clone(),
            refresh_rate: dd.refresh_rate,
            created_at,
            updated_at: dd.updated_at.clone(),
        };
        let ghost model = row.model();
        self.devices.put(row);
        proof {
            if before.wf() {
                law_put_keeps_keys_unique(before.devices, model);
            }
        }
    }

    /// Every device's binding.
    pub fn list_device_dashboards(&self) -> (r: Vec<DeviceDashboard>)
        ensures
            device_views(r@) == self@.devices,
    {
        let mut out: Vec<DeviceDashboard> = Vec::new();
        for i in 0..self.devices.rows.len()
            invariant
                device_views(out@) == self@.devices.take(i as int),
        {
            let ghost before = device_views(out@);
            out.push(self.devices.rows[i].clone());
            assert(device_views(out@) =~= before.push(self@.devices[i as int]));
            assert(device_views(out@) =~= self@.devices.take(i + 1));
        }
        assert(self@.devices.take(self@.devices.len() as int) =~= self@.devices);
        out
    }

    /// Removes a device's binding, and says whether there was one.
    pub fn delete_device_dashboard(&mut self, device_id: &str) -> (r: bool)
        ensures
            (r, final(self)@) == old(self)@.unbinding(device_id@),
            old(self)@.wf() ==> final(self)@.wf(),
    {
        proof {
            if self@.wf() {
                law_removal_keeps_keys_unique(self@.devices, device_id@);
            }
        }
        self.devices.remove(device_id)
    }

    // ---- events ----------------------------------------------------------

    /// Sends an event to the subscribers, if there are any.
    pub fn broadcast(&mut self, event: DashboardEvent)
        ensures
            final(self)@ == old(self)@.sending(event@),
    {
        if self.receivers > 0 {
            let ghost before = event_views(self.events@);
            let ghost e = event@;
            self.events.push(event);
            assert(event_views(self.events@) =~= before.push(e));
        }
    }

    /// Counts one more subscriber. A subscriber is not by itself a viewer.
    pub fn subscribe(&mut self) -> (r: Subscription)
        requires
            old(self)@.receivers < usize::MAX,
        ensures
            final(self)@ == old(self)@.subscribed(),
    {
        self.receivers = self.receivers + 1;
        Subscription { _counted: () }
    }

    /// Counts one subscriber less.
    pub fn unsubscribe(&mut self, _subscription: Subscription)
        requires
            old(self)@.receivers > 0,
        ensures
            final(self)@ == old(self)@.unsubscribed(),
    {
        self.receivers = self.receivers - 1;
    }

    /// The number of live subscribers.
    pub fn receiver_count(&self) -> (r: usize)
        ensures
            r == self@.receivers,
    {
        self.receivers
    }

    /// Counts one more live viewer.
    pub fn viewer_guard(&mut self) -> (r: ViewerGuard)
        requires
            old(self)@.viewers < usize::MAX,
        ensures
            final(self)@ == old(self)@.watched(),
    {
        self.viewers = self.viewers + 1;
        ViewerGuard { _counted: () }
    }

    /// Counts one live viewer less.
    pub fn viewer_left(&mut self, _guard: ViewerGuard)
        requires
            old(self)@.viewers > 0,
        ensures
            final(self)@ == old(self)@.unwatched(),
    {
        self.viewers = self.viewers - 1;
    }

    /// The number of live viewers.
    pub fn viewer_count(&self) -> (r: usize)
        ensures
            r == self@.viewers,
    {
        self.viewers
    }

    // ---- dashboards ------------------------------------------------------

    /// Writes a dashboard and tells of the change. A dashboard that was there keeps the time
    /// of creation by which it is listed.
    pub fn upsert_dashboard(&mut self, dashboard: &Dashboard)
        requires
            old(self)@.wf(),
        ensures
            final(self)@ == old(self)@.with_dashboard(dashboard@),
            final(self)@.wf(),
    {
        let ghost before = self@;
        let created_at = match self.dashboards.get(dashboard.id.as_str()) {
            Some(row) => row.created_at.clone(),
            None => dashboard.created_at.clone(),
        };
        let row = DashboardRow {
            id: dashboard.id.clone(),
            body: Some(dashboard.clone()),
            created_at,
            updated_at: dashboard.updated_at.clone(),
        };
        self.dashboards.put(row);
        self.broadcast(DashboardEvent::DashboardUpdated { dashboard_id: dashboard.id.clone() });
        proof {
            lemma_with_dashboard_wf(before, dashboard@);
        }
    }

    /// The dashboard with an id.
    pub fn get_dashboard(&self, id: &str) -> (r: Result<Option<Dashboard>, String>)
        ensures
            lookup_of(r) == self@.dashboard(id@),
    {
        match self.dashboards.get(id) {
            Some(row) => match &row.body {
                Some(d) => Ok(Some(d.clone())),
                None => Err("deserializing dashboard".to_owned()),
            },
            None => Ok(None),
        }
    }

    /// The readable dashboards, the oldest first.
    pub fn list_dashboards(&self) -> (r: Vec<Dashboard>)
        ensures
            dashboard_views(r@) == readable_dashboards(by_creation(self@.dashboards)),
    {
        let order = self.dashboards.creation_order();
        let ghost sorted = models_at(self@.dashboards, order@);
        let mut out: Vec<Dashboard> = Vec::new();
        assert(sorted.take(0) =~= Seq::<DashboardRowView>::empty());
        assert(dashboard_views(out@) =~= Seq::<DashboardView>::empty());
        for i in 0..order.len()
            invariant
                forall|j: int| 0 <= j < order@.len() ==> #[trigger] order@[j] < self.dashboards.rows@.len(),
                sorted == models_at(self@.dashboards, order@),
                dashboard_views(out@) == readable_dashboards(sorted.take(i as int)),
        {
            assert(sorted.take(i + 1).drop_last() =~= sorted.take(i as int));
            let row = &self.dashboards.rows[order[i]];
            assert(sorted[i as int] == row.model());
            if let Some(d) = &row.body {
                let ghost before = dashboard_views(out@);
                out.push(d.clone());
                assert(dashboard_views(out@) =~= before.push(d@));
            }
        }
        assert(sorted.take(sorted.len() as int) =~= sorted);
        out
    }

    /// Removes a dashboard and all its widgets, and says whether there was one.
    pub fn delete_dashboard(&mut self, id: &str) -> (r: bool)
        requires
            old(self)@.wf(),
        ensures
            (r, final(self)@) == old(self)@.dissolving(id@),
            final(self)@.wf(),
    {
        let ghost before = self@;
        let removed = self.dashboards.remove(id);
        let mut i: usize = 0;
        assert(before.widgets.take(0) + elsewhere(before.widgets.skip(0), id@) =~= elsewhere(
            before.widgets,
            id@,
        )) by {
            assert(before.widgets.skip(0) =~= before.widgets);
        }
        while i < self.widgets.rows.len()
            invariant
                i <= self.widgets.rows@.len(),
                self@.widgets.take(i as int) + elsewhere(self@.widgets.skip(i as int), id@)
                    == elsewhere(before.widgets, id@),
                self@ == (StoreView {
                    dashboards: without(before.dashboards, id@),
                    widgets: self@.widgets,
                    ..before
                }),
            decreases self.widgets.rows@.len() - i,
        {
            let ghost rows = self@.widgets;
            let ghost rest = rows.skip(i as int);
            assert(rest.first() == rows[i as int]);
            if same_text(self.widgets.rows[i].dashboard_id.as_str(), id) {
                self.widgets.rows.remove(i);
                assert(self@.widgets =~= rows.remove(i as int));
                assert(self@.widgets.take(i as int) =~= rows.take(i as int));
                assert(self@.widgets.skip(i as int) =~= rest.skip(1));
            } else {
                i = i + 1;
                assert(rows.skip(i as int) =~= rest.skip(1));
                assert(rows.take(i - 1) + (seq![rest.first()] + elsewhere(rest.skip(1), id@))
                    =~= rows.take(i as int) + elsewhere(rows.skip(i as int), id@));
            }
        }
        assert(self@.widgets.take(i as int) + elsewhere(self@.widgets.skip(i as int), id@)
            =~= self@.widgets);
        proof {
            lemma_without_dashboard_wf(before, id@);
        }
        if removed {
            self.broadcast(DashboardEvent::DashboardUpdated { dashboard_id: id.to_owned() });
        }
        removed
    }
}

proof fn lemma_with_dashboard_wf(s: StoreView, d: DashboardView)
    requires
        s.wf(),
    ensures
        s.with_dashboard(d).wf(),
{
    let next = s.with_dashboard(d);
    let row = DashboardRowView {
        id: d.id,
        body: Some(d),
        created_at: match found(s.dashboards, d.id) {
            Some(old_row) => old_row.created_at,
            None => d.created_at,
        },
        updated_at: d.updated_at,
    };
    law_put_keeps_keys_unique(s.dashboards, row);
    lemma_place_from(s.dashboards, d.id, 0);
    assert forall|i: int| 0 <= i < next.dashboards.len() implies ((
    #[trigger] next.dashboards[i]).body matches Some(b) ==> b.id == next.dashboards[i].id) by {
        if i < s.dashboards.len() {
            assert(next.dashboards[i] == row || next.dashboards[i] == s.dashboards[i]);
        }
    }
}

proof fn lemma_elsewhere(rows: Seq<WidgetRowView>, d: Seq<char>, i: int)
    requires
        0 <= i < elsewhere(rows, d).len(),
    ensures
        elsewhere(rows, d)[i].dashboard_id != d,
        exists|k: int| 0 <= k < rows.len() && elsewhere(rows, d)[i] == rows[k],
    decreases rows.len(),
{
    let rest = rows.skip(1);
    if rows.first().dashboard_id == d {
        lemma_elsewhere(rest, d, i);
        let k = choose|k: int| 0 <= k < rest.len() && elsewhere(rest, d)[i] == rest[k];
        assert(rest[k] == rows[k + 1]);
    } else if i == 0 {
        assert(elsewhere(rows, d)[0] == rows[0]);
    } else {
        assert(elsewhere(rows, d)[i] == elsewhere(rest, d)[i - 1]);
        lemma_elsewhere(rest, d, i - 1);
        let k = choose|k: int| 0 <= k < rest.len() && elsewhere(rest, d)[i - 1] == rest[k];
        assert(rest[k] == rows[k + 1]);
    }
}

proof fn lemma_elsewhere_unique(rows: Seq<WidgetRowView>, d: Seq<char>)
    requires
        unique(rows),
    ensures
        unique(elsewhere(rows, d)),
    decreases rows.len(),
{
    if rows.len() > 0 {
        let rest = rows.skip(1);
        assert(unique(rest)) by {
            assert forall|i: int, j: int| 0 <= i < j < rest.len() implies (
            #[trigger] rest[i]).key() != (#[trigger] rest[j]).key() by {
                assert(rows[i + 1].key() != rows[j + 1].key());
            }
        }
        lemma_elsewhere_unique(rest, d);
        let next = elsewhere(rows, d);
        if rows.first().dashboard_id != d {
            assert forall|i: int, j: int| 0 <= i < j < next.len() implies (
            #[trigger] next[i]).key() != (#[trigger] next[j]).key() by {
                assert(next[j] == elsewhere(rest, d)[j - 1]);
                if i == 0 {
                    lemma_elsewhere(rest, d, j - 1);
                    let k = choose|k: int|
                        0 <= k < rest.len() && elsewhere(rest, d)[j - 1] == rest[k];
                    assert(rest[k] == rows[k + 1]);
                    assert(rows[0].key() != rows[k + 1].key());
                } else {
                    assert(next[i] == elsewhere(rest, d)[i - 1]);
                }
            }
        }
    }
}

proof fn lemma_without_dashboard_wf(s: StoreView, id: Seq<char>)
    requires
        s.wf(),
    ensures
        s.without_dashboard(id).wf(),
{
    let next = s.without_dashboard(id);
    law_removal_keeps_keys_unique(s.dashboards, id);
    lemma_elsewhere_unique(s.widgets, id);
    assert forall|i: int| 0 <= i < next.dashboards.len() implies ((
    #[trigger] next.dashboards[i]).body matches Some(b) ==> b.id == next.dashboards[i].id) by {
        lemma_left_was_there(s.dashboards, id, i);
        let k = choose|k: int|
            0 <= k < s.dashboards.len() && next.dashboards[i] == #[trigger] s.dashboards[k];
        assert(s.dashboards[k].body matches Some(b) ==> b.id == s.dashboards[k].id);
    }
    assert forall|i: int| 0 <= i < next.widgets.len() implies ((
    #[trigger] next.widgets[i]).body matches Some(w) ==> w.id == next.widgets[i].id
        && w.dashboard_id == next.widgets[i].dashboard_id) by {
        lemma_elsewhere(s.widgets, id, i);
        let k = choose|k: int|
            0 <= k < s.widgets.len() && elsewhere(s.widgets, id)[i] == s.widgets[k];
        assert(s.widgets[k].body matches Some(w) ==> w.id == s.widgets[k].id);
    }
}

// ---- widgets -------------------------------------------------------------

/// Why a widget is not written: its id belongs to another dashboard.
pub open spec fn belongs_elsewhere(id: Seq<char>, dashboard_id: Seq<char>) -> Seq<char> {
    "widget '"@ + id + "' already belongs to dashboard '"@ + dashboard_id + "'"@
}

/// A widget with the positional fields that are given replaced.
pub open spec fn placed(
    w: WidgetView,
    grid: Option<GridLayout>,
    canvas: Option<CanvasLayout>,
) -> WidgetView {
    WidgetView {
        layout: match grid {
            Some(layout) => layout,
            None => w.layout,
        },
        canvas: match canvas {
            Some(c) => Some(c),
            None => w.canvas,
        },
        ..w
    }
}

/// The outcome of a refresh.
pub open spec fn outcome_of(r: Result<Json, String>) -> Result<JsonView, Seq<char>> {
    match r {
        Ok(v) => Ok(v@),
        Err(e) => Err(e@),
    }
}

/// A widget with the outcome of a refresh cached: a value clears the error, and an error
/// leaves the last value.
pub open spec fn refreshed(
    w: WidgetView,
    outcome: Result<JsonView, Seq<char>>,
    at: Seq<char>,
) -> WidgetView {
    match outcome {
        Ok(value) => WidgetView {
            last_value: Some(value),
            last_error: None,
            last_refresh_at: Some(at),
            ..w
        },
        Err(error) => WidgetView { last_error: Some(error), last_refresh_at: Some(at), ..w },
    }
}

/// The event that tells of the outcome of a refresh.
pub open spec fn refresh_event(
    w: WidgetView,
    outcome: Result<JsonView, Seq<char>>,
    at: Seq<char>,
) -> EventView {
    match outcome {
        Ok(value) => EventView::WidgetData {
            dashboard_id: w.dashboard_id,
            widget_id: w.id,
            value,
            at,
        },
        Err(error) => EventView::WidgetError {
            dashboard_id: w.dashboard_id,
            widget_id: w.id,
            error,
            at,
        },
    }
}

/// The model of what a write comes to.
pub open spec fn done_of(r: Result<(), String>) -> Result<(), Seq<char>> {
    match r {
        Ok(()) => Ok(()),
        Err(e) => Err(e@),
    }
}

impl StoreView {
    /// What writing a widget comes to, and the store after it: an id that belongs to another
    /// dashboard is not written.
    pub open spec fn writing(self, w: WidgetView, now: Seq<char>) -> (
        Result<(), Seq<char>>,
        StoreView,
    ) {
        match self.owner(w) {
            Some(d) => (Err(belongs_elsewhere(w.id, d)), self),
            None => (Ok(()), self.with_widget(w, now)),
        }
    }

    /// What moving a widget that was looked up comes to, and the store after it.
    pub open spec fn moving(
        self,
        target: Result<Option<WidgetView>, Seq<char>>,
        grid: Option<GridLayout>,
        canvas: Option<CanvasLayout>,
        now: Seq<char>,
    ) -> (Result<Option<WidgetView>, Seq<char>>, StoreView) {
        match target {
            Ok(Some(w)) => (
                Ok(Some(placed(w, grid, canvas))),
                self.with_widget(placed(w, grid, canvas), now),
            ),
            other => (other, self),
        }
    }

    /// What caching the outcome of a refresh comes to, and the store after it.
    pub open spec fn caching(
        self,
        id: Seq<char>,
        outcome: Result<JsonView, Seq<char>>,
        at: Seq<char>,
        updated_at: Seq<char>,
    ) -> (Result<(), Seq<char>>, StoreView) {
        match self.widget(id) {
            Ok(Some(w)) => (Ok(()), self.with_value(w, outcome, at, updated_at)),
            Ok(None) => (Ok(()), self),
            Err(e) => (Err(e), self),
        }
    }

    /// Whether removing a widget removes one, and the store after it.
    pub open spec fn removing(self, id: Seq<char>) -> (bool, StoreView) {
        (found(self.widgets, id) is Some, self.without_widget(id))
    }

    /// Whether removing a widget of a dashboard removes one, and the store after it.
    pub open spec fn removing_from(self, dashboard_id: Seq<char>, id: Seq<char>) -> (bool, StoreView) {
        match found(self.widgets, id) {
            Some(row) if row.dashboard_id == dashboard_id => (true, self.without_widget(id)),
            _ => (false, self),
        }
    }

    /// Whether removing a dashboard removes one, and the store after it.
    pub open spec fn dissolving(self, id: Seq<char>) -> (bool, StoreView) {
        (found(self.dashboards, id) is Some, self.without_dashboard(id))
    }

    /// Whether removing a device's binding removes one, and the store after it.
    pub open spec fn unbinding(self, device_id: Seq<char>) -> (bool, StoreView) {
        (
            found(self.devices, device_id) is Some,
            StoreView { devices: without(self.devices, device_id), ..self },
        )
    }

    /// The store with the outcome of a refresh cached on a readable widget and told.
    pub open spec fn with_value(
        self,
        w: WidgetView,
        outcome: Result<JsonView, Seq<char>>,
        at: Seq<char>,
        updated_at: Seq<char>,
    ) -> StoreView {
        let row = WidgetRowView {
            body: Some(refreshed(w, outcome, at)),
            updated_at,
            ..found(self.widgets, w.id).unwrap()
        };
        StoreView { widgets: with_row(self.widgets, row), ..self }.sending(
            refresh_event(w, outcome, at),
        )
    }
}

proof fn lemma_put_widget_wf(s: StoreView, row: WidgetRowView)
    requires
        s.wf(),
        row.body matches Some(w) ==> w.id == row.id && w.dashboard_id == row.dashboard_id,
    ensures
        (StoreView { widgets: with_row(s.widgets, row), ..s }).wf(),
{
    let next = with_row(s.widgets, row);
    law_put_keeps_keys_unique(s.widgets, row);
    lemma_place_from(s.widgets, row.id, 0);
    assert forall|i: int| 0 <= i < next.len() implies ((#[trigger] next[i]).body matches Some(w)
        ==> w.id == next[i].id && w.dashboard_id == next[i].dashboard_id) by {
        if i < s.widgets.len() {
            assert(next[i] == row || next[i] == s.widgets[i]);
        }
    }
}

proof fn lemma_found_widget(s: StoreView, id: Seq<char>)
    requires
        s.wf(),
    ensures
        found(s.widgets, id) matches Some(row) ==> row.id == id && (row.body matches Some(w)
            ==> w.id == id && w.dashboard_id == row.dashboard_id),
{
    lemma_place_from(s.widgets, id, 0);
}

proof fn lemma_without_widget_wf(s: StoreView, id: Seq<char>)
    requires
        s.wf(),
    ensures
        s.without_widget(id).wf(),
{
    if found(s.widgets, id) is Some {
        let rows = without(s.widgets, id);
        law_removal_keeps_keys_unique(s.widgets, id);
        assert forall|i: int| 0 <= i < rows.len() implies ((#[trigger] rows[i]).body matches Some(w)
            ==> w.id == rows[i].id && w.dashboard_id == rows[i].dashboard_id) by {
            lemma_left_was_there(s.widgets, id, i);
            let k = choose|k: int| 0 <= k < s.widgets.len() && rows[i] == #[trigger] s.widgets[k];
            assert(s.widgets[k].body matches Some(w) ==> w.id == s.widgets[k].id && w.dashboard_id
                == s.widgets[k].dashboard_id);
        }
        assert(s.without_widget(id).widgets == rows);
    }
}

impl DashboardStore {
    /// Writes a widget at the given time and tells of the change, unless its id belongs to
    /// another dashboard.
    pub fn upsert_widget_at(&mut self, widget: &Widget, now: &str) -> (r: Result<(), String>)
        requires
            old(self)@.wf(),
        ensures
            (done_of(r), final(self)@) == old(self)@.writing(widget@, now@),
            final(self)@.wf(),
    {
        let ghost before = self@;
        let created_at = match self.widgets.get(widget.id.as_str()) {
            Some(row) => {
                if !same_text(row.dashboard_id.as_str(), widget.dashboard_id.as_str()) {
                    let mut text = "widget '".to_owned();
                    text.append(widget.id.as_str());
                    text.append("' already belongs to dashboard '");
                    text.append(row.dashboard_id.as_str());
                    text.append("'");
                    return Err(text);
                }
                row.created_at.clone()
            },
            None => now.to_owned(),
        };
        let row = WidgetRow {
            id: widget.id.clone(),
            dashboard_id: widget.dashboard_id.clone(),
            body: Some(widget.clone()),
            created_at,
            updated_at: now.to_owned(),
        };
        let ghost model = row.model();
        assert(model == before.widget_row(widget@, now@));
        self.widgets.put(row);
        proof {
            lemma_put_widget_wf(before, model);
        }
        self.broadcast(
            DashboardEvent::WidgetUpdated {
                dashboard_id: widget.dashboard_id.clone(),
                widget: widget.clone(),
            },
        );
        Ok(())
    }

    /// Writes a widget now and tells of the change, unless its id belongs to another
    /// dashboard.
    pub fn upsert_widget(&mut self, widget: &Widget) -> (r: Result<(), String>)
        requires
            old(self)@.wf(),
        ensures
            exists|t: Seq<char>|
                is_stamp(t) && (done_of(r), final(self)@) == #[trigger] old(self)@.writing(widget@, t),
            final(self)@.wf(),
    {
        let t = now();
        self.upsert_widget_at(widget, t.as_str())
    }

    /// The widget with an id.
    pub fn get_widget(&self, id: &str) -> (r: Result<Option<Widget>, String>)
        ensures
            lookup_of(r) == self@.widget(id@),
    {
        match self.widgets.get(id) {
            Some(row) => match &row.body {
                Some(w) => Ok(Some(w.clone())),
                None => Err("deserializing widget".to_owned()),
            },
            None => Ok(None),
        }
    }

    /// The widget with an id, if it belongs to the dashboard.
    pub fn get_widget_for_dashboard(&self, dashboard_id: &str, id: &str) -> (r: Result<
        Option<Widget>,
        String,
    >)
        ensures
            lookup_of(r) == self@.widget_on(dashboard_id@, id@),
    {
        match self.widgets.get(id) {
            Some(row) => if same_text(row.dashboard_id.as_str(), dashboard_id) {
                self.get_widget(id)
            } else {
                Ok(None)
            },
            None => Ok(None),
        }
    }

    /// The readable widgets of a dashboard, the oldest first.
    pub fn list_widgets(&self, dashboard_id: &str) -> (r: Vec<Widget>)
        ensures
            widget_views(r@) == readable_on(by_creation(self@.widgets), dashboard_id@),
    {
        let order = self.widgets.creation_order();
        let ghost sorted = models_at(self@.widgets, order@);
        let mut out: Vec<Widget> = Vec::new();
        assert(sorted.take(0) =~= Seq::<WidgetRowView>::empty());
        assert(widget_views(out@) =~= Seq::<WidgetView>::empty());
        for i in 0..order.len()
            invariant
                forall|j: int| 0 <= j < order@.len() ==> #[trigger] order@[j] < self.widgets.rows@.len(),
                sorted == models_at(self@.widgets, order@),
                widget_views(out@) == readable_on(sorted.take(i as int), dashboard_id@),
        {
            assert(sorted.take(i + 1).drop_last() =~= sorted.take(i as int));
            let row = &self.widgets.rows[order[i]];
            assert(sorted[i as int] == row.model());
            if same_text(row.dashboard_id.as_str(), dashboard_id) {
                if let Some(w) = &row.body {
                    let ghost before = widget_views(out@);
                    out.push(w.clone());
                    assert(widget_views(out@) =~= before.push(w@));
                }
            }
        }
        assert(sorted.take(sorted.len() as int) =~= sorted);
        out
    }

    /// The readable widgets of every dashboard.
    pub fn list_all_widgets(&self) -> (r: Vec<Widget>)
        ensures
            widget_views(r@) == readable_widgets(self@.widgets),
    {
        let ghost all = self@.widgets;
        let mut out: Vec<Widget> = Vec::new();
        assert(all.take(0) =~= Seq::<WidgetRowView>::empty());
        assert(widget_views(out@) =~= Seq::<WidgetView>::empty());
        for i in 0..self.widgets.rows.len()
            invariant
                all == self@.widgets,
                widget_views(out@) == readable_widgets(all.take(i as int)),
        {
            assert(all.take(i + 1).drop_last() =~= all.take(i as int));
            if let Some(w) = &self.widgets.rows[i].body {
                let ghost before = widget_views(out@);
                out.push(w.clone());
                assert(widget_views(out@) =~= before.push(w@));
            }
        }
        assert(all.take(all.len() as int) =~= all);
        out
    }

    /// Removes a widget, tells of the change, and says whether there was one.
    pub fn delete_widget(&mut self, id: &str) -> (r: bool)
        requires
            old(self)@.wf(),
        ensures
            (r, final(self)@) == old(self)@.removing(id@),
            final(self)@.wf(),
    {
        proof {
            lemma_without_widget_wf(self@, id@);
        }
        let dashboard_id = match self.widgets.get(id) {
            Some(row) => row.dashboard_id.clone(),
            None => return false,
        };
        self.widgets.remove(id);
        self.broadcast(DashboardEvent::WidgetDeleted { dashboard_id, widget_id: id.to_owned() });
        true
    }

    /// Removes a widget if it belongs to the dashboard, tells of the change, and says
    /// whether it did.
    pub fn delete_widget_for_dashboard(&mut self, dashboard_id: &str, id: &str) -> (r: bool)
        requires
            old(self)@.wf(),
        ensures
            (r, final(self)@) == old(self)@.removing_from(dashboard_id@, id@),
            final(self)@.wf(),
    {
        let belongs = match self.widgets.get(id) {
            Some(row) => same_text(row.dashboard_id.as_str(), dashboard_id),
            None => false,
        };
        if belongs {
            self.delete_widget(id)
        } else {
            false
        }
    }

    /// Moves a widget on the grid at the given time, and gives the moved widget.
    pub fn update_widget_layout_at(&mut self, id: &str, layout: GridLayout, now: &str) -> (r: Result<
        Option<Widget>,
        String,
    >)
        requires
            old(self)@.wf(),
        ensures
            (lookup_of(r), final(self)@) == old(self)@.moving(
                old(self)@.widget(id@),
                Some(layout),
                None,
                now@,
            ),
            final(self)@.wf(),
    {
        proof {
            lemma_found_widget(self@, id@);
        }
        match self.get_widget(id) {
            Ok(Some(found_widget)) => {
                let mut widget = found_widget;
                widget.layout = layout;
                match self.upsert_widget_at(&widget, now) {
                    Ok(()) => Ok(Some(widget)),
                    Err(e) => Err(e),
                }
            },
            Ok(None) => Ok(None),
            Err(e) => Err(e),
        }
    }

    /// Moves a widget on the grid now, and gives the moved widget.
    pub fn update_widget_layout(&mut self, id: &str, layout: GridLayout) -> (r: Result<
        Option<Widget>,
        String,
    >)
        requires
            old(self)@.wf(),
        ensures
            exists|t: Seq<char>|
                is_stamp(t) && (lookup_of(r), final(self)@) == #[trigger] old(self)@.moving(
                    old(self)@.widget(id@),
                    Some(layout),
                    None,
                    t,
                ),
            final(self)@.wf(),
    {
        let t = now();
        self.update_widget_layout_at(id, layout, t.as_str())
    }

    /// Replaces the positional fields that are given, at the given time, of a widget that
    /// belongs to the dashboard, and gives the widget. The grid and the canvas are
    /// independent of each other.
    pub fn update_widget_layout_fields_at(
        &mut self,
        dashboard_id: &str,
        id: &str,
        grid: Option<GridLayout>,
        canvas: Option<CanvasLayout>,
        now: &str,
    ) -> (r: Result<Option<Widget>, String>)
        requires
            old(self)@.wf(),
        ensures
            (lookup_of(r), final(self)@) == old(self)@.moving(
                old(self)@.widget_on(dashboard_id@, id@),
                grid,
                canvas,
                now@,
            ),
            final(self)@.wf(),
    {
        proof {
            lemma_found_widget(self@, id@);
        }
        match self.get_widget_for_dashboard(dashboard_id, id) {
            Ok(Some(found_widget)) => {
                let mut widget = found_widget;
                if let Some(layout) = grid {
                    widget.layout = layout;
                }
                if let Some(c) = canvas {
                    widget.canvas = Some(c);
                }
                match self.upsert_widget_at(&widget, now) {
                    Ok(()) => Ok(Some(widget)),
                    Err(e) => Err(e),
                }
            },
            Ok(None) => Ok(None),
            Err(e) => Err(e),
        }
    }

    /// Replaces the positional fields that are given, now, of a widget that belongs to the
    /// dashboard, and gives the widget.
    pub fn update_widget_layout_fields_for_dashboard(
        &mut self,
        dashboard_id: &str,
        id: &str,
        grid: Option<GridLayout>,
        canvas: Option<CanvasLayout>,
    ) -> (r: Result<Option<Widget>, String>)
        requires
            old(self)@.wf(),
        ensures
            exists|t: Seq<char>|
                is_stamp(t) && (lookup_of(r), final(self)@) == #[trigger] old(self)@.moving(
                    old(self)@.widget_on(dashboard_id@, id@),
                    grid,
                    canvas,
                    t,
                ),
            final(self)@.wf(),
    {
        let t = now();
        self.update_widget_layout_fields_at(dashboard_id, id, grid, canvas, t.as_str())
    }

    /// Moves a widget on the grid now if it belongs to the dashboard, and gives the moved
    /// widget.
    pub fn update_widget_layout_for_dashboard(
        &mut self,
        dashboard_id: &str,
        id: &str,
        layout: GridLayout,
    ) -> (r: Result<Option<Widget>, String>)
        requires
            old(self)@.wf(),
        ensures
            exists|t: Seq<char>|
                is_stamp(t) && (lookup_of(r), final(self)@) == #[trigger] old(self)@.moving(
                    old(self)@.widget_on(dashboard_id@, id@),
                    Some(layout),
                    None,
                    t,
                ),
            final(self)@.wf(),
    {
        self.update_widget_layout_fields_for_dashboard(dashboard_id, id, Some(layout), None)
    }

    /// Caches the outcome of a refresh on a widget and tells of it. A widget that is gone is
    /// passed over.
    pub fn update_widget_value_at(
        &mut self,
        id: &str,
        value: &Result<Json, String>,
        at: &str,
        updated_at: &str,
    ) -> (r: Result<(), String>)
        requires
            old(self)@.wf(),
        ensures
            (done_of(r), final(self)@) == old(self)@.caching(
                id@,
                outcome_of(*value),
                at@,
                updated_at@,
            ),
            final(self)@.wf(),
    {
        let ghost before = self@;
        proof {
            lemma_found_widget(self@, id@);
        }
        let mut widget = match self.get_widget(id) {
            Ok(Some(w)) => w,
            Ok(None) => return Ok(()),
            Err(e) => return Err(e),
        };
        let ghost w = widget@;
        widget.last_refresh_at = Some(at.to_owned());
        let event = match value {
            Ok(v) => {
                widget.last_value = Some(v.clone());
                widget.last_error = None;
                DashboardEvent::WidgetData {
                    dashboard_id: widget.dashboard_id.clone(),
                    widget_id: widget.id.clone(),
                    value: v.clone(),
                    at: at.to_owned(),
                }
            },
            Err(e) => {
                widget.last_error = Some(e.clone());
                DashboardEvent::WidgetError {
                    dashboard_id: widget.dashboard_id.clone(),
                    widget_id: widget.id.clone(),
                    error: e.clone(),
                    at: at.to_owned(),
                }
            },
        };
        assert(widget@ == refreshed(w, outcome_of(*value), at@));
        assert(event@ == refresh_event(w, outcome_of(*value), at@));
        let created_at = match self.widgets.get(id) {
            Some(row) => row.created_at.clone(),
            None => return Ok(()),
        };
        let row = WidgetRow {
            id: id.to_owned(),
            dashboard_id: widget.dashboard_id.clone(),
            body: Some(widget),
            created_at,
            updated_at: updated_at.to_owned(),
        };
        let ghost model = row.model();
        self.widgets.put(row);
        proof {
            lemma_put_widget_wf(before, model);
        }
        self.broadcast(event);
        Ok(())
    }

    /// Caches the outcome of a refresh on a widget now and tells of it.
    pub fn update_widget_value(&mut self, id: &str, value: &Result<Json, String>) -> (r: Result<
        (),
        String,
    >)
        requires
            old(self)@.wf(),
        ensures
            exists|at: Seq<char>, updated_at: Seq<char>|
                is_stamp(at) && is_stamp(updated_at) && (done_of(r), final(self)@)
                    == #[trigger] old(self)@.caching(id@, outcome_of(*value), at, updated_at),
            final(self)@.wf(),
    {
        let at = now();
        let updated_at = now();
        self.update_widget_value_at(id, value, at.as_str(), updated_at.as_str())
    }
}

// ---- laws ----------------------------------------------------------------

/// A dashboard that was written is what is read under its id, and every other dashboard
/// reads as before.
pub proof fn law_written_dashboard_is_read(s: StoreView, d: DashboardView, other: Seq<char>)
    requires
        other != d.id,
    ensures
        s.with_dashboard(d).dashboard(d.id) == Ok::<Option<DashboardView>, Seq<char>>(Some(d)),
        s.with_dashboard(d).dashboard(other) == s.dashboard(other),
        s.with_dashboard(d).widgets == s.widgets,
        s.with_dashboard(d).devices == s.devices,
{
    let row = DashboardRowView {
        id: d.id,
        body: Some(d),
        created_at: match found(s.dashboards, d.id) {
            Some(old_row) => old_row.created_at,
            None => d.created_at,
        },
        updated_at: d.updated_at,
    };
    law_put_is_found(s.dashboards, row);
    law_put_leaves_others(s.dashboards, row, other);
}

/// A widget that was written is what is read under its id, and every other widget reads as
/// before.
pub proof fn law_written_widget_is_read(
    s: StoreView,
    w: WidgetView,
    now: Seq<char>,
    other: Seq<char>,
)
    requires
        other != w.id,
    ensures
        s.with_widget(w, now).widget(w.id) == Ok::<Option<WidgetView>, Seq<char>>(Some(w)),
        s.with_widget(w, now).widget_on(w.dashboard_id, w.id) == Ok::<
            Option<WidgetView>,
            Seq<char>,
        >(Some(w)),
        s.with_widget(w, now).widget(other) == s.widget(other),
        s.with_widget(w, now).dashboards == s.dashboards,
        s.with_widget(w, now).devices == s.devices,
{
    law_put_is_found(s.widgets, s.widget_row(w, now));
    law_put_leaves_others(s.widgets, s.widget_row(w, now), other);
}

/// The binding of a device that was written is what is read of the device, but for the time
/// of creation, which stays; every other device's binding is as before.
pub proof fn law_written_binding_is_read(s: StoreView, dd: DeviceView, other: Seq<char>)
    requires
        other != dd.device_id,
    ensures
        found(s.with_device(dd).devices, dd.device_id) matches Some(r) && r.dashboard_id
            == dd.dashboard_id && r.refresh_rate == dd.refresh_rate && r.updated_at
            == dd.updated_at && r.created_at == match found(s.devices, dd.device_id) {
            Some(old_row) => old_row.created_at,
            None => dd.created_at,
        },
        found(s.with_device(dd).devices, other) == found(s.devices, other),
{
    let row = DeviceView {
        created_at: match found(s.devices, dd.device_id) {
            Some(old_row) => old_row.created_at,
            None => dd.created_at,
        },
        ..dd
    };
    law_put_is_found(s.devices, row);
    law_put_leaves_others(s.devices, row, other);
}

/// Subscribers and viewers are counted apart: neither is taken for the other, and who leaves
/// leaves the store as it was before they came.
pub proof fn law_viewers_and_subscribers_are_counted_apart(s: StoreView)
    ensures
        s.subscribed().viewers == s.viewers,
        s.watched().receivers == s.receivers,
        s.subscribed().unsubscribed() == s,
        s.watched().unwatched() == s,
{
}

/// An event reaches the subscribers, and is lost when there are none.
pub proof fn law_events_reach_subscribers(s: StoreView, event: EventView)
    ensures
        s.receivers > 0 ==> s.sending(event).events == s.events.push(event),
        s.receivers == 0 ==> s.sending(event) == s,
{
}

/// A widget never moves to another dashboard: a write under its id that is not refused leaves
/// it where it was.
pub proof fn law_widget_stays_on_its_dashboard(
    s: StoreView,
    w: WidgetView,
    now: Seq<char>,
    id: Seq<char>,
)
    requires
        s.owner(w) is None,
        found(s.widgets, id) is Some,
    ensures
        found(s.with_widget(w, now).widgets, id) matches Some(row) && row.dashboard_id == found(
            s.widgets,
            id,
        ).unwrap().dashboard_id,
{
    if id == w.id {
        law_put_is_found(s.widgets, s.widget_row(w, now));
    } else {
        law_put_leaves_others(s.widgets, s.widget_row(w, now), id);
    }
}

/// Writing a dashboard or a widget again keeps the time of creation, by which it is listed.
pub proof fn law_rewriting_keeps_the_creation_time(
    s: StoreView,
    d: DashboardView,
    w: WidgetView,
    now: Seq<char>,
)
    ensures
        found(s.dashboards, d.id) matches Some(row) ==> found(
            s.with_dashboard(d).dashboards,
            d.id,
        ).unwrap().created_at == row.created_at,
        found(s.widgets, w.id) matches Some(row) ==> found(
            s.with_widget(w, now).widgets,
            w.id,
        ).unwrap().created_at == row.created_at,
{
    let row = DashboardRowView {
        id: d.id,
        body: Some(d),
        created_at: match found(s.dashboards, d.id) {
            Some(old_row) => old_row.created_at,
            None => d.created_at,
        },
        updated_at: d.updated_at,
    };
    law_put_is_found(s.dashboards, row);
    law_put_is_found(s.widgets, s.widget_row(w, now));
}

/// A widget that was removed is gone, and every other widget reads as before.
pub proof fn law_removed_widget_is_gone(s: StoreView, id: Seq<char>, other: Seq<char>)
    requires
        s.wf(),
        other != id,
    ensures
        s.without_widget(id).widget(id) == Ok::<Option<WidgetView>, Seq<char>>(None),
        s.without_widget(id).widget(other) == s.widget(other),
        s.without_widget(id).dashboards == s.dashboards,
{
    law_removed_is_not_found(s.widgets, id);
    law_removal_leaves_others(s.widgets, id, other);
}

proof fn lemma_elsewhere_found(rows: Seq<WidgetRowView>, d: Seq<char>, id: Seq<char>)
    requires
        unique(rows),
    ensures
        found(elsewhere(rows, d), id) == match found(rows, id) {
            Some(row) => if row.dashboard_id == d {
                None
            } else {
                Some(row)
            },
            None => None,
        },
    decreases rows.len(),
{
    let next = elsewhere(rows, d);
    lemma_place_from(rows, id, 0);
    lemma_place_from(next, id, 0);
    match place(next, id) {
        Some(q) => {
            lemma_elsewhere(rows, d, q);
            let k = choose|k: int| 0 <= k < rows.len() && next[q] == rows[k];
            let p = place(rows, id).unwrap();
            assert(rows[k].key() == id);
            if k != p {
                assert(rows[p].key() == rows[k].key());
            }
        },
        None => {
            match place(rows, id) {
                Some(p) => {
                    if rows[p].dashboard_id != d {
                        lemma_elsewhere_keeps(rows, d, p);
                        let q = choose|q: int| 0 <= q < next.len() && next[q] == rows[p];
                        assert(next[q].key() == id);
                    }
                },
                None => {},
            }
        },
    }
}

proof fn lemma_elsewhere_keeps(rows: Seq<WidgetRowView>, d: Seq<char>, p: int)
    requires
        0 <= p < rows.len(),
        rows[p].dashboard_id != d,
    ensures
        exists|q: int| 0 <= q < elsewhere(rows, d).len() && elsewhere(rows, d)[q] == rows[p],
    decreases rows.len(),
{
    let next = elsewhere(rows, d);
    let rest = rows.skip(1);
    if p == 0 {
        assert(next[0] == rows[0]);
    } else {
        assert(rest[p - 1] == rows[p]);
        lemma_elsewhere_keeps(rest, d, p - 1);
        let q = choose|q: int|
            0 <= q < elsewhere(rest, d).len() && elsewhere(rest, d)[q] == rest[p - 1];
        if rows.first().dashboard_id == d {
            assert(next[q] == rows[p]);
        } else {
            assert(next[q + 1] == rows[p]);
        }
    }
}

/// A dashboard that was removed is gone with all its widgets; the widgets of every other
/// dashboard stay.
pub proof fn law_removed_dashboard_takes_its_widgets(s: StoreView, d: Seq<char>, id: Seq<char>)
    requires
        s.wf(),
    ensures
        s.without_dashboard(d).dashboard(d) == Ok::<Option<DashboardView>, Seq<char>>(None),
        s.without_dashboard(d).widget_on(d, id) == Ok::<Option<WidgetView>, Seq<char>>(None),
        (found(s.widgets, id) matches Some(row) && row.dashboard_id != d)
            ==> s.without_dashboard(d).widget(id) == s.widget(id),
        id != d ==> s.without_dashboard(d).dashboard(id) == s.dashboard(id),
{
    law_removed_is_not_found(s.dashboards, d);
    if id != d {
        law_removal_leaves_others(s.dashboards, d, id);
    }
    lemma_elsewhere_found(s.widgets, d, id);
}

/// A widget of another dashboard than the one that is removed stays where it is.
pub proof fn law_kept_widgets_stay_where_they_are(s: StoreView, d: Seq<char>, id: Seq<char>)
    requires
        s.wf(),
        found(s.widgets, id) matches Some(row) && row.dashboard_id != d,
    ensures
        found(s.without_dashboard(d).widgets, id) == found(s.widgets, id),
{
    lemma_elsewhere_found(s.widgets, d, id);
}

/// The two views of a dashboard are independent: moving a widget on one leaves its place on
/// the other, and moving it on neither leaves it as it was.
pub proof fn law_grid_and_canvas_are_independent(
    w: WidgetView,
    grid: GridLayout,
    canvas: CanvasLayout,
)
    ensures
        placed(w, Some(grid), None).canvas == w.canvas,
        placed(w, None, Some(canvas)).layout == w.layout,
        placed(w, None, None) == w,
{
}

/// A refresh changes what is cached and nothing of the widget's definition, and a failed
/// refresh keeps the last value.
pub proof fn law_refresh_keeps_the_definition(
    w: WidgetView,
    outcome: Result<JsonView, Seq<char>>,
    at: Seq<char>,
)
    ensures
        refreshed(w, outcome, at) == (WidgetView {
            last_value: refreshed(w, outcome, at).last_value,
            last_error: refreshed(w, outcome, at).last_error,
            last_refresh_at: Some(at),
            ..w
        }),
        outcome is Err ==> refreshed(w, outcome, at).last_value == w.last_value,
        outcome matches Ok(v) ==> refreshed(w, outcome, at).last_value == Some(v) && refreshed(
            w,
            outcome,
            at,
        ).last_error is None,
{
}

proof fn lemma_readable_on_holds(rows: Seq<WidgetRowView>, d: Seq<char>, k: int)
    requires
        0 <= k < rows.len(),
        rows[k].dashboard_id == d,
        rows[k].body is Some,
    ensures
        readable_on(rows, d).contains(rows[k].body.unwrap()),
    decreases rows.len(),
{
    let before = readable_on(rows.drop_last(), d);
    let now_on = readable_on(rows, d);
    if k == rows.len() - 1 {
        assert(now_on[before.len() as int] == rows[k].body.unwrap());
    } else {
        assert(rows.drop_last()[k] == rows[k]);
        lemma_readable_on_holds(rows.drop_last(), d, k);
        let w = rows[k].body.unwrap();
        let i = choose|i: int| 0 <= i < before.len() && before[i] == w;
        assert(now_on[i] == w);
    }
}

proof fn lemma_readable_on_comes(rows: Seq<WidgetRowView>, d: Seq<char>, i: int)
    requires
        0 <= i < readable_on(rows, d).len(),
    ensures
        exists|k: int|
            0 <= k < rows.len() && rows[k].dashboard_id == d && rows[k].body == Some(
                readable_on(rows, d)[i],
            ),
    decreases rows.len(),
{
    let before = readable_on(rows.drop_last(), d);
    let last = rows.len() - 1;
    if i < before.len() {
        assert(readable_on(rows, d)[i] == before[i]);
        lemma_readable_on_comes(rows.drop_last(), d, i);
        let k = choose|k: int|
            0 <= k < rows.drop_last().len() && rows.drop_last()[k].dashboard_id == d
                && rows.drop_last()[k].body == Some(before[i]);
        assert(rows[k] == rows.drop_last()[k]);
    } else {
        assert(rows[last].body == Some(readable_on(rows, d)[i]));
    }
}

proof fn lemma_by_creation_holds(rows: Seq<WidgetRowView>, row: WidgetRowView)
    ensures
        rows.contains(row) <==> by_creation(rows).contains(row),
{
    broadcast use vstd::seq_lib::group_to_multiset_ensures;

    crate::table::law_by_creation_sorts(rows);
    assert(rows.contains(row) <==> rows.to_multiset().count(row) > 0);
    assert(by_creation(rows).contains(row) <==> by_creation(rows).to_multiset().count(row) > 0);
}

/// A widget that was written stands in the list of its dashboard.
pub proof fn law_written_widget_is_listed(s: StoreView, w: WidgetView, now: Seq<char>)
    ensures
        readable_on(by_creation(s.with_widget(w, now).widgets), w.dashboard_id).contains(w),
{
    let rows = s.with_widget(w, now).widgets;
    let row = s.widget_row(w, now);
    law_put_is_found(s.widgets, row);
    lemma_place_from(rows, w.id, 0);
    assert(rows.contains(row));
    lemma_by_creation_holds(rows, row);
    let sorted = by_creation(rows);
    let k = choose|k: int| 0 <= k < sorted.len() && sorted[k] == row;
    lemma_readable_on_holds(sorted, w.dashboard_id, k);
}

/// The list of a dashboard holds its own widgets and no others.
pub proof fn law_list_holds_own_widgets(s: StoreView, d: Seq<char>, w: WidgetView)
    requires
        s.wf(),
    ensures
        readable_on(by_creation(s.widgets), d).contains(w) <==> w.dashboard_id == d && s.widget(
            w.id,
        ) == Ok::<Option<WidgetView>, Seq<char>>(Some(w)),
{
    let sorted = by_creation(s.widgets);
    if readable_on(sorted, d).contains(w) {
        let i = choose|i: int| 0 <= i < readable_on(sorted, d).len() && readable_on(sorted, d)[i] == w;
        lemma_readable_on_comes(sorted, d, i);
        let k = choose|k: int|
            0 <= k < sorted.len() && sorted[k].dashboard_id == d && sorted[k].body == Some(w);
        let row = sorted[k];
        assert(sorted.contains(row));
        lemma_by_creation_holds(s.widgets, row);
        let j = choose|j: int| 0 <= j < s.widgets.len() && s.widgets[j] == row;
        assert(s.widgets[j].body matches Some(b) ==> b.id == s.widgets[j].id);
        lemma_place_from(s.widgets, w.id, 0);
        let p = place(s.widgets, w.id).unwrap();
        if p != j {
            assert(s.widgets[p].key() == s.widgets[j].key());
        }
    }
    if w.dashboard_id == d && s.widget(w.id) == Ok::<Option<WidgetView>, Seq<char>>(Some(w)) {
        lemma_place_from(s.widgets, w.id, 0);
        let p = place(s.widgets, w.id).unwrap();
        let row = s.widgets[p];
        assert(row.body == Some(w));
        assert(s.widgets.contains(row));
        lemma_by_creation_holds(s.widgets, row);
        let k = choose|k: int| 0 <= k < sorted.len() && sorted[k] == row;
        lemma_readable_on_holds(sorted, d, k);
    }
}

} // verus!
