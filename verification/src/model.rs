//! Dashboards, widgets, their sources and layouts, and the events that tell of changes.

use vstd::prelude::*;

use crate::clock::{read_cadence, read_secs};
use crate::json::{opt_tree, Json, JsonView};
use crate::text::{blank, copy_opt, opt_text, trim, trimmed};

verus! {

/// A dashboard: a named grid of widgets. The widgets are held apart, keyed by
/// `dashboard_id`, so this record is just the dashboard's identity.
#[derive(Debug)]
pub struct Dashboard {
    pub id: String,
    pub name: String,
    pub created_at: String,
    pub updated_at: String,
    /// The desktop render mode: `grid` or `canvas`; `None` is treated as `grid`.
    pub view_mode: Option<String>,
}

/// The model of a [`Dashboard`].
pub struct DashboardView {
    pub id: Seq<char>,
    pub name: Seq<char>,
    pub created_at: Seq<char>,
    pub updated_at: Seq<char>,
    pub view_mode: Option<Seq<char>>,
}

impl View for Dashboard {
    type V = DashboardView;

    open spec fn view(&self) -> DashboardView {
        DashboardView {
            id: self.id@,
            name: self.name@,
            created_at: self.created_at@,
            updated_at: self.updated_at@,
            view_mode: opt_text(self.view_mode),
        }
    }
}

impl Clone for Dashboard {
    fn clone(&self) -> (r: Dashboard)
        ensures
            r == *self,
    {
        Dashboard {
            id: self.id.clone(),
            name: self.name.clone(),
            created_at: self.created_at.clone(),
            updated_at: self.updated_at.clone(),
            view_mode: copy_opt(&self.view_mode),
        }
    }
}

/// The binding of a hardware device to the dashboard that it shows, polling every
/// `refresh_rate` seconds.
#[derive(Debug)]
pub struct DeviceDashboard {
    pub device_id: String,
    pub dashboard_id: String,
    pub refresh_rate: u32,
    pub created_at: String,
    pub updated_at: String,
}

/// The model of a [`DeviceDashboard`].
pub struct DeviceView {
    pub device_id: Seq<char>,
    pub dashboard_id: Seq<char>,
    pub refresh_rate: u32,
    pub created_at: Seq<char>,
    pub updated_at: Seq<char>,
}

impl View for DeviceDashboard {
    type V = DeviceView;

    open spec fn view(&self) -> DeviceView {
        DeviceView {
            device_id: self.device_id@,
            dashboard_id: self.dashboard_id@,
            refresh_rate: self.refresh_rate,
            created_at: self.created_at@,
            updated_at: self.updated_at@,
        }
    }
}

impl Clone for DeviceDashboard {
    fn clone(&self) -> (r: DeviceDashboard)
        ensures
            r == *self,
    {
        DeviceDashboard {
            device_id: self.device_id.clone(),
            dashboard_id: self.dashboard_id.clone(),
            refresh_rate: self.refresh_rate,
            created_at: self.created_at.clone(),
            updated_at: self.updated_at.clone(),
        }
    }
}

/// The visual kind of a widget. One fixed component draws each kind.
#[derive(Debug, Clone, Copy, PartialEq, Eq, Structural)]
pub enum WidgetKind {
    /// A single number.
    Stat,
    LineChart,
    BarChart,
    AreaChart,
    PieChart,
    /// A data table.
    Table,
    /// A simple list of items.
    List,
    /// Markdown or rich text.
    Text,
    /// A map with markers from the source data.
    WorldMap,
    /// A scrolling feed of agent output.
    AgentFeed,
}

/// Where a widget's live data comes from. Only these kinds of source exist.
#[derive(Debug)]
pub enum WidgetSource {
    /// Literal inline data, never refreshed.
    Static { data: Json },
    /// An internal endpoint of the curated list; the selector is a dotted path into its
    /// response.
    CoreEndpoint { endpoint: String, selector: Option<String> },
    /// A website monitor's latest check result.
    Monitor { monitor_id: String },
    /// A saved workflow, and the key to read from its output.
    Workflow { workflow_id: String, input: Vec<(String, String)>, output_key: Option<String> },
    /// A Composio action, executed through the Gateway.
    Composio { action: String, args: Json },
    /// An external HTTP endpoint; the selector is a dotted path into its response.
    Http { url: String, selector: Option<String>, headers: Vec<(String, String)> },
    /// An agent that is run again on an interval.
    Agent { agent_id: String, prompt: String },
}

/// The model of a [`WidgetSource`].
pub enum SourceView {
    Static { data: JsonView },
    CoreEndpoint { endpoint: Seq<char>, selector: Option<Seq<char>> },
    Monitor { monitor_id: Seq<char> },
    Workflow {
        workflow_id: Seq<char>,
        input: Seq<(Seq<char>, Seq<char>)>,
        output_key: Option<Seq<char>>,
    },
    Composio { action: Seq<char>, args: JsonView },
    Http { url: Seq<char>, selector: Option<Seq<char>>, headers: Seq<(Seq<char>, Seq<char>)> },
    Agent { agent_id: Seq<char>, prompt: Seq<char> },
}

/// The views of a list of pairs of texts.
pub open spec fn pairs(list: Seq<(String, String)>) -> Seq<(Seq<char>, Seq<char>)> {
    Seq::new(list.len(), |i: int| (list[i].0@, list[i].1@))
}

/// A copy of a list of pairs of texts.
pub fn copy_pairs(list: &Vec<(String, String)>) -> (r: Vec<(String, String)>)
    ensures
        pairs(r@) == pairs(list@),
{
    let mut out: Vec<(String, String)> = Vec::new();
    for i in 0..list.len()
        invariant
            pairs(out@) == pairs(list@).take(i as int),
    {
        let ghost before = out@;
        out.push((list[i].0.clone(), list[i].1.clone()));
        assert(pairs(out@) =~= pairs(before).push((list@[i as int].0@, list@[i as int].1@)));
    }
    out
}

impl View for WidgetSource {
    type V = SourceView;

    open spec fn view(&self) -> SourceView {
        match *self {
            WidgetSource::Static { data } => SourceView::Static { data: data@ },
            WidgetSource::CoreEndpoint { endpoint, selector } => SourceView::CoreEndpoint {
                endpoint: endpoint@,
                selector: opt_text(selector),
            },
            WidgetSource::Monitor { monitor_id } => SourceView::Monitor {
                monitor_id: monitor_id@,
            },
            WidgetSource::Workflow { workflow_id, input, output_key } => SourceView::Workflow {
                workflow_id: workflow_id@,
                input: pairs(input@),
                output_key: opt_text(output_key),
            },
            WidgetSource::Composio { action, args } => SourceView::Composio {
                action: action@,
                args: args@,
            },
            WidgetSource::Http { url, selector, headers } => SourceView::Http {
                url: url@,
                selector: opt_text(selector),
                headers: pairs(headers@),
            },
            WidgetSource::Agent { agent_id, prompt } => SourceView::Agent {
                agent_id: agent_id@,
                prompt: prompt@,
            },
        }
    }
}

impl Clone for WidgetSource {
    fn clone(&self) -> (r: WidgetSource)
        ensures
            r@ == self@,
    {
        match self {
            WidgetSource::Static { data } => WidgetSource::Static { data: data.clone() },
            WidgetSource::CoreEndpoint { endpoint, selector } => WidgetSource::CoreEndpoint {
                endpoint: endpoint.clone(),
                selector: copy_opt(selector),
            },
            WidgetSource::Monitor { monitor_id } => WidgetSource::Monitor {
                monitor_id: monitor_id.clone(),
            },
            WidgetSource::Workflow { workflow_id, input, output_key } => WidgetSource::Workflow {
                workflow_id: workflow_id.clone(),
                input: copy_pairs(input),
                output_key: copy_opt(output_key),
            },
            WidgetSource::Composio { action, args } => WidgetSource::Composio {
                action: action.clone(),
                args: args.clone(),
            },
            WidgetSource::Http { url, selector, headers } => WidgetSource::Http {
                url: url.clone(),
                selector: copy_opt(selector),
                headers: copy_pairs(headers),
            },
            WidgetSource::Agent { agent_id, prompt } => WidgetSource::Agent {
                agent_id: agent_id.clone(),
                prompt: prompt.clone(),
            },
        }
    }
}

impl SourceView {
    /// Sources that cost money or tokens, or that hit the network hard.
    pub open spec fn expensive(self) -> bool {
        self is Workflow || self is Composio || self is Http || self is Agent
    }

    /// Sources that produce new data over time.
    pub open spec fn refreshable(self) -> bool {
        !(self is Static)
    }

    /// The shortest refresh interval, in seconds, that a source allows.
    pub open spec fn min_interval(self) -> u64 {
        match self {
            SourceView::Static { .. } => u64::MAX,
            SourceView::CoreEndpoint { .. } => 5,
            SourceView::Monitor { .. } => 5,
            _ => 30,
        }
    }

    /// The refresh interval, in seconds, of a widget that sets none.
    pub open spec fn default_interval(self) -> u64 {
        match self {
            SourceView::Static { .. } => u64::MAX,
            SourceView::CoreEndpoint { .. } => 15,
            SourceView::Monitor { .. } => 15,
            SourceView::Http { .. } => 60,
            _ => 120,
        }
    }
}

impl WidgetSource {
    /// Whether the refresh loop skips this source when no client is watching.
    pub fn is_expensive(&self) -> (r: bool)
        ensures
            r == self@.expensive(),
    {
        match self {
            WidgetSource::Workflow { .. } => true,
            WidgetSource::Composio { .. } => true,
            WidgetSource::Http { .. } => true,
            WidgetSource::Agent { .. } => true,
            _ => false,
        }
    }

    /// Whether this source produces new data over time.
    pub fn is_refreshable(&self) -> (r: bool)
        ensures
            r == self@.refreshable(),
    {
        match self {
            WidgetSource::Static { .. } => false,
            _ => true,
        }
    }

    /// The shortest refresh interval, in seconds, that this source allows.
    pub fn min_interval_secs(&self) -> (r: u64)
        ensures
            r == self@.min_interval(),
    {
        match self {
            WidgetSource::Static { .. } => u64::MAX,
            WidgetSource::CoreEndpoint { .. } => 5,
            WidgetSource::Monitor { .. } => 5,
            _ => 30,
        }
    }

    /// The refresh interval, in seconds, of a widget that sets none.
    pub fn default_interval_secs(&self) -> (r: u64)
        ensures
            r == self@.default_interval(),
    {
        match self {
            WidgetSource::Static { .. } => u64::MAX,
            WidgetSource::CoreEndpoint { .. } => 15,
            WidgetSource::Monitor { .. } => 15,
            WidgetSource::Http { .. } => 60,
            _ => 120,
        }
    }
}

/// A widget's position and size on the twelve-column grid.
#[derive(Debug, Clone, Copy, PartialEq, Eq, Structural)]
pub struct GridLayout {
    pub x: u32,
    pub y: u32,
    pub w: u32,
    pub h: u32,
}

impl Default for GridLayout {
    fn default() -> (r: GridLayout)
        ensures
            r == (GridLayout { x: 0, y: 0, w: 4, h: 4 }),
    {
        GridLayout { x: 0, y: 0, w: 4, h: 4 }
    }
}

/// The pixels of one grid cell when a canvas position is derived from a grid layout.
pub const CANVAS_CELL: u64 = 100;

/// A widget's position and size on the infinite canvas, in pixels. Each number is carried
/// as the bits of an IEEE 754 double.
#[derive(Debug, Clone, Copy, PartialEq, Eq, Structural)]
pub struct CanvasLayout {
    pub x: u64,
    pub y: u64,
    pub w: u64,
    pub h: u64,
}

/// Two to the power of `k`.
pub open spec fn two_to(k: nat) -> nat
    decreases k,
{
    if k == 0 {
        1
    } else {
        2 * two_to((k - 1) as nat)
    }
}

/// The lowest bit of the exponent of a double, which is also the weight of the leading
/// one of its significand.
pub const EXPONENT_UNIT: u64 = 0x10_0000_0000_0000;

/// Whether `bits` are those of the double that equals the whole number `n`: zero, or a
/// significand with a leading one, of which `n` is the top, and its exponent.
pub open spec fn is_double_of(bits: u64, n: nat) -> bool {
    if n == 0 {
        bits == 0
    } else {
        let k = bits as int / EXPONENT_UNIT as int - 1023;
        let significand = EXPONENT_UNIT as int + bits as int % EXPONENT_UNIT as int;
        0 <= k <= 52 && significand == n * two_to((52 - k) as nat)
    }
}

/// The bits of the double that equals a whole number.
pub fn double_bits(n: u64) -> (r: u64)
    requires
        n <= EXPONENT_UNIT,
    ensures
        is_double_of(r, n as nat),
{
    if n == 0 {
        return 0;
    }
    let mut significand: u64 = n;
    let mut k: u64 = 52;
    assert(n * two_to(0) == n) by {
        assert(two_to(0) == 1);
    }
    while significand < EXPONENT_UNIT
        invariant
            0 < n <= significand < 2 * EXPONENT_UNIT,
            k <= 52,
            significand == n * two_to((52 - k) as nat),
        decreases k,
    {
        proof {
            let p = two_to((52 - k) as nat);
            if k == 0 {
                lemma_two_to_52();
                assert(n * p >= p) by (nonlinear_arith)
                    requires
                        n >= 1,
                        p >= 0,
                ;
            }
            assert(two_to((53 - k) as nat) == 2 * p);
            assert(n * (2 * p) == 2 * (n * p)) by (nonlinear_arith);
        }
        significand = significand * 2;
        k = k - 1;
    }
    let bits: u64 = (k + 1023) * EXPONENT_UNIT + (significand - EXPONENT_UNIT);
    assert(bits as int / EXPONENT_UNIT as int == k + 1023);
    bits
}

proof fn lemma_two_to_52()
    ensures
        two_to(52) == EXPONENT_UNIT,
{
    reveal_with_fuel(two_to, 53);
}

impl CanvasLayout {
    /// The canvas position and size of a widget that was never placed on the canvas: each
    /// grid unit is [`CANVAS_CELL`] pixels.
    pub fn from_grid(grid: &GridLayout) -> (r: CanvasLayout)
        ensures
            derived_from(r, *grid),
    {
        CanvasLayout {
            x: double_bits(grid.x as u64 * CANVAS_CELL),
            y: double_bits(grid.y as u64 * CANVAS_CELL),
            w: double_bits(grid.w as u64 * CANVAS_CELL),
            h: double_bits(grid.h as u64 * CANVAS_CELL),
        }
    }
}

/// The canvas rectangle whose doubles are a grid rectangle scaled by [`CANVAS_CELL`].
pub open spec fn derived_from(canvas: CanvasLayout, grid: GridLayout) -> bool {
    &&& is_double_of(canvas.x, (grid.x * CANVAS_CELL) as nat)
    &&& is_double_of(canvas.y, (grid.y * CANVAS_CELL) as nat)
    &&& is_double_of(canvas.w, (grid.w * CANVAS_CELL) as nat)
    &&& is_double_of(canvas.h, (grid.h * CANVAS_CELL) as nat)
}

/// Whether a widget is shown at a place on the canvas: its own, or the one that its grid layout
/// derives.
pub open spec fn shown_at(canvas: CanvasLayout, w: WidgetView) -> bool {
    match w.canvas {
        Some(c) => canvas == c,
        None => derived_from(canvas, w.layout),
    }
}

proof fn lemma_two_to_grows(a: nat, b: nat)
    requires
        a < b,
    ensures
        2 * two_to(a) <= two_to(b),
        two_to(a) > 0,
    decreases b,
{
    if a == b - 1 {
        lemma_two_to_positive(a);
    } else {
        lemma_two_to_grows(a, (b - 1) as nat);
    }
}

proof fn lemma_two_to_positive(a: nat)
    ensures
        two_to(a) > 0,
    decreases a,
{
    if a > 0 {
        lemma_two_to_positive((a - 1) as nat);
    }
}

proof fn lemma_double_unique(a: u64, b: u64, n: nat)
    requires
        is_double_of(a, n),
        is_double_of(b, n),
    ensures
        a == b,
{
    if n > 0 {
        let unit = EXPONENT_UNIT as int;
        let ka = a as int / unit - 1023;
        let kb = b as int / unit - 1023;
        let sa = unit + a as int % unit;
        let sb = unit + b as int % unit;
        let pa = two_to((52 - ka) as nat);
        let pb = two_to((52 - kb) as nat);
        if ka > kb {
            lemma_two_to_grows((52 - ka) as nat, (52 - kb) as nat);
            assert(n * pb >= 2 * (n * pa)) by (nonlinear_arith)
                requires
                    pb >= 2 * pa,
                    n > 0,
            ;
        } else if kb > ka {
            lemma_two_to_grows((52 - kb) as nat, (52 - ka) as nat);
            assert(n * pa >= 2 * (n * pb)) by (nonlinear_arith)
                requires
                    pa >= 2 * pb,
                    n > 0,
            ;
        }
        assert(a as int == (a as int / unit) * unit + a as int % unit) by (nonlinear_arith)
            requires
                unit > 0,
        ;
        assert(b as int == (b as int / unit) * unit + b as int % unit) by (nonlinear_arith)
            requires
                unit > 0,
        ;
    }
}

/// A grid layout derives one canvas layout and no other.
pub proof fn law_canvas_derivation_is_deterministic(a: CanvasLayout, b: CanvasLayout, grid: GridLayout)
    requires
        derived_from(a, grid),
        derived_from(b, grid),
    ensures
        a == b,
{
    lemma_double_unique(a.x, b.x, (grid.x * CANVAS_CELL) as nat);
    lemma_double_unique(a.y, b.y, (grid.y * CANVAS_CELL) as nat);
    lemma_double_unique(a.w, b.w, (grid.w * CANVAS_CELL) as nat);
    lemma_double_unique(a.h, b.h, (grid.h * CANVAS_CELL) as nat);
}

// ---- widgets -------------------------------------------------------------

/// A single widget on a dashboard.
#[derive(Debug)]
pub struct Widget {
    pub id: String,
    pub dashboard_id: String,
    pub kind: WidgetKind,
    pub title: String,
    /// Display options of the kind, stored and handed to the renderer.
    pub config: Json,
    pub source: WidgetSource,
    /// The refresh cadence, such as `30s` or `5m`; `None` is the source's default.
    pub refresh_interval: Option<String>,
    pub layout: GridLayout,
    /// The canvas placement; `None` is a widget that was never placed on the canvas.
    pub canvas: Option<CanvasLayout>,
    /// The value that the last successful refresh delivered.
    pub last_value: Option<Json>,
    pub last_refresh_at: Option<String>,
    pub last_error: Option<String>,
}

/// The model of a [`Widget`].
pub struct WidgetView {
    pub id: Seq<char>,
    pub dashboard_id: Seq<char>,
    pub kind: WidgetKind,
    pub title: Seq<char>,
    pub config: JsonView,
    pub source: SourceView,
    pub refresh_interval: Option<Seq<char>>,
    pub layout: GridLayout,
    pub canvas: Option<CanvasLayout>,
    pub last_value: Option<JsonView>,
    pub last_refresh_at: Option<Seq<char>>,
    pub last_error: Option<Seq<char>>,
}

impl View for Widget {
    type V = WidgetView;

    open spec fn view(&self) -> WidgetView {
        WidgetView {
            id: self.id@,
            dashboard_id: self.dashboard_id@,
            kind: self.kind,
            title: self.title@,
            config: self.config@,
            source: self.source@,
            refresh_interval: opt_text(self.refresh_interval),
            layout: self.layout,
            canvas: self.canvas,
            last_value: opt_tree(self.last_value),
            last_refresh_at: opt_text(self.last_refresh_at),
            last_error: opt_text(self.last_error),
        }
    }
}

/// A copy of an optional value.
pub fn copy_value(v: &Option<Json>) -> (r: Option<Json>)
    ensures
        opt_tree(r) == opt_tree(*v),
{
    match v {
        Some(j) => Some(j.clone()),
        None => None,
    }
}

impl Clone for Widget {
    fn clone(&self) -> (r: Widget)
        ensures
            r@ == self@,
    {
        Widget {
            id: self.id.clone(),
            dashboard_id: self.dashboard_id.clone(),
            kind: self.kind,
            title: self.title.clone(),
            config: self.config.clone(),
            source: self.source.clone(),
            refresh_interval: copy_opt(&self.refresh_interval),
            layout: self.layout,
            canvas: self.canvas,
            last_value: copy_value(&self.last_value),
            last_refresh_at: copy_opt(&self.last_refresh_at),
            last_error: copy_opt(&self.last_error),
        }
    }
}

impl SourceView {
    /// The interval of a widget with this source: what its cadence was read as, raised to
    /// the source's minimum, or the source's default.
    pub open spec fn interval(self, cadence: Option<u64>) -> u64 {
        match cadence {
            Some(secs) => if secs < self.min_interval() {
                self.min_interval()
            } else {
                secs
            },
            None => self.default_interval(),
        }
    }
}

impl WidgetSource {
    /// The interval of a widget with this source, given what its cadence was read as.
    pub fn interval_secs(&self, cadence: Option<u64>) -> (r: u64)
        ensures
            r == self@.interval(cadence),
    {
        match cadence {
            Some(secs) => {
                let floor = self.min_interval_secs();
                if secs < floor {
                    floor
                } else {
                    secs
                }
            },
            None => self.default_interval_secs(),
        }
    }
}

impl WidgetView {
    /// What the widget's cadence is read as: `None` when it is unset, blank or unreadable.
    pub open spec fn cadence(self) -> Option<u64> {
        match self.refresh_interval {
            Some(s) if !blank(s) => read_secs(trimmed(s)),
            _ => None,
        }
    }

    /// The refresh interval in seconds.
    pub open spec fn effective_interval(self) -> u64 {
        self.source.interval(self.cadence())
    }
}

impl Widget {
    /// The effective refresh interval in seconds: the cadence raised to the source's
    /// minimum, or the source's default when the cadence is unset or unreadable.
    pub fn effective_interval_secs(&self) -> (r: u64)
        ensures
            r == self@.effective_interval(),
    {
        let cadence: Option<u64> = match &self.refresh_interval {
            Some(s) => {
                let t = trim(s.as_str());
                if t.as_str().is_empty() {
                    None
                } else {
                    read_cadence(t.as_str())
                }
            },
            None => None,
        };
        self.source.interval_secs(cadence)
    }

    /// The canvas position and size: the persisted one, or the derivation from the grid
    /// layout.
    pub fn effective_canvas(&self) -> (r: CanvasLayout)
        ensures
            shown_at(r, self@),
    {
        match self.canvas {
            Some(c) => c,
            None => CanvasLayout::from_grid(&self.layout),
        }
    }
}

/// No cadence makes a widget refresh more often than its source allows.
pub proof fn law_interval_never_below_floor(w: WidgetView)
    ensures
        w.effective_interval() >= w.source.min_interval(),
{
}

// ---- events --------------------------------------------------------------

/// A change that is told to the live subscribers.
#[derive(Debug)]
pub enum DashboardEvent {
    /// A widget refreshed with fresh data.
    WidgetData { dashboard_id: String, widget_id: String, value: Json, at: String },
    /// A widget's refresh failed.
    WidgetError { dashboard_id: String, widget_id: String, error: String, at: String },
    /// A widget was created or edited.
    WidgetUpdated { dashboard_id: String, widget: Widget },
    /// A widget was removed.
    WidgetDeleted { dashboard_id: String, widget_id: String },
    /// A dashboard was created, renamed or deleted.
    DashboardUpdated { dashboard_id: String },
}

/// The model of a [`DashboardEvent`].
pub enum EventView {
    WidgetData { dashboard_id: Seq<char>, widget_id: Seq<char>, value: JsonView, at: Seq<char> },
    WidgetError { dashboard_id: Seq<char>, widget_id: Seq<char>, error: Seq<char>, at: Seq<char> },
    WidgetUpdated { dashboard_id: Seq<char>, widget: WidgetView },
    WidgetDeleted { dashboard_id: Seq<char>, widget_id: Seq<char> },
    DashboardUpdated { dashboard_id: Seq<char> },
}

impl View for DashboardEvent {
    type V = EventView;

    open spec fn view(&self) -> EventView {
        match *self {
            DashboardEvent::WidgetData { dashboard_id, widget_id, value, at } =>
                EventView::WidgetData {
                    dashboard_id: dashboard_id@,
                    widget_id: widget_id@,
                    value: value@,
                    at: at@,
                },
            DashboardEvent::WidgetError { dashboard_id, widget_id, error, at } =>
                EventView::WidgetError {
                    dashboard_id: dashboard_id@,
                    widget_id: widget_id@,
                    error: error@,
                    at: at@,
                },
            DashboardEvent::WidgetUpdated { dashboard_id, widget } => EventView::WidgetUpdated {
                dashboard_id: dashboard_id@,
                widget: widget@,
            },
            DashboardEvent::WidgetDeleted { dashboard_id, widget_id } => EventView::WidgetDeleted {
                dashboard_id: dashboard_id@,
                widget_id: widget_id@,
            },
            DashboardEvent::DashboardUpdated { dashboard_id } => EventView::DashboardUpdated {
                dashboard_id: dashboard_id@,
            },
        }
    }
}

} // verus!
