//! What the models of records tell, and places on the canvas.

use vstd::prelude::*;

use crate::api::{Reply, ReplyBody, ReplyBodyView, WidgetBody};
use crate::clock::{is_generated, is_simple_uuid};
use crate::device::{binding_of, request_items, settings_of, DeviceConfig};
use crate::json::{lemma_trees, members, tree, Json, JsonView, Number, NumberView};
use crate::laws::texts::law_begins_is_a_head;
use crate::model::{
    derived_from, is_double_of, shown_at, two_to, CanvasLayout, Dashboard, DashboardEvent,
    DeviceDashboard, DeviceView, EventView, GridLayout, SourceView, Widget, WidgetSource, WidgetView,
};
use crate::replace::count_of;
use crate::sources::{parse_of, plan_of, Call, CallView, Plan, PlanView};
use crate::store::{
    done_of, lookup_of, outcome_of, DashboardRow, DashboardRowView, DashboardStore, WidgetRow,
    WidgetRowView,
};
use crate::table::{Keyed, Record};
use crate::text::{begins, opt_text, texts};

verus! {

// ---- models --------------------------------------------------------------

/// Whether a model tells of an optional text what it is.
pub open spec fn tells(model: Option<Seq<char>>, text: Option<String>) -> bool {
    match text {
        Some(s) => model == Some(s@),
        None => model is None,
    }
}

/// The model of a widget tells every field of it.
pub proof fn law_widget_models_tell_every_field(w: Widget)
    ensures
        w@.id == w.id@ && w@.dashboard_id == w.dashboard_id@,
        w@.kind == w.kind,
        w@.title == w.title@,
        w@.config == w.config@,
        w@.source == w.source@,
        tells(w@.refresh_interval, w.refresh_interval),
        w@.layout == w.layout,
        w@.canvas == w.canvas,
        w.last_value matches Some(v) ==> w@.last_value == Some(v@),
        w.last_value is None ==> w@.last_value is None,
        tells(w@.last_refresh_at, w.last_refresh_at),
        tells(w@.last_error, w.last_error),
{
}

/// The model of a dashboard, and that of a device's binding, tell every field.
pub proof fn law_dashboard_models_tell_every_field(d: Dashboard, dd: DeviceDashboard)
    ensures
        d@.id == d.id@ && d@.name == d.name@,
        d@.created_at == d.created_at@ && d@.updated_at == d.updated_at@,
        tells(d@.view_mode, d.view_mode),
        dd@.device_id == dd.device_id@ && dd@.dashboard_id == dd.dashboard_id@,
        dd@.refresh_rate == dd.refresh_rate,
        dd@.created_at == dd.created_at@ && dd@.updated_at == dd.updated_at@,
{
}

/// The model of a source tells its variant and every field.
pub proof fn law_source_models_tell_every_field(s: WidgetSource)
    ensures
        match s {
            WidgetSource::Static { data } => s@ == (SourceView::Static { data: data@ }),
            WidgetSource::CoreEndpoint { endpoint, selector } => {
                &&& s@ matches SourceView::CoreEndpoint { endpoint: e, selector: p }
                &&& e == endpoint@ && tells(p, selector)
            },
            WidgetSource::Monitor { monitor_id } => s@ == (SourceView::Monitor {
                monitor_id: monitor_id@,
            }),
            WidgetSource::Workflow { workflow_id, input, output_key } => {
                &&& s@ matches SourceView::Workflow { workflow_id: id, input: list, output_key: key }
                &&& id == workflow_id@ && tells(key, output_key)
                &&& list.len() == input@.len()
                &&& forall|i: int|
                    0 <= i < list.len() ==> #[trigger] list[i] == (input@[i].0@, input@[i].1@)
            },
            WidgetSource::Composio { action, args } => s@ == (SourceView::Composio {
                action: action@,
                args: args@,
            }),
            WidgetSource::Http { url, selector, headers } => {
                &&& s@ matches SourceView::Http { url: u, selector: p, headers: list }
                &&& u == url@ && tells(p, selector)
                &&& list.len() == headers@.len()
                &&& forall|i: int|
                    0 <= i < list.len() ==> #[trigger] list[i] == (headers@[i].0@, headers@[i].1@)
            },
            WidgetSource::Agent { agent_id, prompt } => s@ == (SourceView::Agent {
                agent_id: agent_id@,
                prompt: prompt@,
            }),
        },
{
}

/// The model of an event tells its variant and every field.
pub proof fn law_event_models_tell_every_field(e: DashboardEvent)
    ensures
        match e {
            DashboardEvent::WidgetData { dashboard_id, widget_id, value, at } => e@
                == (EventView::WidgetData {
                dashboard_id: dashboard_id@,
                widget_id: widget_id@,
                value: value@,
                at: at@,
            }),
            DashboardEvent::WidgetError { dashboard_id, widget_id, error, at } => e@
                == (EventView::WidgetError {
                dashboard_id: dashboard_id@,
                widget_id: widget_id@,
                error: error@,
                at: at@,
            }),
            DashboardEvent::WidgetUpdated { dashboard_id, widget } => e@
                == (EventView::WidgetUpdated { dashboard_id: dashboard_id@, widget: widget@ }),
            DashboardEvent::WidgetDeleted { dashboard_id, widget_id } => e@
                == (EventView::WidgetDeleted {
                dashboard_id: dashboard_id@,
                widget_id: widget_id@,
            }),
            DashboardEvent::DashboardUpdated { dashboard_id } => e@
                == (EventView::DashboardUpdated { dashboard_id: dashboard_id@ }),
        },
{
}

/// The model of a row tells every column, and what it holds where that can be read.
pub proof fn law_row_models_tell_every_column(d: DashboardRow, w: WidgetRow)
    ensures
        d.model().id == d.id@,
        d.model().created_at == d.created_at@ && d.model().updated_at == d.updated_at@,
        d.body matches Some(b) ==> d.model().body == Some(b@),
        d.body is None ==> d.model().body is None,
        w.model().id == w.id@ && w.model().dashboard_id == w.dashboard_id@,
        w.model().created_at == w.created_at@ && w.model().updated_at == w.updated_at@,
        w.body matches Some(b) ==> w.model().body == Some(b@),
        w.body is None ==> w.model().body is None,
{
}

/// Dashboards and widgets are keyed by their ids and bindings by their devices; all are listed by
/// the time of their creation.
pub proof fn law_rows_are_keyed_by_id(d: DashboardRowView, w: WidgetRowView, dd: DeviceView)
    ensures
        d.key() == d.id && d.stamp() == d.created_at,
        w.key() == w.id && w.stamp() == w.created_at,
        dd.key() == dd.device_id && dd.stamp() == dd.created_at,
{
}

/// The model of what a device shows tells its binding, each widget and the panel.
pub proof fn law_device_models_tell_what_is_shown(c: DeviceConfig, i: int)
    ensures
        c@.binding == c.binding@,
        c@.profile == c.profile,
        c@.widgets.len() == c.widgets@.len(),
        0 <= i < c.widgets@.len() ==> c@.widgets[i] == c.widgets@[i]@,
{
}

/// The model of a store tells every row of its tables, every waiting event, and who listens.
pub proof fn law_store_models_tell_every_row(s: DashboardStore)
    ensures
        s@.dashboards.len() == s.dashboards.rows@.len(),
        forall|i: int|
            0 <= i < s.dashboards.rows@.len() ==> #[trigger] s@.dashboards[i]
                == s.dashboards.rows@[i].model(),
        s@.widgets.len() == s.widgets.rows@.len(),
        forall|i: int|
            0 <= i < s.widgets.rows@.len() ==> #[trigger] s@.widgets[i] == s.widgets.rows@[i].model(),
        s@.devices.len() == s.devices.rows@.len(),
        forall|i: int|
            0 <= i < s.devices.rows@.len() ==> #[trigger] s@.devices[i] == s.devices.rows@[i]@,
        s@.events.len() == s.events@.len(),
        forall|i: int| 0 <= i < s.events@.len() ==> #[trigger] s@.events[i] == s.events@[i]@,
        s@.viewers == s.viewers,
        s@.receivers == s.receivers,
{
}

/// The model of a request for a widget tells every field of it.
pub proof fn law_request_models_tell_every_field(b: WidgetBody)
    ensures
        tells(b@.id, b.id),
        b@.kind == b.kind,
        tells(b@.title, b.title),
        b.config matches Some(c) ==> b@.config == Some(c@),
        b.config is None ==> b@.config is None,
        b.source matches Some(s) ==> b@.source == Some(s@),
        b.source is None ==> b@.source is None,
        tells(b@.refresh_interval, b.refresh_interval),
        b@.layout == b.layout,
        b@.canvas == b.canvas,
{
}

/// The model of a reply tells its status and its content.
pub proof fn law_reply_models_tell_their_content(r: Reply)
    ensures
        r@.status == r.status,
        r.body matches ReplyBody::Error(e) ==> r@.body == ReplyBodyView::Error(e@),
        r.body is Done ==> r@.body is Done,
        r.body matches ReplyBody::Dashboard(d) ==> r@.body == ReplyBodyView::Dashboard(d@),
        r.body matches ReplyBody::Widget(w) ==> r@.body == ReplyBodyView::Widget(w@),
        r.body matches ReplyBody::Device(c) ==> r@.body == ReplyBodyView::Device(c@),
        r.body matches ReplyBody::Value(v) ==> r@.body == ReplyBodyView::Value(v@),
        r.body matches ReplyBody::Document(v) ==> r@.body == ReplyBodyView::Document(v@),
        r.body matches ReplyBody::Widgets(list) ==> (r@.body matches ReplyBodyView::Widgets(views)
            && views.len() == list@.len() && forall|i: int|
            0 <= i < list@.len() ==> #[trigger] views[i] == list@[i]@),
        r.body matches ReplyBody::Dashboards(list) ==> (r@.body
            matches ReplyBodyView::Dashboards(views) && views.len() == list@.len() && forall|i: int|
            0 <= i < list@.len() ==> #[trigger] views[i] == list@[i]@),
        r.body matches ReplyBody::Opened(d, list) ==> (r@.body
            matches ReplyBodyView::Opened(read, views) && read == d@ && views.len() == list@.len()
            && forall|i: int| 0 <= i < list@.len() ==> #[trigger] views[i] == list@[i]@),
{
}

/// The model of a value is the value: numbers and texts as they are, arrays item by item.
pub proof fn law_value_models_tell_the_value(
    b: bool,
    n: u64,
    m: i64,
    s: String,
    items: Vec<Json>,
    i: int,
)
    ensures
        Json::Null@ == JsonView::Null,
        Json::Bool(b)@ == JsonView::Bool(b),
        Json::Number(Number::PosInt(n))@ == JsonView::Number(NumberView::PosInt(n)),
        Json::Number(Number::NegInt(m))@ == JsonView::Number(NumberView::NegInt(m)),
        Json::Number(Number::Decimal(s))@ == JsonView::Number(NumberView::Decimal(s@)),
        Json::String(s)@ == JsonView::String(s@),
        Json::Array(items)@ matches JsonView::Array(list) && list.len() == items@.len() && (0 <= i
            < items@.len() ==> list[i] == items@[i]@),
{
    lemma_trees(items@);
}

proof fn lemma_members_last(entries: Seq<(String, Json)>, i: int)
    requires
        0 <= i < entries.len(),
        forall|j: int| i < j < entries.len() ==> (#[trigger] entries[j]).0@ != entries[i].0@,
    ensures
        members(entries).dom().contains(entries[i].0@),
        members(entries)[entries[i].0@] == tree(entries[i].1),
    decreases entries.len(),
{
    let rest = entries.drop_last();
    if i < rest.len() {
        assert(rest[i] == entries[i]);
        assert(entries[entries.len() - 1].0@ != entries[i].0@);
        assert forall|j: int| i < j < rest.len() implies (#[trigger] rest[j]).0@ != rest[i].0@ by {
            assert(rest[j] == entries[j]);
        }
        lemma_members_last(rest, i);
    }
}

proof fn lemma_members_come(entries: Seq<(String, Json)>, key: Seq<char>)
    requires
        members(entries).dom().contains(key),
    ensures
        exists|i: int| 0 <= i < entries.len() && (#[trigger] entries[i]).0@ == key,
    decreases entries.len(),
{
    if entries.len() > 0 {
        if entries.last().0@ == key {
            assert(entries[entries.len() - 1].0@ == key);
        } else {
            lemma_members_come(entries.drop_last(), key);
            let i = choose|i: int|
                0 <= i < entries.drop_last().len() && (#[trigger] entries.drop_last()[i]).0@ == key;
            assert(entries[i] == entries.drop_last()[i]);
        }
    }
}

/// The model of an object has a member for each of its keys, of the last entry with that key,
/// and no other.
pub proof fn law_object_models_tell_every_member(
    entries: Vec<(String, Json)>,
    i: int,
    key: Seq<char>,
)
    ensures
        (0 <= i < entries@.len() && forall|j: int|
            i < j < entries@.len() ==> (#[trigger] entries@[j]).0@ != entries@[i].0@)
            ==> Json::Object(entries)@.member(entries@[i].0@) == Some(entries@[i].1@),
        (forall|j: int| 0 <= j < entries@.len() ==> (#[trigger] entries@[j]).0@ != key)
            ==> Json::Object(entries)@.member(key) is None,
{
    if 0 <= i < entries@.len() && (forall|j: int|
        i < j < entries@.len() ==> (#[trigger] entries@[j]).0@ != entries@[i].0@) {
        lemma_members_last(entries@, i);
    }
    if members(entries@).dom().contains(key) {
        lemma_members_come(entries@, key);
    }
}

/// What is read of a value by a key is the member of that key, when it is an object that has
/// one; as a text or a whole number when it is one.
pub proof fn law_members_are_read_by_key(
    m: Map<Seq<char>, JsonView>,
    key: Seq<char>,
    s: Seq<char>,
    n: u64,
    v: JsonView,
)
    ensures
        JsonView::Object(m.insert(key, v)).member(key) == Some(v),
        !m.dom().contains(key) ==> JsonView::Object(m).member(key) is None,
        !(v is Object) ==> v.member(key) is None,
        JsonView::Object(m.insert(key, JsonView::String(s))).text_at(key) == Some(s),
        JsonView::Object(m.insert(key, JsonView::Number(NumberView::PosInt(n)))).whole_at(key)
            == Some(n),
        !(v is String) ==> JsonView::Object(m.insert(key, v)).text_at(key) is None,
        !(v is Number) ==> JsonView::Object(m.insert(key, v)).whole_at(key) is None,
{
}

/// The models of results, and of lists and options of texts, tell what they hold.
pub proof fn law_outcome_models_tell_what_came(
    v: Json,
    s: String,
    list: Vec<String>,
    i: int,
    dd: DeviceDashboard,
    n: u32,
    w: Widget,
    k: usize,
    p: Plan,
)
    ensures
        parse_of(Ok(v)) == Ok::<JsonView, Seq<char>>(v@),
        parse_of(Err(s)) == Err::<JsonView, Seq<char>>(s@),
        outcome_of(Ok(v)) == Ok::<JsonView, Seq<char>>(v@),
        outcome_of(Err(s)) == Err::<JsonView, Seq<char>>(s@),
        binding_of(Ok(dd)) == Ok::<DeviceView, Seq<char>>(dd@),
        binding_of(Err(s)) == Err::<DeviceView, Seq<char>>(s@),
        settings_of(Ok((s, n))) == Ok::<(Seq<char>, u32), Seq<char>>((s@, n)),
        settings_of(Err(s)) == Err::<(Seq<char>, u32), Seq<char>>(s@),
        lookup_of::<Widget>(Ok(Some(w))) == Ok::<Option<WidgetView>, Seq<char>>(Some(w@)),
        lookup_of::<Widget>(Ok(None)) == Ok::<Option<WidgetView>, Seq<char>>(None),
        lookup_of::<Widget>(Err(s)) == Err::<Option<WidgetView>, Seq<char>>(s@),
        done_of(Ok(())) is Ok,
        done_of(Err(s)) == Err::<(), Seq<char>>(s@),
        count_of(Ok(k)) == Ok::<nat, Seq<char>>(k as nat),
        count_of(Err(s)) == Err::<nat, Seq<char>>(s@),
        plan_of(Ok(p)) == Ok::<PlanView, Seq<char>>(p@),
        plan_of(Err(s)) == Err::<PlanView, Seq<char>>(s@),
        opt_text(Some(s)) == Some(s@),
        opt_text(None) is None,
        texts(list@).len() == list@.len(),
        0 <= i < list@.len() ==> texts(list@)[i] == list@[i]@,
{
}

/// The model of a batch tells every item of it: the widget, or why it could not be read.
pub proof fn law_batch_models_tell_every_item(items: Vec<Result<Widget, String>>, i: int)
    ensures
        request_items(None) is None,
        request_items(Some(None)) == Some::<Option<Seq<Result<WidgetView, Seq<char>>>>>(None),
        request_items(Some(Some(items))) matches Some(Some(list)) && list.len() == items@.len() && (0
            <= i < items@.len() ==> match items@[i] {
            Ok(w) => list[i] == Ok::<WidgetView, Seq<char>>(w@),
            Err(e) => list[i] == Err::<WidgetView, Seq<char>>(e@),
        }),
{
}

/// The model of a plan tells the value, or the call with every field of it.
pub proof fn law_plan_models_tell_the_call(v: Json, c: Call)
    ensures
        Plan::Ready(v)@ == PlanView::Ready(v@),
        Plan::Make(c)@ == PlanView::Make(c@),
        match c {
            Call::Loopback { url, path, timeout_secs } => c@ == (CallView::Loopback {
                url: url@,
                path: path@,
                timeout_secs,
            }),
            Call::NodePost { url, body, timeout_secs } => c@ == (CallView::NodePost {
                url: url@,
                body: body@,
                timeout_secs,
            }),
            Call::GatewayPost { url, body, timeout_secs } => c@ == (CallView::GatewayPost {
                url: url@,
                body: body@,
                timeout_secs,
            }),
            Call::Fetch { url, headers } => {
                &&& c@ matches CallView::Fetch { url: u, headers: list }
                &&& u == url@ && list.len() == headers@.len()
                &&& forall|i: int|
                    0 <= i < list.len() ==> #[trigger] list[i] == (headers@[i].0@, headers@[i].1@)
            },
            Call::AgentRun { agent_id, conversation_id, prompt } => c@ == (CallView::AgentRun {
                agent_id: agent_id@,
                conversation_id: conversation_id@,
                prompt: prompt@,
            }),
        },
{
}

/// Generated ids are their prefix and thirty-two hexadecimal digits in lower case.
pub proof fn law_generated_ids_bear_their_prefix(id: Seq<char>)
    ensures
        is_generated(id, "dash_"@) ==> id.len() == 37 && begins(id, "dash_"@),
        is_generated(id, "wgt_"@) ==> id.len() == 36 && begins(id, "wgt_"@),
        is_generated(id, "dash_"@) ==> forall|i: int|
            5 <= i < 37 ==> '0' <= #[trigger] id[i] <= '9' || 'a' <= id[i] <= 'f',
{
    reveal_strlit("dash_");
    reveal_strlit("wgt_");
    if is_generated(id, "dash_"@) {
        let u = choose|u: Seq<char>| #[trigger] is_simple_uuid(u) && id == "dash_"@ + u;
        assert(id.take(5) =~= "dash_"@);
        law_begins_is_a_head(id, "dash_"@);
        assert forall|i: int| 5 <= i < 37 implies '0' <= #[trigger] id[i] <= '9' || 'a' <= id[i]
            <= 'f' by {
            assert(id[i] == u[i - 5]);
        }
    }
    if is_generated(id, "wgt_"@) {
        let u = choose|u: Seq<char>| #[trigger] is_simple_uuid(u) && id == "wgt_"@ + u;
        assert(id.take(4) =~= "wgt_"@);
        law_begins_is_a_head(id, "wgt_"@);
    }
}

// ---- the canvas ----------------------------------------------------------

/// The doubles that stand for whole numbers: zero is no bits, one has the exponent 1023 alone,
/// and twice a number is the next exponent.
pub proof fn law_doubles_of_whole_numbers(bits: u64, n: nat)
    ensures
        is_double_of(bits, 0) <==> bits == 0,
        is_double_of(0x3ff0_0000_0000_0000, 1),
        is_double_of(bits, n) && 0 < n && bits < 0x4330_0000_0000_0000 ==> is_double_of(
            (bits + 0x10_0000_0000_0000) as u64,
            2 * n,
        ),
        two_to(0) == 1,
        two_to(n + 1) == 2 * two_to(n),
{
    assert(two_to(52) == 0x10_0000_0000_0000) by {
        reveal_with_fuel(two_to, 53);
    }
    if is_double_of(bits, n) && 0 < n && bits < 0x4330_0000_0000_0000 {
        let unit: int = 0x10_0000_0000_0000;
        let more = bits + unit;
        let k = bits as int / unit - 1023;
        assert(more / unit == bits as int / unit + 1);
        assert(more % unit == bits as int % unit);
        assert(k < 52);
        let p = two_to((51 - k) as nat);
        assert(two_to((52 - k) as nat) == 2 * p);
        assert(n * (2 * p) == (2 * n) * p) by (nonlinear_arith);
    }
}

/// The bits of a double are its exponent and its significand, which is the number moved up to
/// the leading one.
pub proof fn law_doubles_have_their_significand(bits: u64, n: nat)
    requires
        is_double_of(bits, n),
        n > 0,
    ensures
        ({
            let exponent = bits as int / 4_503_599_627_370_496;
            let fraction = bits as int % 4_503_599_627_370_496;
            &&& 1023 <= exponent <= 1075
            &&& 4_503_599_627_370_496 + fraction == n * two_to((1075 - exponent) as nat)
        }),
{
}

/// A widget that was placed on the canvas is shown there; any other is shown at a hundred pixels
/// for each unit of its place and size on the grid.
pub proof fn law_widgets_are_shown_at_their_place(w: WidgetView, canvas: CanvasLayout)
    requires
        shown_at(canvas, w),
    ensures
        w.canvas matches Some(c) ==> canvas == c,
        w.canvas is None ==> is_double_of(canvas.x, (w.layout.x * 100) as nat),
        w.canvas is None ==> is_double_of(canvas.y, (w.layout.y * 100) as nat),
        w.canvas is None ==> is_double_of(canvas.w, (w.layout.w * 100) as nat),
        w.canvas is None ==> is_double_of(canvas.h, (w.layout.h * 100) as nat),
{
}

/// A canvas place that is derived from the grid is a hundred pixels for each unit.
pub proof fn law_derived_places_are_a_hundredfold(canvas: CanvasLayout, grid: GridLayout)
    requires
        derived_from(canvas, grid),
    ensures
        is_double_of(canvas.x, (grid.x * 100) as nat),
        is_double_of(canvas.y, (grid.y * 100) as nat),
        is_double_of(canvas.w, (grid.w * 100) as nat),
        is_double_of(canvas.h, (grid.h * 100) as nat),
{
}

} // verus!
