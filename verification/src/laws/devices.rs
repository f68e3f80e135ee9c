//! Bindings, settings and panels of devices.

use vstd::prelude::*;

use crate::device::{
    class_profile, configured, device_profile, ensured, live_binding, palette_of, rated,
    screen_tree, shown_on,
};
use crate::json::{JsonView, NumberView};
use crate::laws::replacing::{
    good_item, id_in_batch, law_batches_are_read_back, law_batches_leave_nothing_else,
    law_batches_touch_widgets_only, law_good_batches_are_accepted, same_definition,
};
use crate::model::{DeviceView, WidgetView};
use crate::panel::{DeviceProfile, Palette};
use crate::replace::{law_rejected_batch_changes_nothing, replaced};
use crate::store::{law_written_binding_is_read, law_written_dashboard_is_read, readable_on, StoreView};
use crate::table::{by_creation, found, law_put_keeps_keys_unique, lemma_place_from};

verus! {

// ---- bindings ------------------------------------------------------------

proof fn lemma_found_key(devices: Seq<DeviceView>, id: Seq<char>)
    ensures
        found(devices, id) matches Some(dd) ==> dd.device_id == id,
{
    lemma_place_from(devices, id, 0);
}

/// A text that is not the given one.
proof fn lemma_other(s: Seq<char>)
    ensures
        seq!['x'] + s != s,
{
    assert((seq!['x'] + s).len() != s.len());
}

/// A device that is bound to a dashboard that exists keeps its binding, and nothing changes.
pub proof fn law_bound_devices_keep_their_binding(
    s: StoreView,
    device_id: Seq<char>,
    dd: DeviceView,
    name: Seq<char>,
    id: Seq<char>,
    now: Seq<char>,
)
    requires
        found(s.devices, device_id) == Some(dd),
        s.dashboard(dd.dashboard_id) matches Ok(Some(_)),
    ensures
        ensured(s, device_id, name, id, now) == (Ok::<DeviceView, Seq<char>>(dd), s),
{
}

/// A device without a binding, or whose dashboard is gone, is bound to a new dashboard of the
/// given id that bears its name, with a poll interval of five minutes. What is stored is what is
/// answered, but for the time of an earlier binding's creation; no widget changes, nor the
/// binding of another device.
pub proof fn law_unbound_devices_get_a_dashboard(
    s: StoreView,
    device_id: Seq<char>,
    name: Seq<char>,
    id: Seq<char>,
    now: Seq<char>,
    other: Seq<char>,
)
    requires
        found(s.devices, device_id) matches Some(dd) ==> s.dashboard(dd.dashboard_id) == Ok::<
            Option<crate::model::DashboardView>,
            Seq<char>,
        >(None),
        other != device_id,
    ensures
        ({
            let (r, after) = ensured(s, device_id, name, id, now);
            &&& r matches Ok(dd)
            &&& dd.device_id == device_id && dd.dashboard_id == id && dd.refresh_rate == 300
            &&& dd.created_at == now && dd.updated_at == now
            &&& found(after.devices, device_id) matches Some(row)
            &&& row.dashboard_id == id && row.refresh_rate == 300 && row.updated_at == now
            &&& after.dashboard(id) matches Ok(Some(d))
            &&& d.id == id && d.name == name + " display"@ && d.view_mode is None
            &&& d.created_at == now && d.updated_at == now
            &&& after.widgets == s.widgets
            &&& found(after.devices, other) == found(s.devices, other)
        }),
{
    let d = crate::device::device_dashboard(name, id, now);
    let dd = crate::device::new_binding(device_id, id, now);
    law_written_dashboard_is_read(s, d, seq!['x'] + id);
    lemma_other(id);
    law_written_binding_is_read(s.with_dashboard(d), dd, other);
}

/// Where the dashboard of a device cannot be read, nothing is made and the error is told.
pub proof fn law_unreadable_dashboards_are_not_replaced(
    s: StoreView,
    device_id: Seq<char>,
    dd: DeviceView,
    name: Seq<char>,
    id: Seq<char>,
    now: Seq<char>,
    e: Seq<char>,
)
    requires
        found(s.devices, device_id) == Some(dd),
        s.dashboard(dd.dashboard_id) == Err::<Option<crate::model::DashboardView>, Seq<char>>(e),
    ensures
        ensured(s, device_id, name, id, now) == (Err::<DeviceView, Seq<char>>(e), s),
{
}

/// What a device shows are the widgets of the dashboard that it is bound to, the oldest first,
/// on its own panel.
pub proof fn law_devices_show_their_dashboard(
    s: StoreView,
    dd: DeviceView,
    device_type: Seq<char>,
    prefs: JsonView,
)
    ensures
        shown_on(s, dd, device_type, prefs).binding == dd,
        shown_on(s, dd, device_type, prefs).widgets == readable_on(
            by_creation(s.widgets),
            dd.dashboard_id,
        ),
        shown_on(s, dd, device_type, prefs).profile == device_profile(device_type, prefs),
{
}

// ---- settings ------------------------------------------------------------

proof fn lemma_ensured_binding(
    s: StoreView,
    device_id: Seq<char>,
    name: Seq<char>,
    id: Seq<char>,
    now: Seq<char>,
)
    requires
        ensured(s, device_id, name, id, now).0 is Ok,
    ensures
        ({
            let (r, after) = ensured(s, device_id, name, id, now);
            &&& r->Ok_0.device_id == device_id
            &&& found(after.devices, device_id) matches Some(row)
            &&& row.dashboard_id == r->Ok_0.dashboard_id
            &&& row.refresh_rate == r->Ok_0.refresh_rate
        }),
{
    lemma_found_key(s.devices, device_id);
    if live_binding(s, device_id) matches Ok(None) {
        law_unbound_devices_get_a_dashboard(s, device_id, name, id, now, seq!['x'] + device_id);
        lemma_other(device_id);
    }
}

/// A poll interval that a request gives is set when the request is accepted, whatever else the
/// request gives: the answer and the stored binding of the device both tell it, raised to the
/// thirty seconds that are the least.
pub proof fn law_given_poll_intervals_are_set(
    s: StoreView,
    device_id: Seq<char>,
    name: Seq<char>,
    n: u32,
    widgets: Option<Option<Seq<Result<WidgetView, Seq<char>>>>>,
    id: Seq<char>,
    made_at: Seq<char>,
    rated_at: Seq<char>,
    fresh: Seq<Seq<char>>,
    times: Seq<Seq<char>>,
)
    requires
        configured(s, device_id, name, Some(n), widgets, id, made_at, rated_at, fresh, times).0 is Ok,
    ensures
        ({
            let (r, after) = configured(
                s,
                device_id,
                name,
                Some(n),
                widgets,
                id,
                made_at,
                rated_at,
                fresh,
                times,
            );
            let told = if n < 30 {
                30
            } else {
                n
            };
            &&& r->Ok_0.1 == told
            &&& found(after.devices, device_id) matches Some(dd)
            &&& dd.refresh_rate == told
            &&& dd.dashboard_id == r->Ok_0.0
            &&& dd.updated_at == rated_at
        }),
{
    lemma_ensured_binding(s, device_id, name, id, made_at);
    let (binding, after) = ensured(s, device_id, name, id, made_at);
    let (dd, set) = rated(after, binding->Ok_0, Some(n), rated_at);
    law_written_binding_is_read(after, dd, seq!['x'] + device_id);
    lemma_other(device_id);
    if let Some(items) = widgets {
        law_batches_touch_widgets_only(set, dd.dashboard_id, items, fresh, times);
    }
}

/// A request that gives no poll interval leaves the one of the device's binding, and answers
/// with it.
pub proof fn law_absent_poll_intervals_stay(
    s: StoreView,
    device_id: Seq<char>,
    name: Seq<char>,
    widgets: Option<Option<Seq<Result<WidgetView, Seq<char>>>>>,
    id: Seq<char>,
    made_at: Seq<char>,
    rated_at: Seq<char>,
    fresh: Seq<Seq<char>>,
    times: Seq<Seq<char>>,
)
    requires
        configured(s, device_id, name, None, widgets, id, made_at, rated_at, fresh, times).0 is Ok,
    ensures
        ({
            let (r, after) = configured(
                s,
                device_id,
                name,
                None,
                widgets,
                id,
                made_at,
                rated_at,
                fresh,
                times,
            );
            let (binding, bound) = ensured(s, device_id, name, id, made_at);
            &&& binding matches Ok(first)
            &&& r->Ok_0 == (first.dashboard_id, first.refresh_rate)
            &&& after.devices == bound.devices
            &&& found(after.devices, device_id) matches Some(dd)
            &&& dd.refresh_rate == first.refresh_rate && dd.dashboard_id == first.dashboard_id
        }),
{
    lemma_ensured_binding(s, device_id, name, id, made_at);
    let (binding, after) = ensured(s, device_id, name, id, made_at);
    let first = binding->Ok_0;
    if let Some(items) = widgets {
        law_batches_touch_widgets_only(after, first.dashboard_id, items, fresh, times);
    }
}

proof fn lemma_ensured_wf(
    s: StoreView,
    device_id: Seq<char>,
    name: Seq<char>,
    id: Seq<char>,
    now: Seq<char>,
)
    requires
        s.wf(),
    ensures
        ensured(s, device_id, name, id, now).1.wf(),
{
    if live_binding(s, device_id) matches Ok(None) {
        let d = crate::device::device_dashboard(name, id, now);
        let dd = crate::device::new_binding(device_id, id, now);
        let row = crate::store::DashboardRowView {
            id,
            body: Some(d),
            created_at: match found(s.dashboards, id) {
                Some(old_row) => old_row.created_at,
                None => now,
            },
            updated_at: now,
        };
        let next = crate::table::with_row(s.dashboards, row);
        law_put_keeps_keys_unique(s.dashboards, row);
        lemma_place_from(s.dashboards, id, 0);
        assert forall|i: int| 0 <= i < next.len() implies ((#[trigger] next[i]).body matches Some(
            b,
        ) ==> b.id == next[i].id) by {
            if i < s.dashboards.len() {
                assert(next[i] == row || next[i] == s.dashboards[i]);
            }
        }
        lemma_device_wf(s.with_dashboard(d), dd);
    }
}

proof fn lemma_device_wf(s: StoreView, dd: DeviceView)
    requires
        s.wf(),
    ensures
        s.with_device(dd).wf(),
{
    let row = DeviceView {
        created_at: match found(s.devices, dd.device_id) {
            Some(old_row) => old_row.created_at,
            None => dd.created_at,
        },
        ..dd
    };
    law_put_keeps_keys_unique(s.devices, row);
}

/// The widgets that an accepted request gives become those of the device's dashboard: each is
/// read there as it was given, unless a later one has the same id, and no other is.
pub proof fn law_given_widgets_become_the_devices(
    s: StoreView,
    device_id: Seq<char>,
    name: Seq<char>,
    rate: Option<u32>,
    items: Seq<Result<WidgetView, Seq<char>>>,
    id: Seq<char>,
    made_at: Seq<char>,
    rated_at: Seq<char>,
    fresh: Seq<Seq<char>>,
    times: Seq<Seq<char>>,
    i: int,
    given: WidgetView,
    other: Seq<char>,
)
    requires
        s.wf(),
        configured(
            s,
            device_id,
            name,
            rate,
            Some(Some(items)),
            id,
            made_at,
            rated_at,
            fresh,
            times,
        ).0 is Ok,
    ensures
        ({
            let (r, after) = configured(
                s,
                device_id,
                name,
                rate,
                Some(Some(items)),
                id,
                made_at,
                rated_at,
                fresh,
                times,
            );
            let d = r->Ok_0.0;
            &&& (0 <= i < items.len() && items[i] == Ok::<WidgetView, Seq<char>>(given) && forall|j: int|
                i < j < items.len() ==> id_in_batch((#[trigger] items[j])->Ok_0, fresh[j])
                    != id_in_batch(given, fresh[i])) ==> (after.widget_on(
                d,
                id_in_batch(given, fresh[i]),
            ) matches Ok(Some(w)) && same_definition(w, given, d))
            &&& (forall|j: int|
                0 <= j < items.len() ==> id_in_batch((#[trigger] items[j])->Ok_0, fresh[j])
                    != other) ==> !(after.widget_on(d, other) matches Ok(Some(_)))
        }),
{
    lemma_ensured_wf(s, device_id, name, id, made_at);
    let (binding, bound) = ensured(s, device_id, name, id, made_at);
    let (dd, set) = rated(bound, binding->Ok_0, rate, rated_at);
    if rate is Some {
        lemma_device_wf(bound, dd);
    }
    let d = dd.dashboard_id;
    if 0 <= i < items.len() && items[i] == Ok::<WidgetView, Seq<char>>(given) && (forall|j: int|
        i < j < items.len() ==> id_in_batch((#[trigger] items[j])->Ok_0, fresh[j]) != id_in_batch(
            given,
            fresh[i],
        )) {
        law_batches_are_read_back(set, d, items, fresh, times, i, given);
    }
    law_batches_leave_nothing_else(set, d, items, fresh, times, other);
}

/// A request that gives no widgets leaves every widget.
pub proof fn law_absent_widgets_stay(
    s: StoreView,
    device_id: Seq<char>,
    name: Seq<char>,
    rate: Option<u32>,
    id: Seq<char>,
    made_at: Seq<char>,
    rated_at: Seq<char>,
    fresh: Seq<Seq<char>>,
    times: Seq<Seq<char>>,
)
    ensures
        configured(s, device_id, name, rate, None, id, made_at, rated_at, fresh, times).1.widgets
            == s.widgets,
        configured(s, device_id, name, rate, None, id, made_at, rated_at, fresh, times).0 is Ok
            <==> ensured(s, device_id, name, id, made_at).0 is Ok,
{
}

/// A batch that is refused is answered with what is wrong with it, and leaves every widget.
pub proof fn law_refused_batches_leave_every_widget(
    s: StoreView,
    device_id: Seq<char>,
    name: Seq<char>,
    rate: Option<u32>,
    items: Option<Seq<Result<WidgetView, Seq<char>>>>,
    id: Seq<char>,
    made_at: Seq<char>,
    rated_at: Seq<char>,
    fresh: Seq<Seq<char>>,
    times: Seq<Seq<char>>,
)
    ensures
        ({
            let (r, after) = configured(
                s,
                device_id,
                name,
                rate,
                Some(items),
                id,
                made_at,
                rated_at,
                fresh,
                times,
            );
            &&& r is Err ==> after.widgets == s.widgets
            &&& ensured(s, device_id, name, id, made_at).0 matches Ok(first) ==> {
                let (count, _) = replaced(
                    rated(
                        ensured(s, device_id, name, id, made_at).1,
                        first,
                        rate,
                        rated_at,
                    ).1,
                    first.dashboard_id,
                    items,
                    fresh,
                    times,
                );
                count matches Err(e) ==> r == Err::<(Seq<char>, u32), Seq<char>>(e)
            }
        }),
{
    let (binding, bound) = ensured(s, device_id, name, id, made_at);
    if let Ok(first) = binding {
        let (dd, set) = rated(bound, first, rate, rated_at);
        law_rejected_batch_changes_nothing(set, dd.dashboard_id, items, fresh, times);
    }
}

/// Settings are accepted when the device's dashboard can be ensured and the widgets, where some
/// are given, are good ones whose ids belong to no other dashboard.
pub proof fn law_good_settings_are_accepted(
    s: StoreView,
    device_id: Seq<char>,
    name: Seq<char>,
    rate: Option<u32>,
    items: Seq<Result<WidgetView, Seq<char>>>,
    id: Seq<char>,
    made_at: Seq<char>,
    rated_at: Seq<char>,
    fresh: Seq<Seq<char>>,
    times: Seq<Seq<char>>,
)
    requires
        ensured(s, device_id, name, id, made_at).0 matches Ok(first) && forall|i: int|
            0 <= i < items.len() ==> (good_item(#[trigger] items[i]) && (found(
                s.widgets,
                id_in_batch(items[i]->Ok_0, fresh[i]),
            ) matches Some(row) ==> row.dashboard_id == first.dashboard_id)),
    ensures
        configured(
            s,
            device_id,
            name,
            rate,
            Some(Some(items)),
            id,
            made_at,
            rated_at,
            fresh,
            times,
        ).0 is Ok,
        configured(s, device_id, name, rate, None, id, made_at, rated_at, fresh, times).0 is Ok,
{
    let (binding, bound) = ensured(s, device_id, name, id, made_at);
    let (dd, set) = rated(bound, binding->Ok_0, rate, rated_at);
    assert(set.widgets == s.widgets);
    law_good_batches_are_accepted(set, dd.dashboard_id, items, fresh, times);
}

// ---- panels --------------------------------------------------------------

/// A watch has a colour screen of 240 by 240 pixels; a device of any other class has the desk's
/// 800 by 480 of one bit.
pub proof fn law_classes_have_their_panel(device_type: Seq<char>)
    ensures
        class_profile("watch"@).w == 240 && class_profile("watch"@).h == 240 && class_profile(
            "watch"@,
        ).bit_depth == 24 && class_profile("watch"@).palette == Palette::Rgba && class_profile(
            "watch"@,
        ).rotation == 0,
        device_type != "watch"@ ==> class_profile(device_type).w == 800 && class_profile(
            device_type,
        ).h == 480 && class_profile(device_type).bit_depth == 1 && class_profile(
            device_type,
        ).palette == Palette::Mono && class_profile(device_type).rotation == 0,
{
}

/// Preferences without a screen object leave the panel of the class.
pub proof fn law_other_preferences_leave_the_panel(device_type: Seq<char>, prefs: JsonView)
    requires
        prefs matches JsonView::Object(m) ==> !m.dom().contains("screen"@) || !(m["screen"@] is Object),
    ensures
        device_profile(device_type, prefs) == class_profile(device_type),
{
}

/// Whether a member of an object is absent or no whole number.
pub open spec fn no_number(m: Map<Seq<char>, JsonView>, key: Seq<char>) -> bool {
    !m.dom().contains(key) || !(m[key] matches JsonView::Number(NumberView::PosInt(_)))
}

/// A field of the panel is what the screen of the preferences says of it, as far as the field
/// can hold it, and else that of the class; each on its own.
pub proof fn law_preferences_set_each_field(
    device_type: Seq<char>,
    m: Map<Seq<char>, JsonView>,
    screen: Map<Seq<char>, JsonView>,
    n: u64,
    name: Seq<char>,
)
    requires
        m.dom().contains("screen"@) && m["screen"@] == JsonView::Object(screen),
    ensures
        ({
            let p = device_profile(device_type, JsonView::Object(m));
            let whole = JsonView::Number(NumberView::PosInt(n));
            let class = class_profile(device_type);
            &&& screen.dom().contains("w"@) && screen["w"@] == whole && n <= u32::MAX ==> p.w == n
            &&& screen.dom().contains("h"@) && screen["h"@] == whole && n <= u32::MAX ==> p.h == n
            &&& screen.dom().contains("bit_depth"@) && screen["bit_depth"@] == whole && n <= u8::MAX
                ==> p.bit_depth == n
            &&& screen.dom().contains("rotation"@) && screen["rotation"@] == whole && n <= u16::MAX
                ==> p.rotation == n
            &&& screen.dom().contains("palette"@) && screen["palette"@] == JsonView::String(name)
                ==> p.palette == palette_of(name)
            &&& screen.dom().contains("w"@) && screen["w"@] == whole ==> p.w == n % 4_294_967_296
            &&& screen.dom().contains("h"@) && screen["h"@] == whole ==> p.h == n % 4_294_967_296
            &&& screen.dom().contains("bit_depth"@) && screen["bit_depth"@] == whole ==> p.bit_depth
                == n % 256
            &&& screen.dom().contains("rotation"@) && screen["rotation"@] == whole ==> p.rotation == n
                % 65_536
            &&& no_number(screen, "w"@) ==> p.w == class.w
            &&& no_number(screen, "h"@) ==> p.h == class.h
            &&& no_number(screen, "bit_depth"@) ==> p.bit_depth == class.bit_depth
            &&& no_number(screen, "rotation"@) ==> p.rotation == class.rotation
            &&& !screen.dom().contains("palette"@) || !(screen["palette"@] is String) ==> p.palette
                == class.palette
        }),
{
    let prefs = JsonView::Object(m);
    let sc = JsonView::Object(screen);
    assert(prefs.member("screen"@) == Some(sc));
}

/// The three palettes are known by their names, and any other name is the one of one bit.
pub proof fn law_palettes_are_known_by_name(name: Seq<char>)
    ensures
        palette_of("rgb565"@) == Palette::Rgb565,
        palette_of("rgba"@) == Palette::Rgba,
        palette_of("mono"@) == Palette::Mono,
        name != "rgb565"@ && name != "rgba"@ ==> palette_of(name) == Palette::Mono,
{
    reveal_strlit("rgb565");
    reveal_strlit("rgba");
    reveal_strlit("mono");
    assert("rgb565"@.len() == 6 && "rgba"@.len() == 4 && "mono"@.len() == 4);
    assert("rgba"@[0] != "mono"@[0]);
}

/// The screen that a device is told holds each field of its panel under its name.
pub proof fn law_screens_tell_each_field(p: DeviceProfile)
    ensures
        screen_tree(p).whole_at("w"@) == Some(p.w as u64),
        screen_tree(p).whole_at("h"@) == Some(p.h as u64),
        screen_tree(p).whole_at("bit_depth"@) == Some(p.bit_depth as u64),
        screen_tree(p).whole_at("rotation"@) == Some(p.rotation as u64),
        screen_tree(p).text_at("palette"@) == Some(
            match p.palette {
                Palette::Mono => "mono"@,
                Palette::Rgba => "rgba"@,
                Palette::Rgb565 => "rgb565"@,
            },
        ),
{
    reveal_strlit("w");
    reveal_strlit("h");
    reveal_strlit("bit_depth");
    reveal_strlit("palette");
    reveal_strlit("rotation");
    assert("w"@[0] != "h"@[0]);
    assert("w"@.len() == 1 && "h"@.len() == 1);
    assert("bit_depth"@.len() == 9 && "palette"@.len() == 7 && "rotation"@.len() == 8);
}

} // verus!
