//! The dashboards of hardware devices: their panels, their bindings and their settings.

use std::sync::Arc;

use vstd::prelude::*;

use crate::clock::{is_generated, is_stamp, new_dashboard_id, now};
use crate::json::{add_member, members, Json, JsonView, Number, NumberView};
use crate::model::{Dashboard, DashboardView, DeviceDashboard, DeviceView, Widget, WidgetView};
use crate::panel::{palette_name, DeviceProfile, Palette, PanelGeometry};
use crate::render::{paintable, render, rendering, RenderedImage};
use crate::replace::{batch_marks, fresh_ids, opt_items, replace_widgets_as, replaced};
use crate::store::{readable_on, widget_views, DashboardStore, StoreView};
use crate::table::{by_creation, found, law_removed_is_not_found};
use crate::text::{same_text, texts};

verus! {

/// The shortest poll interval, in seconds, that a device is told.
pub const MIN_REFRESH_RATE: u32 = 30;

/// The poll interval, in seconds, of a device that sets none.
pub const DEFAULT_REFRESH_RATE: u32 = 300;

// ---- panels --------------------------------------------------------------

/// The panel of a class of devices: the watch has a colour screen, and every other class the
/// panel of the desk.
pub open spec fn class_profile(device_type: Seq<char>) -> DeviceProfile {
    if device_type == "watch"@ {
        DeviceProfile { w: 240, h: 240, bit_depth: 24, palette: Palette::Rgba, rotation: 0 }
    } else {
        DeviceProfile { w: 800, h: 480, bit_depth: 1, palette: Palette::Mono, rotation: 0 }
    }
}

/// The palette of a name. An unknown name is the one-bit palette.
pub open spec fn palette_of(name: Seq<char>) -> Palette {
    if name == "rgb565"@ {
        Palette::Rgb565
    } else if name == "rgba"@ {
        Palette::Rgba
    } else {
        Palette::Mono
    }
}

/// A profile with the fields that a `screen` object sets. Numbers keep the low bits that
/// their fields hold.
pub open spec fn overridden(p: DeviceProfile, screen: JsonView) -> DeviceProfile {
    DeviceProfile {
        w: match screen.whole_at("w"@) {
            Some(n) => (n % 0x1_0000_0000) as u32,
            None => p.w,
        },
        h: match screen.whole_at("h"@) {
            Some(n) => (n % 0x1_0000_0000) as u32,
            None => p.h,
        },
        bit_depth: match screen.whole_at("bit_depth"@) {
            Some(n) => (n % 0x100) as u8,
            None => p.bit_depth,
        },
        palette: match screen.text_at("palette"@) {
            Some(name) => palette_of(name),
            None => p.palette,
        },
        rotation: match screen.whole_at("rotation"@) {
            Some(n) => (n % 0x1_0000) as u16,
            None => p.rotation,
        },
    }
}

/// The panel of a device: that of its class, with what the saved preferences override.
pub open spec fn device_profile(device_type: Seq<char>, prefs: JsonView) -> DeviceProfile {
    match prefs.member("screen"@) {
        Some(screen) if screen is Object => overridden(class_profile(device_type), screen),
        _ => class_profile(device_type),
    }
}

/// The panel of a device.
pub fn profile_for_device(device_type: &str, prefs: &Json) -> (r: DeviceProfile)
    ensures
        r == device_profile(device_type@, prefs@),
{
    let mut profile = if same_text(device_type, "watch") {
        DeviceProfile::watch_lcd()
    } else {
        DeviceProfile::desk_eink()
    };
    if let Some(screen) = prefs.get("screen") {
        if let Json::Object(_) = screen {
            if let Some(n) = screen.u64_at("w") {
                profile.w = (n % 0x1_0000_0000) as u32;
            }
            if let Some(n) = screen.u64_at("h") {
                profile.h = (n % 0x1_0000_0000) as u32;
            }
            if let Some(n) = screen.u64_at("bit_depth") {
                profile.bit_depth = (n % 0x100) as u8;
            }
            if let Some(n) = screen.u64_at("rotation") {
                profile.rotation = (n % 0x1_0000) as u16;
            }
            if let Some(name) = screen.str_at("palette") {
                profile.palette = if same_text(name, "rgb565") {
                    Palette::Rgb565
                } else if same_text(name, "rgba") {
                    Palette::Rgba
                } else {
                    Palette::Mono
                };
            }
        }
    }
    profile
}

/// A whole number as a value.
pub open spec fn whole_tree(n: u64) -> JsonView {
    JsonView::Number(NumberView::PosInt(n))
}

/// The `screen` object of a profile.
pub open spec fn screen_tree(p: DeviceProfile) -> JsonView {
    JsonView::Object(
        map![
            "w"@ => whole_tree(p.w as u64),
            "h"@ => whole_tree(p.h as u64),
            "bit_depth"@ => whole_tree(p.bit_depth as u64),
            "palette"@ => JsonView::String(palette_name(p.palette)),
            "rotation"@ => whole_tree(p.rotation as u64),
        ],
    )
}

/// The `screen` object of a profile, as the manifest and the settings echo it.
pub fn screen_json(profile: &DeviceProfile) -> (r: Json)
    ensures
        r@ == screen_tree(*profile),
{
    let mut entries: Vec<(String, Json)> = Vec::new();
    add_member(&mut entries, "w", Json::Number(Number::PosInt(profile.w as u64)));
    add_member(&mut entries, "h", Json::Number(Number::PosInt(profile.h as u64)));
    add_member(&mut entries, "bit_depth", Json::Number(Number::PosInt(profile.bit_depth as u64)));
    add_member(&mut entries, "palette", Json::String(profile.palette.as_str().to_owned()));
    add_member(&mut entries, "rotation", Json::Number(Number::PosInt(profile.rotation as u64)));
    assert(members(entries@) =~= screen_tree(*profile)->Object_0);
    Json::Object(entries)
}

/// A device that saves the screen that it was told is told the same screen again.
pub proof fn law_echoed_screen_is_kept(device_type: Seq<char>, p: DeviceProfile)
    ensures
        device_profile(
            device_type,
            JsonView::Object(map!["screen"@ => screen_tree(p)]),
        ) == p,
{
    reveal_strlit("w");
    reveal_strlit("h");
    reveal_strlit("bit_depth");
    reveal_strlit("palette");
    reveal_strlit("rotation");
    reveal_strlit("mono");
    reveal_strlit("rgba");
    reveal_strlit("rgb565");
    assert("w"@[0] != "h"@[0]);
    assert("w"@.len() == 1 && "h"@.len() == 1);
    assert("bit_depth"@.len() == 9 && "palette"@.len() == 7 && "rotation"@.len() == 8);
    assert("mono"@.len() == 4 && "rgba"@.len() == 4 && "rgb565"@.len() == 6);
    assert("mono"@[0] != "rgba"@[0]);
    let screen = screen_tree(p);
    assert(screen.whole_at("w"@) == Some(p.w as u64));
    assert(screen.whole_at("h"@) == Some(p.h as u64));
    assert(screen.whole_at("bit_depth"@) == Some(p.bit_depth as u64));
    assert(screen.whole_at("rotation"@) == Some(p.rotation as u64));
    assert(screen.text_at("palette"@) == Some(palette_name(p.palette)));
    assert(palette_of(palette_name(p.palette)) == p.palette);
}

// ---- bindings ------------------------------------------------------------

/// The binding of a device, if its dashboard still exists, or why that cannot be told.
pub open spec fn live_binding(s: StoreView, device_id: Seq<char>) -> Result<
    Option<DeviceView>,
    Seq<char>,
> {
    match found(s.devices, device_id) {
        Some(dd) => match s.dashboard(dd.dashboard_id) {
            Ok(Some(_)) => Ok(Some(dd)),
            Ok(None) => Ok(None),
            Err(e) => Err(e),
        },
        None => Ok(None),
    }
}

/// The dashboard that is made for a device.
pub open spec fn device_dashboard(name: Seq<char>, id: Seq<char>, now: Seq<char>) -> DashboardView {
    DashboardView {
        id,
        name: name + " display"@,
        created_at: now,
        updated_at: now,
        view_mode: None,
    }
}

/// The binding that is made for a device.
pub open spec fn new_binding(device_id: Seq<char>, id: Seq<char>, now: Seq<char>) -> DeviceView {
    DeviceView {
        device_id,
        dashboard_id: id,
        refresh_rate: DEFAULT_REFRESH_RATE,
        created_at: now,
        updated_at: now,
    }
}

/// The binding of a device, and the store after it was ensured: the one that there is, or a
/// new one with a new dashboard of the given id.
pub open spec fn ensured(
    s: StoreView,
    device_id: Seq<char>,
    name: Seq<char>,
    id: Seq<char>,
    now: Seq<char>,
) -> (Result<DeviceView, Seq<char>>, StoreView) {
    match live_binding(s, device_id) {
        Err(e) => (Err(e), s),
        Ok(Some(dd)) => (Ok(dd), s),
        Ok(None) => (
            Ok(new_binding(device_id, id, now)),
            s.with_dashboard(device_dashboard(name, id, now)).with_device(
                new_binding(device_id, id, now),
            ),
        ),
    }
}

/// The model of a binding or an error.
pub open spec fn binding_of(r: Result<DeviceDashboard, String>) -> Result<DeviceView, Seq<char>> {
    match r {
        Ok(dd) => Ok(dd@),
        Err(e) => Err(e@),
    }
}

/// Ensures that a device has a dashboard, with the given id and time for a new one.
pub fn ensure_device_dashboard_as(
    store: &mut DashboardStore,
    device_id: &str,
    device_name: &str,
    id: &str,
    now: &str,
) -> (r: Result<DeviceDashboard, String>)
    requires
        old(store)@.wf(),
    ensures
        (binding_of(r), final(store)@) == ensured(
            old(store)@,
            device_id@,
            device_name@,
            id@,
            now@,
        ),
        final(store)@.wf(),
{
    if let Some(dd) = store.get_device_dashboard(device_id) {
        match store.get_dashboard(dd.dashboard_id.as_str()) {
            Ok(Some(_)) => return Ok(dd),
            Ok(None) => {},
            Err(e) => return Err(e),
        }
    }
    let mut name = device_name.to_owned();
    name.append(" display");
    let dashboard = Dashboard {
        id: id.to_owned(),
        name,
        created_at: now.to_owned(),
        updated_at: now.to_owned(),
        view_mode: None,
    };
    assert(dashboard@ == device_dashboard(device_name@, id@, now@));
    store.upsert_dashboard(&dashboard);
    let dd = DeviceDashboard {
        device_id: device_id.to_owned(),
        dashboard_id: id.to_owned(),
        refresh_rate: DEFAULT_REFRESH_RATE,
        created_at: now.to_owned(),
        updated_at: now.to_owned(),
    };
    store.upsert_device_dashboard(&dd);
    Ok(dd)
}

/// Ensures that a device has a dashboard: the one that it is bound to, or a new one when
/// there is none or it was deleted.
pub fn ensure_device_dashboard(store: &mut DashboardStore, device_id: &str, device_name: &str) -> (r:
    Result<DeviceDashboard, String>)
    requires
        old(store)@.wf(),
    ensures
        exists|id: Seq<char>, t: Seq<char>|
            is_generated(id, "dash_"@) && is_stamp(t) && (binding_of(r), final(store)@) == #[trigger] ensured(
                old(store)@,
                device_id@,
                device_name@,
                id,
                t,
            ),
        final(store)@.wf(),
{
    let id = new_dashboard_id();
    let t = now();
    ensure_device_dashboard_as(store, device_id, device_name, id.as_str(), t.as_str())
}

/// Ensuring a device's dashboard gives a binding whose dashboard exists, and ensuring it
/// again gives the same and changes nothing.
pub proof fn law_ensuring_twice_is_ensuring_once(
    s: StoreView,
    device_id: Seq<char>,
    name: Seq<char>,
    id: Seq<char>,
    now: Seq<char>,
    name2: Seq<char>,
    id2: Seq<char>,
    now2: Seq<char>,
)
    requires
        ensured(s, device_id, name, id, now).0 is Ok,
    ensures
        ({
            let (first, after) = ensured(s, device_id, name, id, now);
            let (second, again) = ensured(after, device_id, name2, id2, now2);
            &&& after.dashboard(first->Ok_0.dashboard_id) matches Ok(Some(_))
            &&& second matches Ok(dd)
            &&& dd.dashboard_id == first->Ok_0.dashboard_id
            &&& dd.refresh_rate == first->Ok_0.refresh_rate
            &&& again == after
        }),
{
    if live_binding(s, device_id) matches Ok(None) {
        let d = device_dashboard(name, id, now);
        let mid = s.with_dashboard(d);
        let dd = new_binding(device_id, id, now);
        crate::store::law_written_dashboard_is_read(s, d, seq!['x'] + id);
        assert((seq!['x'] + id).len() != id.len());
        crate::store::law_written_binding_is_read(mid, dd, seq!['x'] + device_id);
        assert((seq!['x'] + device_id).len() != device_id.len());
    }
}

/// A device whose dashboard was deleted gets a new one, not the id of what is gone.
pub proof fn law_deleted_dashboard_is_made_anew(
    s: StoreView,
    device_id: Seq<char>,
    name: Seq<char>,
    id: Seq<char>,
    now: Seq<char>,
)
    requires
        s.wf(),
        found(s.devices, device_id) is Some,
    ensures
        ({
            let gone = found(s.devices, device_id).unwrap().dashboard_id;
            let (r, after) = ensured(s.without_dashboard(gone), device_id, name, id, now);
            &&& r matches Ok(dd)
            &&& dd.dashboard_id == id
            &&& after.dashboard(id) matches Ok(Some(_))
        }),
{
    let gone = found(s.devices, device_id).unwrap().dashboard_id;
    let left = s.without_dashboard(gone);
    law_removed_is_not_found(s.dashboards, gone);
    let d = device_dashboard(name, id, now);
    crate::store::law_written_dashboard_is_read(left, d, seq!['x'] + id);
    assert((seq!['x'] + id).len() != id.len());
}

// ---- what a device shows -------------------------------------------------

/// What a device shows: its binding, its widgets and its panel.
#[derive(Debug)]
pub struct DeviceConfig {
    pub binding: DeviceDashboard,
    pub widgets: Vec<Widget>,
    pub profile: DeviceProfile,
}

/// The model of a [`DeviceConfig`].
pub struct DeviceConfigView {
    pub binding: DeviceView,
    pub widgets: Seq<WidgetView>,
    pub profile: DeviceProfile,
}

impl View for DeviceConfig {
    type V = DeviceConfigView;

    open spec fn view(&self) -> DeviceConfigView {
        DeviceConfigView {
            binding: self.binding@,
            widgets: widget_views(self.widgets@),
            profile: self.profile,
        }
    }
}

/// What a device with this binding shows.
pub open spec fn shown_on(
    s: StoreView,
    dd: DeviceView,
    device_type: Seq<char>,
    prefs: JsonView,
) -> DeviceConfigView {
    DeviceConfigView {
        binding: dd,
        widgets: readable_on(by_creation(s.widgets), dd.dashboard_id),
        profile: device_profile(device_type, prefs),
    }
}

/// Whether `r` is what a device with this binding shows, or the error that came instead.
pub open spec fn config_of(
    r: Result<DeviceConfig, String>,
    binding: Result<DeviceView, Seq<char>>,
    s: StoreView,
    device_type: Seq<char>,
    prefs: JsonView,
) -> bool {
    match binding {
        Ok(dd) => r matches Ok(c) && c@ == shown_on(s, dd, device_type, prefs),
        Err(e) => r matches Err(f) && f@ == e,
    }
}

/// What a device with this binding shows.
pub fn config_for(store: &DashboardStore, binding: DeviceDashboard, device_type: &str, prefs: &Json)
    -> (r: DeviceConfig)
    ensures
        r@ == shown_on(store@, binding@, device_type@, prefs@),
{
    let widgets = store.list_widgets(binding.dashboard_id.as_str());
    let profile = profile_for_device(device_type, prefs);
    DeviceConfig { binding, widgets, profile }
}

/// What a device shows, with its dashboard ensured first.
pub fn device_config_json(
    store: &mut DashboardStore,
    device_id: &str,
    device_name: &str,
    device_type: &str,
    prefs: &Json,
) -> (r: Result<DeviceConfig, String>)
    requires
        old(store)@.wf(),
    ensures
        exists|id: Seq<char>, t: Seq<char>|
            {
                let (binding, after) = #[trigger] ensured(
                    old(store)@,
                    device_id@,
                    device_name@,
                    id,
                    t,
                );
                &&& is_generated(id, "dash_"@)
                &&& is_stamp(t)
                &&& config_of(r, binding, after, device_type@, prefs@)
                &&& final(store)@ == after
            },
        final(store)@.wf(),
{
    match ensure_device_dashboard(store, device_id, device_name) {
        Ok(dd) => Ok(config_for(store, dd, device_type, prefs)),
        Err(e) => Err(e),
    }
}

/// Renders what a device shows to the image of its panel, and gives the device's binding with
/// it.
pub fn render_device(
    config: DeviceConfig,
    geometry: &PanelGeometry,
    fonts: &Arc<resvg::usvg::fontdb::Database>,
) -> (r: Result<(RenderedImage, DeviceDashboard), String>)
    requires
        geometry.cells@.len() == config.widgets@.len(),
        geometry.sound(),
        paintable(config.profile.upright().w, config.profile.upright().h),
    ensures
        match r {
            Ok((image, binding)) => binding == config.binding && rendering(
                Ok(image),
                config.widgets@,
                config.profile,
                *geometry,
            ),
            Err(e) => rendering(Err(e), config.widgets@, config.profile, *geometry),
        },
{
    match render(config.widgets.as_slice(), config.profile, geometry, fonts) {
        Ok(image) => Ok((image, config.binding)),
        Err(e) => Err(e),
    }
}

// ---- settings ------------------------------------------------------------

/// A poll interval raised to the shortest one that a device is told.
pub open spec fn clamped(rate: u32) -> u32 {
    if rate < MIN_REFRESH_RATE {
        MIN_REFRESH_RATE
    } else {
        rate
    }
}

/// A binding, and the store, after a poll interval was set at the given time.
pub open spec fn rated(s: StoreView, dd: DeviceView, rate: Option<u32>, now: Seq<char>) -> (
    DeviceView,
    StoreView,
) {
    match rate {
        Some(n) => {
            let next = DeviceView { refresh_rate: clamped(n), updated_at: now, ..dd };
            (next, s.with_device(next))
        },
        None => (dd, s),
    }
}

/// Sets the poll interval of a binding, if one is given, at the given time.
pub fn set_refresh_rate_at(
    store: &mut DashboardStore,
    binding: DeviceDashboard,
    rate: Option<u32>,
    now: &str,
) -> (r: DeviceDashboard)
    requires
        old(store)@.wf(),
    ensures
        (r@, final(store)@) == rated(old(store)@, binding@, rate, now@),
        final(store)@.wf(),
{
    let mut dd = binding;
    if let Some(n) = rate {
        dd.refresh_rate = if n < MIN_REFRESH_RATE { MIN_REFRESH_RATE } else { n };
        dd.updated_at = now.to_owned();
        store.upsert_device_dashboard(&dd);
    }
    dd
}

/// What is answered when a device's settings are changed, and the store after it. The ids and
/// times are those of what is made or written on the way.
pub open spec fn configured(
    s: StoreView,
    device_id: Seq<char>,
    name: Seq<char>,
    rate: Option<u32>,
    widgets: Option<Option<Seq<Result<WidgetView, Seq<char>>>>>,
    id: Seq<char>,
    made_at: Seq<char>,
    rated_at: Seq<char>,
    fresh: Seq<Seq<char>>,
    times: Seq<Seq<char>>,
) -> (Result<(Seq<char>, u32), Seq<char>>, StoreView) {
    let (binding, after) = ensured(s, device_id, name, id, made_at);
    match binding {
        Err(e) => (Err(e), after),
        Ok(first) => {
            let (dd, set) = rated(after, first, rate, rated_at);
            match widgets {
                None => (Ok((dd.dashboard_id, dd.refresh_rate)), set),
                Some(items) => {
                    let (count, done) = replaced(set, dd.dashboard_id, items, fresh, times);
                    match count {
                        Ok(_) => (Ok((dd.dashboard_id, dd.refresh_rate)), done),
                        Err(e) => (Err(e), done),
                    }
                },
            }
        },
    }
}

/// The batch of a request, where it has one.
pub open spec fn request_items(widgets: Option<Option<Vec<Result<Widget, String>>>>) -> Option<
    Option<Seq<Result<WidgetView, Seq<char>>>>,
> {
    match widgets {
        Some(batch) => Some(opt_items(batch)),
        None => None,
    }
}

/// The items that a request gives, if it gives a batch.
pub open spec fn items_of(request: Option<Option<Seq<Result<WidgetView, Seq<char>>>>>) -> Option<
    Seq<Result<WidgetView, Seq<char>>>,
> {
    match request {
        Some(items) => items,
        None => None,
    }
}

/// The model of the answer to a change of settings.
pub open spec fn settings_of(r: Result<(String, u32), String>) -> Result<
    (Seq<char>, u32),
    Seq<char>,
> {
    match r {
        Ok(p) => Ok((p.0@, p.1)),
        Err(e) => Err(e@),
    }
}

/// Sets a device's poll interval and replaces its widgets, as far as each is given, with the
/// given ids and times. Gives the dashboard's id and the poll interval.
pub fn set_device_config_as(
    store: &mut DashboardStore,
    device_id: &str,
    device_name: &str,
    refresh_rate: Option<u32>,
    widgets: &Option<Option<Vec<Result<Widget, String>>>>,
    id: &str,
    made_at: &str,
    rated_at: &str,
    fresh: &Vec<String>,
    times: &Vec<String>,
) -> (r: Result<(String, u32), String>)
    requires
        old(store)@.wf(),
        widgets matches Some(Some(items)) ==> fresh@.len() == items@.len() && times@.len()
            == items@.len(),
    ensures
        (settings_of(r), final(store)@) == configured(
            old(store)@,
            device_id@,
            device_name@,
            refresh_rate,
            request_items(*widgets),
            id@,
            made_at@,
            rated_at@,
            texts(fresh@),
            texts(times@),
        ),
        final(store)@.wf(),
{
    let first = match ensure_device_dashboard_as(store, device_id, device_name, id, made_at) {
        Ok(dd) => dd,
        Err(e) => return Err(e),
    };
    let dd = set_refresh_rate_at(store, first, refresh_rate, rated_at);
    if let Some(batch) = widgets {
        match replace_widgets_as(store, dd.dashboard_id.as_str(), batch, fresh, times) {
            Ok(_) => {},
            Err(e) => return Err(e),
        }
    }
    Ok((dd.dashboard_id, dd.refresh_rate))
}

/// Sets a device's poll interval and replaces its widgets, as far as each is given. Gives the
/// dashboard's id and the poll interval.
pub fn set_device_config(
    store: &mut DashboardStore,
    device_id: &str,
    device_name: &str,
    refresh_rate: Option<u32>,
    widgets: &Option<Option<Vec<Result<Widget, String>>>>,
) -> (r: Result<(String, u32), String>)
    requires
        old(store)@.wf(),
    ensures
        exists|
            id: Seq<char>,
            made_at: Seq<char>,
            rated_at: Seq<char>,
            fresh: Seq<Seq<char>>,
            times: Seq<Seq<char>>,
        |
            {
                &&& is_generated(id, "dash_"@)
                &&& is_stamp(made_at)
                &&& is_stamp(rated_at)
                &&& batch_marks(items_of(request_items(*widgets)), fresh, times)
                &&& (settings_of(r), final(store)@) == #[trigger] configured(
                    old(store)@,
                    device_id@,
                    device_name@,
                    refresh_rate,
                    request_items(*widgets),
                    id,
                    made_at,
                    rated_at,
                    fresh,
                    times,
                )
            },
        final(store)@.wf(),
{
    let id = new_dashboard_id();
    let made_at = now();
    let rated_at = now();
    let none: Option<Vec<Result<Widget, String>>> = None;
    let (fresh, times) = match widgets {
        Some(batch) => fresh_ids(batch),
        None => fresh_ids(&none),
    };
    set_device_config_as(
        store,
        device_id,
        device_name,
        refresh_rate,
        widgets,
        id.as_str(),
        made_at.as_str(),
        rated_at.as_str(),
        &fresh,
        &times,
    )
}

/// A device is never told to poll more often than the shortest interval, whatever is asked.
pub proof fn law_poll_interval_has_a_floor(
    s: StoreView,
    dd: DeviceView,
    rate: u32,
    now: Seq<char>,
)
    ensures
        rated(s, dd, Some(rate), now).0.refresh_rate >= MIN_REFRESH_RATE,
        rate >= MIN_REFRESH_RATE ==> rated(s, dd, Some(rate), now).0.refresh_rate == rate,
{
}

} // verus!
