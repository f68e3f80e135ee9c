//! The dashboards of hardware devices.

use ryu_dashboards::device::{
    config_for, device_config_json, ensure_device_dashboard, ensure_device_dashboard_as,
    profile_for_device, render_device, screen_json, set_device_config, DEFAULT_REFRESH_RATE,
    MIN_REFRESH_RATE,
};
use ryu_dashboards::json::{parse_json, Json};
use ryu_dashboards::model::{GridLayout, Widget, WidgetKind, WidgetSource};
use ryu_dashboards::panel::{content_profile, DeviceProfile, Palette, PanelGeometry, Pixels};
use ryu_dashboards::replace_widgets;
use ryu_dashboards::store::DashboardStore;

fn json(text: &str) -> Json {
    parse_json(text).expect("valid JSON")
}

fn widget(id: &str, source: WidgetSource) -> Widget {
    Widget {
        id: id.into(),
        dashboard_id: String::new(),
        kind: WidgetKind::Stat,
        title: String::new(),
        config: Json::Null,
        source,
        refresh_interval: None,
        layout: GridLayout::default(),
        canvas: None,
        last_value: Some(Json::Bool(true)),
        last_refresh_at: Some("t".into()),
        last_error: Some("e".into()),
    }
}

fn still(text: &str) -> WidgetSource {
    WidgetSource::Static { data: json(text) }
}

fn secrets() -> WidgetSource {
    WidgetSource::CoreEndpoint { endpoint: "secrets".into(), selector: None }
}

#[test]
fn profile_watch_vs_desk_defaults() {
    let watch = profile_for_device("watch", &Json::Null);
    assert_eq!((watch.w, watch.h), (240, 240));
    assert_eq!(watch.palette, Palette::Rgba);
    for ty in ["desk", "necklace", "totally-unknown", ""] {
        let p = profile_for_device(ty, &Json::Null);
        assert_eq!((p.w, p.h, p.bit_depth), (800, 480, 1), "type {ty}");
        assert_eq!(p.palette, Palette::Mono);
    }
}

#[test]
fn profile_prefs_override_every_screen_field() {
    let prefs = json(
        "{ \"screen\": { \"w\": 128, \"h\": 64, \"bit_depth\": 16, \"rotation\": 90, \"palette\": \"rgb565\" } }",
    );
    let p = profile_for_device("desk", &prefs);
    assert_eq!((p.w, p.h, p.bit_depth, p.rotation), (128, 64, 16, 90));
    assert_eq!(p.palette, Palette::Rgb565);

    let p2 = profile_for_device("desk", &json("{ \"screen\": { \"palette\": \"rgba\" } }"));
    assert_eq!(p2.palette, Palette::Rgba);
    let p3 = profile_for_device("desk", &json("{ \"screen\": { \"palette\": \"weird\" } }"));
    assert_eq!(p3.palette, Palette::Mono);
}

#[test]
fn profile_ignores_non_object_screen() {
    let p = profile_for_device("watch", &json("{ \"screen\": \"nope\" }"));
    assert_eq!((p.w, p.h), (240, 240));
}

#[test]
fn large_screen_numbers_keep_their_low_bits() {
    let prefs = json(
        "{\"screen\":{\"w\":4294967297,\"h\":-1,\"bit_depth\":257,\"rotation\":65626,\"palette\":7}}",
    );
    let p = profile_for_device("desk", &prefs);
    assert_eq!((p.w, p.h, p.bit_depth, p.rotation), (1, 480, 1, 90));
    assert_eq!(p.palette, Palette::Mono);
}

#[test]
fn screen_json_echoes_profile() {
    let p = DeviceProfile::watch_lcd();
    let j = screen_json(&p);
    assert_eq!(j.u64_at("w"), Some(240));
    assert_eq!(j.u64_at("h"), Some(240));
    assert_eq!(j.str_at("palette"), Some("rgba"));
    assert_eq!(j.u64_at("bit_depth"), Some(24));
    assert_eq!(j.u64_at("rotation"), Some(0));
    // A device that saves what it was told is told the same again.
    let prefs = Json::Object(vec![("screen".into(), j)]);
    assert_eq!(profile_for_device("desk", &prefs), p);
}

#[test]
fn ensure_creates_then_returns_same_binding() {
    let mut store = DashboardStore::new();
    let dd = ensure_device_dashboard(&mut store, "rhw_1", "Desk").unwrap();
    assert_eq!(dd.device_id, "rhw_1");
    assert_eq!(dd.refresh_rate, DEFAULT_REFRESH_RATE);
    let dash = store.get_dashboard(&dd.dashboard_id).unwrap().unwrap();
    assert_eq!(dash.name, "Desk display");
    let dd2 = ensure_device_dashboard(&mut store, "rhw_1", "Desk").unwrap();
    assert_eq!(dd2.dashboard_id, dd.dashboard_id);
}

#[test]
fn ensure_recreates_when_bound_dashboard_deleted() {
    let mut store = DashboardStore::new();
    let dd = ensure_device_dashboard(&mut store, "rhw_1", "Desk").unwrap();
    store.delete_dashboard(&dd.dashboard_id);
    let dd2 = ensure_device_dashboard(&mut store, "rhw_1", "Desk").unwrap();
    assert_ne!(dd2.dashboard_id, dd.dashboard_id);
    assert!(store.get_dashboard(&dd2.dashboard_id).unwrap().is_some());
}

#[test]
fn a_new_device_gets_the_dashboard_of_the_given_id() {
    let mut store = DashboardStore::new();
    let dd = ensure_device_dashboard_as(&mut store, "r", "Desk", "dash_x", "now").unwrap();
    assert_eq!((dd.dashboard_id.as_str(), dd.created_at.as_str()), ("dash_x", "now"));
    let again = ensure_device_dashboard_as(&mut store, "r", "Other", "dash_y", "later").unwrap();
    assert_eq!(again.dashboard_id, "dash_x");
    assert!(store.get_dashboard("dash_y").unwrap().is_none());
}

#[test]
fn device_config_json_has_binding_widgets_and_screen() {
    let mut store = DashboardStore::new();
    let cfg = device_config_json(&mut store, "rhw_1", "Desk", "desk", &Json::Null).unwrap();
    assert_eq!(cfg.binding.device_id, "rhw_1");
    assert!(cfg.binding.dashboard_id.starts_with("dash_"));
    assert_eq!(cfg.binding.refresh_rate, DEFAULT_REFRESH_RATE);
    assert_eq!(screen_json(&cfg.profile).u64_at("w"), Some(800));
    assert!(cfg.widgets.is_empty());
}

#[test]
fn render_device_produces_eink_bytes() {
    let mut store = DashboardStore::new();
    let dd = ensure_device_dashboard(&mut store, "rhw_1", "Desk").unwrap();
    let cfg = config_for(&store, dd, "desk", &Json::Null);
    let (_, content) = content_profile(cfg.profile);
    let geometry = PanelGeometry {
        center_x: Pixels { negative: false, tenths: content.w as u64 * 5 },
        center_y: Pixels { negative: false, tenths: content.h as u64 * 5 },
        cells: Vec::new(),
    };
    let fonts = std::sync::Arc::new(resvg::usvg::fontdb::Database::new());
    let (image, dd) = render_device(cfg, &geometry, &fonts).unwrap();
    assert_eq!(image.content_type, "application/octet-stream");
    assert_eq!(image.bytes.len(), 100 * 480);
    assert_eq!(dd.device_id, "rhw_1");
}

#[test]
fn set_device_config_clamps_refresh_rate_to_floor() {
    let mut store = DashboardStore::new();
    let (dashboard_id, rate) =
        set_device_config(&mut store, "rhw_1", "Desk", Some(5), &None).unwrap();
    assert_eq!(rate, MIN_REFRESH_RATE);
    let dd = store.get_device_dashboard("rhw_1").unwrap();
    assert_eq!(dd.refresh_rate, MIN_REFRESH_RATE);
    assert_eq!(dd.dashboard_id, dashboard_id);
    let (_, rate) = set_device_config(&mut store, "rhw_1", "Desk", Some(31), &None).unwrap();
    assert_eq!(rate, 31);
    let (_, rate) = set_device_config(&mut store, "rhw_1", "Desk", None, &None).unwrap();
    assert_eq!(rate, 31);
}

#[test]
fn set_device_config_replaces_widgets() {
    let mut store = DashboardStore::new();
    let text = Widget { kind: WidgetKind::Text, ..widget("", still("\"hi\"")) };
    let widgets = Some(Some(vec![Ok(widget("", still("1"))), Ok(text)]));
    let (dashboard_id, _rate) =
        set_device_config(&mut store, "rhw_1", "Desk", None, &widgets).unwrap();
    let stored = store.list_widgets(&dashboard_id);
    assert_eq!(stored.len(), 2);
    for w in &stored {
        assert!(w.id.starts_with("wgt_"));
        assert_eq!(w.id.len(), 4 + 32);
        assert!(w.last_value.is_none() && w.last_error.is_none() && w.last_refresh_at.is_none());
    }
}

#[test]
fn set_device_config_rejects_bad_widget_batch() {
    let mut store = DashboardStore::new();
    let bad = Some(Some(vec![Ok(widget("", secrets()))]));
    let err = set_device_config(&mut store, "rhw_1", "Desk", None, &bad).unwrap_err();
    assert!(err.contains("not an allowed core_endpoint"));
}

#[test]
fn a_rejected_batch_changes_nothing() {
    let mut store = DashboardStore::new();
    assert_eq!(replace_widgets(&mut store, "a", &Some(vec![Ok(widget("w", still("1")))])), Ok(1));
    let mut foreign = widget("f", still("2"));
    foreign.dashboard_id = "b".into();
    store.upsert_widget(&foreign).unwrap();
    let shown = |store: &DashboardStore| -> Vec<String> {
        store.list_widgets("a").into_iter().map(|w| w.id).collect()
    };

    let err = replace_widgets(&mut store, "a", &None).unwrap_err();
    assert_eq!(err, "`widgets` must be an array of widget objects");
    let batch = Some(vec![Ok(widget("n", still("1"))), Err("no kind".to_string())]);
    let err = replace_widgets(&mut store, "a", &batch).unwrap_err();
    assert_eq!(err, "widget #1 is invalid: no kind");
    let batch = Some(vec![Ok(widget("n", secrets())), Err("no kind".to_string())]);
    let err = replace_widgets(&mut store, "a", &batch).unwrap_err();
    assert_eq!(
        err,
        "widget #0: 'secrets' is not an allowed core_endpoint. Allowed: system_status, \
         sidecar_status, connections, quests, monitors, engines, agents, workflows, meetings"
    );
    let outside = WidgetSource::Workflow {
        workflow_id: "../x".into(),
        input: Vec::new(),
        output_key: None,
    };
    let batch = Some(vec![Ok(widget("n", still("1"))), Ok(widget("o", outside))]);
    let err = replace_widgets(&mut store, "a", &batch).unwrap_err();
    assert!(err.starts_with("widget #1: invalid workflow_id '../x'"), "{err}");
    let astray = WidgetSource::Composio { action: "".into(), args: Json::Null };
    let err = replace_widgets(&mut store, "a", &Some(vec![Ok(widget("c", astray))])).unwrap_err();
    assert!(err.starts_with("widget #0: invalid composio action ''"), "{err}");
    let batch = Some(vec![Ok(widget("n", still("1"))), Ok(widget("f", still("1")))]);
    let err = replace_widgets(&mut store, "a", &batch).unwrap_err();
    assert_eq!(err, "widget 'f' already belongs to dashboard 'b'");
    assert_eq!(shown(&store), ["w"]);

    let batch = Some(vec![Ok(widget("n", still("1"))), Ok(widget(" ", still("1")))]);
    assert_eq!(replace_widgets(&mut store, "a", &batch), Ok(2));
    let after = shown(&store);
    assert_eq!(after.len(), 2);
    assert!(after.contains(&"n".to_string()) && !after.contains(&"w".to_string()));
    assert!(store.get_widget("f").unwrap().is_some());
}
