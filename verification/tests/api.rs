//! What requests answer, and what they change.

use ryu_dashboards::api::{
    bool_flag, catalog, create_dashboard, create_dashboard_as, create_widget, create_widget_as,
    delete_dashboard, delete_device_binding, delete_widget, device_bindings, device_config,
    device_ensure, device_image, device_manifest, get_dashboard, list_dashboards, list_widgets,
    refresh_target, refresh_widget, set_device_config, settings_reply, update_dashboard,
    update_dashboard_at, update_widget, update_widget_layout, DashboardBody, DashboardUpdateBody,
    DeviceEnsureReq, DeviceRenderReq, DeviceSetReq, EventsQuery, ImageReply, LayoutUpdateBody,
    Reply, ReplyBody, WidgetBody,
};
use ryu_dashboards::device::screen_json;
use ryu_dashboards::json::{parse_json, Json};
use ryu_dashboards::model::{
    CanvasLayout, Dashboard, DeviceDashboard, GridLayout, Widget, WidgetKind, WidgetSource,
};
use ryu_dashboards::panel::{DeviceProfile, PanelGeometry, Pixels};
use ryu_dashboards::render::{render, RenderedImage};
use ryu_dashboards::sources::{
    conclude, plan, validate_widget_source, Answer, HttpReply, Plan,
};
use ryu_dashboards::store::{DashboardRow, DashboardStore};

fn json(text: &str) -> Json {
    parse_json(text).expect("valid JSON")
}

fn empty_body() -> WidgetBody {
    WidgetBody {
        id: None,
        kind: None,
        title: None,
        config: None,
        source: None,
        refresh_interval: None,
        layout: None,
        canvas: None,
    }
}

fn stat(id: &str) -> WidgetBody {
    WidgetBody { id: Some(id.into()), kind: Some(WidgetKind::Stat), ..empty_body() }
}

fn seeded(id: &str) -> DashboardStore {
    let mut store = DashboardStore::new();
    store.upsert_dashboard(&Dashboard {
        id: id.into(),
        name: "Seed".into(),
        created_at: "2026-01-01T00:00:00+00:00".into(),
        updated_at: "2026-01-01T00:00:00+00:00".into(),
        view_mode: None,
    });
    store
}

fn error(reply: &Reply) -> &str {
    match &reply.body {
        ReplyBody::Error(e) => e,
        other => panic!("{other:?}"),
    }
}

fn widget(reply: Reply) -> Widget {
    match reply.body {
        ReplyBody::Widget(w) => w,
        other => panic!("{other:?}"),
    }
}

fn dashboard(reply: Reply) -> Dashboard {
    match reply.body {
        ReplyBody::Dashboard(d) => d,
        other => panic!("{other:?}"),
    }
}

fn document(reply: Reply) -> Json {
    match reply.body {
        ReplyBody::Document(v) => v,
        other => panic!("{other:?}"),
    }
}

fn texts(v: &Json, key: &str) -> Vec<String> {
    match v.get(key) {
        Some(Json::Array(items)) => {
            items.iter().map(|i| i.as_str().unwrap().to_string()).collect()
        }
        other => panic!("{other:?}"),
    }
}

#[test]
fn validate_widget_source_allows_curated_core_endpoint() {
    let src = WidgetSource::CoreEndpoint {
        endpoint: "connections".into(),
        selector: Some("clients".into()),
    };
    assert!(validate_widget_source(&src).is_ok());
}

#[test]
fn validate_widget_source_rejects_unknown_core_endpoint() {
    let src = WidgetSource::CoreEndpoint { endpoint: "secrets".into(), selector: None };
    let err = validate_widget_source(&src).expect_err("bad endpoint must fail");
    assert!(err.contains("not an allowed core_endpoint"), "got: {err}");
    assert_eq!(
        err,
        "'secrets' is not an allowed core_endpoint. Allowed: system_status, sidecar_status, \
         connections, quests, monitors, engines, agents, workflows, meetings"
    );
}

#[test]
fn validate_widget_source_ignores_free_form_kinds() {
    assert!(validate_widget_source(&WidgetSource::Static { data: Json::Null }).is_ok());
    assert!(validate_widget_source(&WidgetSource::Monitor { monitor_id: "m1".into() }).is_ok());
}

#[test]
fn validate_widget_source_rejects_path_traversal_ids() {
    let bad_wf = WidgetSource::Workflow {
        workflow_id: "../../api/agents/foo?".into(),
        input: Default::default(),
        output_key: None,
    };
    assert!(validate_widget_source(&bad_wf).is_err(), "traversal workflow_id must be rejected");

    let bad_action =
        WidgetSource::Composio { action: "../../v1/config".into(), args: Json::Null };
    assert!(
        validate_widget_source(&bad_action).is_err(),
        "traversal composio action must be rejected"
    );

    assert!(validate_widget_source(&WidgetSource::Workflow {
        workflow_id: "wf_abc-123".into(),
        input: Default::default(),
        output_key: None,
    })
    .is_ok());
    assert!(validate_widget_source(&WidgetSource::Composio {
        action: "GITHUB_LIST".into(),
        args: Json::Null,
    })
    .is_ok());
}

#[test]
fn de_bool_flag_is_permissive() {
    for truthy in ["1", "true", "yes", "on"] {
        let q = EventsQuery { internal: bool_flag(truthy) };
        assert!(q.internal, "{truthy} ⇒ true");
    }
    for falsy in ["0", "false", "no", "off", "banana"] {
        let q = EventsQuery { internal: bool_flag(falsy) };
        assert!(!q.internal, "{falsy} ⇒ false");
    }
    let q: EventsQuery = EventsQuery::default();
    assert!(!q.internal);
}

#[test]
fn catalog_lists_kinds_sources_and_endpoints() {
    let v = document(catalog());
    assert!(texts(&v, "widget_kinds").contains(&"stat".to_string()));
    assert!(texts(&v, "source_types").contains(&"core_endpoint".to_string()));
    assert!(texts(&v, "core_endpoints").contains(&"agents".to_string()));
    assert_eq!(texts(&v, "widget_kinds").len(), 10);
    assert_eq!(texts(&v, "source_types").len(), 7);
    assert_eq!(texts(&v, "core_endpoints").len(), 9);
}

#[test]
fn create_dashboard_rejects_blank_name() {
    let mut store = DashboardStore::new();
    let reply = create_dashboard(&mut store, &DashboardBody { name: "   ".into() });
    assert_eq!(reply.status, 400);
    assert_eq!(error(&reply), "name is required");
    assert!(store.list_dashboards().is_empty());
}

#[test]
fn create_then_list_and_get_dashboard() {
    let mut store = DashboardStore::new();
    let reply = create_dashboard(&mut store, &DashboardBody { name: "Home".into() });
    assert_eq!(reply.status, 200);
    let id = dashboard(reply).id;
    assert!(id.starts_with("dash_"));

    match list_dashboards(&store).body {
        ReplyBody::Dashboards(list) => assert_eq!(list.len(), 1),
        other => panic!("{other:?}"),
    }
    let reply = get_dashboard(&store, &id);
    assert_eq!(reply.status, 200);
    match reply.body {
        ReplyBody::Opened(d, widgets) => {
            assert_eq!(d.name, "Home");
            assert!(widgets.is_empty());
        }
        other => panic!("{other:?}"),
    }
}

#[test]
fn a_created_dashboard_has_a_trimmed_name_and_one_time() {
    let mut store = DashboardStore::new();
    let d = dashboard(create_dashboard_as(
        &mut store,
        &DashboardBody { name: "  My Home ".into() },
        "dash_1",
        "now",
    ));
    assert_eq!((d.id.as_str(), d.name.as_str()), ("dash_1", "My Home"));
    assert_eq!((d.created_at.as_str(), d.updated_at.as_str()), ("now", "now"));
    assert!(d.view_mode.is_none());
}

#[test]
fn get_dashboard_missing_is_404() {
    let reply = get_dashboard(&DashboardStore::new(), "nope");
    assert_eq!(reply.status, 404);
    assert_eq!(error(&reply), "not found");
}

#[test]
fn update_dashboard_rename_view_mode_and_validation() {
    let mut store = seeded("d1");
    let body = |name: Option<&str>, mode: Option<&str>| DashboardUpdateBody {
        name: name.map(str::to_owned),
        view_mode: mode.map(str::to_owned),
    };
    let reply = update_dashboard(&mut store, "ghost", &body(Some("x"), None));
    assert_eq!(reply.status, 404);

    let reply = update_dashboard(&mut store, "d1", &body(Some("  "), None));
    assert_eq!(reply.status, 400);

    let reply = update_dashboard(&mut store, "d1", &body(None, Some("spiral")));
    assert_eq!(reply.status, 400);
    assert!(error(&reply).contains("view_mode"));

    let reply = update_dashboard(&mut store, "d1", &body(Some("Renamed"), Some("canvas")));
    assert_eq!(reply.status, 200);
    let d = dashboard(reply);
    assert_eq!(d.name, "Renamed");
    assert_eq!(d.view_mode.as_deref(), Some("canvas"));

    // What is absent stays.
    let d = dashboard(update_dashboard_at(&mut store, "d1", &body(None, None), "later"));
    assert_eq!((d.name.as_str(), d.view_mode.as_deref()), ("Renamed", Some("canvas")));
    assert_eq!(d.updated_at, "later");
}

#[test]
fn delete_dashboard_present_and_missing() {
    let mut store = seeded("d1");
    let reply = delete_dashboard(&mut store, "d1");
    assert_eq!(reply.status, 200);
    assert!(matches!(reply.body, ReplyBody::Done));
    assert_eq!(delete_dashboard(&mut store, "d1").status, 404);
}

#[test]
fn create_widget_validation_paths() {
    let mut store = DashboardStore::new();
    let reply = create_widget(&mut store, "missing", &stat("w"));
    assert_eq!(reply.status, 404);
    assert_eq!(error(&reply), "dashboard not found");

    let mut store = seeded("d1");
    let no_kind = WidgetBody { title: Some("no kind".into()), ..empty_body() };
    let reply = create_widget(&mut store, "d1", &no_kind);
    assert_eq!(reply.status, 400);
    assert_eq!(error(&reply), "kind is required");

    let bad = WidgetBody {
        kind: Some(WidgetKind::Stat),
        source: Some(WidgetSource::CoreEndpoint { endpoint: "secrets".into(), selector: None }),
        ..empty_body()
    };
    let reply = create_widget(&mut store, "d1", &bad);
    assert_eq!(reply.status, 400);
    assert!(error(&reply).contains("not an allowed core_endpoint"));
    assert!(store.list_all_widgets().is_empty());
}

#[test]
fn create_widget_honors_caller_id_and_defaults_source() {
    let mut store = seeded("d1");
    let body =
        WidgetBody { id: Some("mine".into()), kind: Some(WidgetKind::Text), ..empty_body() };
    let reply = create_widget(&mut store, "d1", &body);
    assert_eq!(reply.status, 200);
    let w = widget(reply);
    assert_eq!(w.id, "mine");
    assert!(matches!(w.source, WidgetSource::Static { data: Json::Null }));

    let body = WidgetBody {
        kind: Some(WidgetKind::Stat),
        refresh_interval: Some("  ".into()),
        ..empty_body()
    };
    let w = widget(create_widget(&mut store, "d1", &body));
    assert!(w.refresh_interval.is_none());
    assert!(w.id.starts_with("wgt_"));
}

#[test]
fn a_created_widget_has_the_defaults_and_a_foreign_id_is_refused() {
    let mut store = seeded("d1");
    let body = WidgetBody { id: Some(" ".into()), kind: Some(WidgetKind::Stat), ..empty_body() };
    let w = widget(create_widget_as(&mut store, "d1", &body, "wgt_f", "t"));
    assert_eq!((w.id.as_str(), w.dashboard_id.as_str(), w.title.as_str()), ("wgt_f", "d1", ""));
    assert_eq!(w.layout, GridLayout { x: 0, y: 0, w: 4, h: 4 });
    assert_eq!(w.config, Json::Null);
    store.upsert_dashboard(&Dashboard {
        id: "d2".into(),
        name: "Two".into(),
        created_at: "1".into(),
        updated_at: "1".into(),
        view_mode: None,
    });
    let reply = create_widget(&mut store, "d2", &stat("wgt_f"));
    assert_eq!(reply.status, 500);
    assert_eq!(error(&reply), "widget 'wgt_f' already belongs to dashboard 'd1'");
}

#[test]
fn update_widget_patches_and_clears_cache_on_source_change() {
    let mut store = seeded("d1");
    let _ = create_widget(&mut store, "d1", &stat("w1"));
    store.update_widget_value("w1", &Ok(json("123"))).unwrap();

    let patch = WidgetBody { title: Some("x".into()), ..empty_body() };
    assert_eq!(update_widget(&mut store, "d1", "ghost", &patch).status, 404);
    assert_eq!(update_widget(&mut store, "d2", "w1", &patch).status, 404);

    // Without a new source the cache stays.
    let w = widget(update_widget(&mut store, "d1", "w1", &patch));
    assert_eq!(w.last_value, Some(json("123")));

    let patch = WidgetBody {
        title: Some("Updated".into()),
        source: Some(WidgetSource::Static { data: json("1") }),
        ..empty_body()
    };
    let reply = update_widget(&mut store, "d1", "w1", &patch);
    assert_eq!(reply.status, 200);
    let w = widget(reply);
    assert_eq!(w.title, "Updated");
    assert!(w.last_value.is_none(), "source change clears cache");
    assert!(w.last_refresh_at.is_none() && w.last_error.is_none());
}

#[test]
fn a_bad_source_never_reaches_the_store() {
    let mut store = seeded("d1");
    let _ = create_widget(&mut store, "d1", &stat("w1"));
    store.update_widget_value("w1", &Ok(json("123"))).unwrap();
    let before = store.get_widget("w1").unwrap().unwrap();
    let secrets = WidgetSource::CoreEndpoint { endpoint: "secrets".into(), selector: None };
    let outside = WidgetSource::Workflow {
        workflow_id: "../../api/agents/foo?".into(),
        input: Vec::new(),
        output_key: None,
    };
    let astray = WidgetSource::Composio { action: "a/b".into(), args: Json::Null };
    for (source, said) in [
        (secrets, "'secrets' is not an allowed core_endpoint"),
        (outside, "invalid workflow_id '../../api/agents/foo?'"),
        (astray, "invalid composio action 'a/b'"),
    ] {
        let patch = WidgetBody {
            title: Some("Changed".into()),
            source: Some(source),
            ..empty_body()
        };
        let reply = update_widget(&mut store, "d1", "w1", &patch);
        assert_eq!(reply.status, 400);
        assert!(error(&reply).starts_with(said), "{}", error(&reply));
        let after = store.get_widget("w1").unwrap().unwrap();
        assert_eq!((&after.title, &after.last_value), (&before.title, &before.last_value));
        // A widget that is not there is told first.
        assert_eq!(update_widget(&mut store, "d1", "ghost", &patch).status, 404);
    }
}

#[test]
fn a_blank_cadence_is_dropped_and_an_absent_one_stays() {
    let mut store = seeded("d1");
    let _ = create_widget(&mut store, "d1", &stat("w1"));
    let cadence = |s: &str| WidgetBody { refresh_interval: Some(s.into()), ..empty_body() };
    let w = widget(update_widget(&mut store, "d1", "w1", &cadence("5m")));
    assert_eq!(w.refresh_interval.as_deref(), Some("5m"));
    let w = widget(update_widget(&mut store, "d1", "w1", &empty_body()));
    assert_eq!(w.refresh_interval.as_deref(), Some("5m"));
    let w = widget(update_widget(&mut store, "d1", "w1", &cadence(" ")));
    assert!(w.refresh_interval.is_none());
}

#[test]
fn delete_widget_present_and_missing() {
    let mut store = seeded("d1");
    let _ = create_widget(&mut store, "d1", &stat("w1"));
    let reply = delete_widget(&mut store, "d1", "w1");
    assert_eq!(reply.status, 200);
    assert!(matches!(reply.body, ReplyBody::Done));
    assert_eq!(delete_widget(&mut store, "d1", "w1").status, 404);
}

#[test]
fn list_widgets_returns_dashboard_widgets() {
    let mut store = seeded("d1");
    let _ = create_widget(&mut store, "d1", &stat("w1"));
    match list_widgets(&store, "d1").body {
        ReplyBody::Widgets(list) => assert_eq!(list.len(), 1),
        other => panic!("{other:?}"),
    }
}

#[test]
fn update_widget_layout_grid_canvas_and_missing() {
    let mut store = seeded("d1");
    let _ = create_widget(&mut store, "d1", &stat("w1"));
    let grid = |x, y, w, h| LayoutUpdateBody { x, y, w, h, canvas: None };

    let reply =
        update_widget_layout(&mut store, "d1", "w1", &grid(Some(1), Some(2), Some(3), Some(4)));
    assert_eq!(reply.status, 200);
    assert_eq!(widget(reply).layout.x, 1);

    let body = LayoutUpdateBody {
        canvas: Some(CanvasLayout {
            x: 9.0f64.to_bits(),
            y: 8.0f64.to_bits(),
            w: 7.0f64.to_bits(),
            h: 6.0f64.to_bits(),
        }),
        ..grid(None, None, None, None)
    };
    let reply = update_widget_layout(&mut store, "d1", "w1", &body);
    assert_eq!(reply.status, 200);
    let w = widget(reply);
    assert_eq!(f64::from_bits(w.canvas.unwrap().x), 9.0);
    assert_eq!(w.layout.x, 1);

    // A part of a grid is no grid.
    let w = widget(update_widget_layout(&mut store, "d1", "w1", &grid(Some(7), Some(7), None, Some(7))));
    assert_eq!(w.layout, GridLayout { x: 1, y: 2, w: 3, h: 4 });

    let reply =
        update_widget_layout(&mut store, "d1", "ghost", &grid(Some(0), Some(0), Some(1), Some(1)));
    assert_eq!(reply.status, 404);
}

#[test]
fn refresh_widget_static_returns_value_and_missing_is_404() {
    let mut store = seeded("d1");
    let body = WidgetBody {
        source: Some(WidgetSource::Static { data: json("{ \"n\": 5 }") }),
        ..stat("w1")
    };
    let _ = create_widget(&mut store, "d1", &body);
    let target = refresh_target(&store, "d1", "w1").unwrap();
    let value = match plan(&target.source, "w1", "http://127.0.0.1:7980", "") {
        Ok(Plan::Ready(v)) => v,
        other => panic!("{other:?}"),
    };
    let reply = refresh_widget(&mut store, "w1", Ok(value));
    assert_eq!(reply.status, 200);
    match reply.body {
        ReplyBody::Value(v) => assert_eq!(v, json("{ \"n\": 5 }")),
        other => panic!("{other:?}"),
    }
    assert_eq!(
        store.get_widget("w1").unwrap().unwrap().last_value,
        Some(json("{ \"n\": 5 }"))
    );

    assert_eq!(refresh_target(&store, "d1", "ghost").unwrap_err().status, 404);
}

#[test]
fn refresh_widget_returns_200_with_error_body_on_source_failure() {
    let mut store = seeded("d1");
    let source = WidgetSource::Composio { action: "X".into(), args: json("{}") };
    let body = WidgetBody { source: Some(source), ..stat("w1") };
    let _ = create_widget(&mut store, "d1", &body);
    let target = refresh_target(&store, "d1", "w1").unwrap();
    let failed = Answer::Http(HttpReply::Unreached("connection refused".into()));
    let outcome = conclude(&target.source, failed);
    let reply = refresh_widget(&mut store, "w1", outcome);
    assert_eq!(reply.status, 200);
    assert_eq!(error(&reply), "composio execute failed: connection refused");
    assert!(store.get_widget("w1").unwrap().unwrap().last_error.is_some());
}

#[test]
fn device_ensure_and_bindings_and_delete() {
    let mut store = DashboardStore::new();
    let req = DeviceEnsureReq { device_id: "rhw_1".into(), device_name: Some("Desk".into()) };
    let reply = device_ensure(&mut store, &req);
    assert_eq!(reply.status, 200);
    assert!(document(reply).str_at("dashboard_id").unwrap().starts_with("dash_"));

    let reply = device_bindings(&store);
    assert_eq!(reply.status, 200);
    match document(reply).get("bindings") {
        Some(Json::Array(items)) => {
            assert_eq!(items.len(), 1);
            assert_eq!(items[0].str_at("device_id"), Some("rhw_1"));
            assert!(items[0].str_at("dashboard_id").unwrap().starts_with("dash_"));
        }
        other => panic!("{other:?}"),
    }

    let reply = delete_device_binding(&mut store, "rhw_1");
    assert_eq!(reply.status, 200);
    assert!(matches!(reply.body, ReplyBody::Done));
    match document(device_bindings(&store)).get("bindings") {
        Some(Json::Array(items)) => assert!(items.is_empty()),
        other => panic!("{other:?}"),
    }
}

#[test]
fn device_ensure_defaults_name_to_id() {
    let mut store = DashboardStore::new();
    let req = DeviceEnsureReq { device_id: "rhw_9".into(), device_name: None };
    let reply = device_ensure(&mut store, &req);
    assert_eq!(reply.status, 200);
    let v = document(reply);
    let dash = store.get_dashboard(v.str_at("dashboard_id").unwrap()).unwrap().unwrap();
    assert_eq!(dash.name, "rhw_9 display");
}

#[test]
fn device_config_and_manifest_and_image() {
    let mut store = DashboardStore::new();
    let req = DeviceRenderReq {
        device_id: "rhw_1".into(),
        device_name: "Desk".into(),
        device_type: "desk".into(),
        prefs: json("{}"),
        known_rev: None,
    };
    let reply = device_config(&mut store, &req);
    assert_eq!(reply.status, 200);
    let config = match reply.body {
        ReplyBody::Device(config) => config,
        other => panic!("{other:?}"),
    };
    assert_eq!(config.binding.device_id, "rhw_1");
    assert_eq!(screen_json(&config.profile).u64_at("w"), Some(800));

    let at = |tenths| Pixels { negative: false, tenths };
    let geometry = PanelGeometry { center_x: at(4000), center_y: at(2400), cells: Vec::new() };
    let fonts = std::sync::Arc::new(resvg::usvg::fontdb::Database::new());
    let draw = || render(&config.widgets, config.profile, &geometry, &fonts);
    let reply = device_manifest(&Ok((draw().unwrap(), config.binding)));
    assert_eq!(reply.status, 200);
    let v = document(reply);
    let rev = v.str_at("rev").unwrap().to_string();
    assert!(!rev.is_empty());
    assert_eq!(v.u64_at("refresh_rate"), Some(300));
    assert_eq!(v.get("screen").unwrap().u64_at("h"), Some(480));

    match device_image(draw(), &None) {
        ImageReply::Image { content_type, etag, bytes } => {
            assert_eq!(content_type, "application/octet-stream");
            assert_eq!(etag, format!("\"{rev}\""));
            assert_eq!(bytes.len(), 100 * 480);
        }
        other => panic!("{other:?}"),
    }
    assert!(matches!(device_image(draw(), &Some("other".into())), ImageReply::Image { .. }));
    assert!(matches!(device_image(draw(), &Some(rev)), ImageReply::NotModified));
}

#[test]
fn set_device_config_handler_updates_and_rejects_bad_widgets() {
    let mut store = DashboardStore::new();
    let req = |refresh_rate, widgets| DeviceSetReq {
        device_id: "rhw_1".into(),
        device_name: String::new(),
        refresh_rate,
        widgets,
    };
    let reply = set_device_config(&mut store, &req(Some(5), None));
    assert_eq!(reply.status, 200);
    let v = document(reply);
    assert_eq!(v.get("ok"), Some(&Json::Bool(true)));
    assert_eq!(v.u64_at("refresh_rate"), Some(30));
    assert!(v.str_at("dashboard_id").unwrap().starts_with("dash_"));

    let bad = Widget {
        id: String::new(),
        dashboard_id: String::new(),
        kind: WidgetKind::Stat,
        title: String::new(),
        config: Json::Null,
        source: WidgetSource::CoreEndpoint { endpoint: "secrets".into(), selector: None },
        refresh_interval: None,
        layout: GridLayout::default(),
        canvas: None,
        last_value: None,
        last_refresh_at: None,
        last_error: None,
    };
    let reply = set_device_config(&mut store, &req(None, Some(Some(vec![Ok(bad)]))));
    assert_eq!(reply.status, 400);
    assert!(error(&reply).contains("not an allowed core_endpoint"));
    assert_eq!(settings_reply(Err("why".into())).status, 400);
}

#[test]
fn events_query_default_holds_viewer_guard_semantics() {
    let internal = EventsQuery { internal: bool_flag("1") };
    assert!(internal.internal);
    let external = EventsQuery::default();
    assert!(!external.internal);
}

#[test]
fn unreadable_rows_answer_with_an_error() {
    let mut store = DashboardStore::new();
    store.dashboards.put(DashboardRow {
        id: "d".into(),
        body: None,
        created_at: "0".into(),
        updated_at: "0".into(),
    });
    let reply = get_dashboard(&store, "d");
    assert_eq!((reply.status, error(&reply)), (500, "deserializing dashboard"));
    let reply = create_widget(&mut store, "d", &stat("w"));
    assert_eq!((reply.status, error(&reply)), (404, "dashboard not found"));
    store.devices.put(DeviceDashboard {
        device_id: "r".into(),
        dashboard_id: "d".into(),
        refresh_rate: 300,
        created_at: "0".into(),
        updated_at: "0".into(),
    });
    let req = DeviceEnsureReq { device_id: "r".into(), device_name: None };
    let reply = device_ensure(&mut store, &req);
    assert_eq!((reply.status, error(&reply)), (500, "deserializing dashboard"));
    let req = DeviceRenderReq {
        device_id: "r".into(),
        device_name: String::new(),
        device_type: String::new(),
        prefs: Json::Null,
        known_rev: None,
    };
    let reply = device_config(&mut store, &req);
    assert_eq!((reply.status, error(&reply)), (500, "deserializing dashboard"));
}

#[test]
fn a_held_image_is_told_by_its_revision_alone() {
    let image = || RenderedImage {
        bytes: vec![1, 2, 3],
        content_type: "image/png",
        profile: DeviceProfile::watch_lcd(),
        source_hash: 5,
    };
    let rev = image().rev();
    assert!(matches!(device_image(Ok(image()), &Some(rev.clone())), ImageReply::NotModified));
    let other = RenderedImage { bytes: vec![1, 2, 4], ..image() };
    assert!(matches!(device_image(Ok(other), &Some(rev)), ImageReply::Image { .. }));
    match device_image(Err("no picture".into()), &None) {
        ImageReply::Refused(reply) => {
            assert_eq!((reply.status, error(&reply)), (500, "no picture"));
        }
        other => panic!("{other:?}"),
    }
    let reply = device_manifest(&Err("no picture".into()));
    assert_eq!((reply.status, error(&reply)), (500, "no picture"));
}

#[test]
fn a_widget_is_reached_through_its_own_dashboard_alone() {
    let mut store = seeded("d1");
    create_widget(&mut store, "d1", &stat("w1"));
    let moved =
        LayoutUpdateBody { x: Some(1), y: Some(1), w: Some(1), h: Some(1), canvas: None };
    let renamed = WidgetBody { title: Some("x".into()), ..empty_body() };
    assert_eq!(update_widget(&mut store, "d2", "w1", &renamed).status, 404);
    assert_eq!(update_widget_layout(&mut store, "d2", "w1", &moved).status, 404);
    assert_eq!(delete_widget(&mut store, "d2", "w1").status, 404);
    assert!(refresh_target(&store, "d2", "w1").is_err());
    let w = store.get_widget("w1").unwrap().unwrap();
    assert_eq!((w.title.as_str(), w.layout), ("", GridLayout::default()));
}

#[test]
fn renaming_and_switching_the_view_leave_each_other() {
    let mut store = seeded("d1");
    create_widget(&mut store, "d1", &stat("w1"));
    let switch = DashboardUpdateBody { name: None, view_mode: Some("canvas".into()) };
    let d = dashboard(update_dashboard(&mut store, "d1", &switch));
    assert_eq!((d.name.as_str(), d.view_mode.as_deref()), ("Seed", Some("canvas")));
    let rename = DashboardUpdateBody { name: Some(" New ".into()), view_mode: None };
    let d = dashboard(update_dashboard(&mut store, "d1", &rename));
    assert_eq!((d.name.as_str(), d.view_mode.as_deref()), ("New", Some("canvas")));
    assert_eq!(store.list_widgets("d1").len(), 1);
}
