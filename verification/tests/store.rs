//! The store: what is written is read, and the changes are told.

use ryu_dashboards::json::{parse_json, Json};
use ryu_dashboards::model::{
    CanvasLayout, Dashboard, DashboardEvent, DeviceDashboard, GridLayout, Widget, WidgetKind,
    WidgetSource,
};
use ryu_dashboards::store::{DashboardRow, DashboardStore, WidgetRow};

fn test_widget(id: &str, dashboard_id: &str) -> Widget {
    Widget {
        id: id.to_string(),
        dashboard_id: dashboard_id.to_string(),
        kind: WidgetKind::Stat,
        title: "Test".to_string(),
        config: Json::Null,
        source: WidgetSource::Static { data: Json::Null },
        refresh_interval: None,
        layout: GridLayout::default(),
        canvas: None,
        last_value: None,
        last_refresh_at: None,
        last_error: None,
    }
}

fn dashboard(id: &str, created_at: &str) -> Dashboard {
    Dashboard {
        id: id.into(),
        name: id.to_uppercase(),
        created_at: created_at.into(),
        updated_at: created_at.into(),
        view_mode: None,
    }
}

fn ids(widgets: Vec<Widget>) -> Vec<String> {
    widgets.into_iter().map(|w| w.id).collect()
}

#[test]
fn viewer_count_is_decoupled_from_subscribe() {
    let mut store = DashboardStore::new();
    let internal = store.subscribe();
    assert_eq!(store.viewer_count(), 0, "subscribe alone is not a UI viewer");
    assert!(store.receiver_count() >= 1);

    let guard = store.viewer_guard();
    assert_eq!(store.viewer_count(), 1);
    store.viewer_left(guard);
    assert_eq!(store.viewer_count(), 0, "dropping the stream clears the viewer");
    store.unsubscribe(internal);
    assert_eq!(store.receiver_count(), 0);
}

#[test]
fn device_dashboard_round_trips() {
    let mut store = DashboardStore::new();
    let now = "2026-01-01T00:00:00+00:00".to_string();
    let dd = DeviceDashboard {
        device_id: "rhw_1".into(),
        dashboard_id: "dash_1".into(),
        refresh_rate: 300,
        created_at: now.clone(),
        updated_at: now,
    };
    store.upsert_device_dashboard(&dd);
    let got = store.get_device_dashboard("rhw_1").unwrap();
    assert_eq!(got.dashboard_id, "dash_1");
    assert_eq!(got.refresh_rate, 300);
    assert_eq!(store.list_device_dashboards().len(), 1);
    assert!(store.delete_device_dashboard("rhw_1"));
    assert!(store.get_device_dashboard("rhw_1").is_none());
    assert!(!store.delete_device_dashboard("rhw_1"));
}

#[test]
fn a_binding_keeps_the_time_of_its_creation() {
    let mut store = DashboardStore::new();
    let mut dd = DeviceDashboard {
        device_id: "r".into(),
        dashboard_id: "a".into(),
        refresh_rate: 300,
        created_at: "1".into(),
        updated_at: "1".into(),
    };
    store.upsert_device_dashboard(&dd);
    dd.dashboard_id = "b".into();
    dd.created_at = "2".into();
    dd.updated_at = "2".into();
    store.upsert_device_dashboard(&dd);
    let got = store.get_device_dashboard("r").unwrap();
    assert_eq!((got.dashboard_id.as_str(), got.created_at.as_str()), ("b", "1"));
    assert_eq!(got.updated_at, "2");
}

#[test]
fn widget_id_cannot_move_between_dashboards() {
    let mut store = DashboardStore::new();
    store.upsert_widget(&test_widget("w1", "dash_a")).unwrap();

    let err = store.upsert_widget(&test_widget("w1", "dash_b")).unwrap_err();
    assert!(err.contains("already belongs to dashboard"));
    assert_eq!(err, "widget 'w1' already belongs to dashboard 'dash_a'");

    let widget = store.get_widget("w1").unwrap().unwrap();
    assert_eq!(widget.dashboard_id, "dash_a");
}

#[test]
fn scoped_widget_delete_requires_matching_dashboard() {
    let mut store = DashboardStore::new();
    store.upsert_widget(&test_widget("w1", "dash_a")).unwrap();

    assert!(!store.delete_widget_for_dashboard("dash_b", "w1"));
    assert!(store.get_widget("w1").unwrap().is_some());

    assert!(store.delete_widget_for_dashboard("dash_a", "w1"));
    assert!(store.get_widget("w1").unwrap().is_none());
}

#[test]
fn dashboards_are_listed_by_their_first_writing() {
    let mut store = DashboardStore::new();
    store.upsert_dashboard(&dashboard("b", "2"));
    store.upsert_dashboard(&dashboard("c", "2"));
    store.upsert_dashboard(&dashboard("a", "1"));
    // A later writing keeps the place.
    store.upsert_dashboard(&dashboard("a", "9"));
    let names: Vec<String> = store.list_dashboards().into_iter().map(|d| d.id).collect();
    assert_eq!(names, ["a", "b", "c"]);
    assert_eq!(store.get_dashboard("a").unwrap().unwrap().created_at, "9");
    assert!(store.get_dashboard("z").unwrap().is_none());
}

#[test]
fn widgets_are_listed_by_dashboard_and_age() {
    let mut store = DashboardStore::new();
    store.upsert_widget_at(&test_widget("w3", "a"), "3").unwrap();
    store.upsert_widget_at(&test_widget("w1", "a"), "1").unwrap();
    store.upsert_widget_at(&test_widget("x", "b"), "0").unwrap();
    store.upsert_widget_at(&test_widget("w2", "a"), "1").unwrap();
    store.upsert_widget_at(&test_widget("w1", "a"), "8").unwrap();
    assert_eq!(ids(store.list_widgets("a")), ["w1", "w2", "w3"]);
    assert_eq!(ids(store.list_widgets("b")), ["x"]);
    assert_eq!(ids(store.list_all_widgets()), ["w3", "w1", "x", "w2"]);
}

#[test]
fn removing_a_dashboard_takes_its_widgets() {
    let mut store = DashboardStore::new();
    store.upsert_dashboard(&dashboard("a", "1"));
    store.upsert_widget(&test_widget("w1", "a")).unwrap();
    store.upsert_widget(&test_widget("w2", "b")).unwrap();
    store.upsert_widget(&test_widget("w3", "a")).unwrap();
    assert!(store.delete_dashboard("a"));
    assert_eq!(ids(store.list_all_widgets()), ["w2"]);
    // The widgets of a dashboard that is not there go too.
    assert!(!store.delete_dashboard("b"));
    assert!(store.list_all_widgets().is_empty());
}

#[test]
fn unreadable_rows_are_errors_alone_and_left_out_of_lists() {
    let mut store = DashboardStore::new();
    store.upsert_widget(&test_widget("w1", "a")).unwrap();
    store.widgets.put(WidgetRow {
        id: "bad".into(),
        dashboard_id: "a".into(),
        body: None,
        created_at: "0".into(),
        updated_at: "0".into(),
    });
    store.dashboards.put(DashboardRow {
        id: "d".into(),
        body: None,
        created_at: "0".into(),
        updated_at: "0".into(),
    });
    assert_eq!(store.get_dashboard("d").unwrap_err(), "deserializing dashboard");
    assert_eq!(store.get_widget("bad").unwrap_err(), "deserializing widget");
    assert_eq!(store.get_widget_for_dashboard("a", "bad").unwrap_err(), "deserializing widget");
    assert!(store.get_widget_for_dashboard("b", "bad").unwrap().is_none());
    assert_eq!(ids(store.list_widgets("a")), ["w1"]);
    assert!(store.list_dashboards().is_empty());
    assert_eq!(
        store.update_widget_value("bad", &Ok(Json::Null)).unwrap_err(),
        "deserializing widget"
    );
    assert!(store.update_widget_layout("bad", GridLayout::default()).is_err());
    // Writing the key again mends the row.
    store.upsert_widget(&test_widget("bad", "a")).unwrap();
    assert_eq!(ids(store.list_widgets("a")), ["bad", "w1"]);
}

#[test]
fn moving_a_widget_on_one_view_leaves_the_other() {
    let mut store = DashboardStore::new();
    store.upsert_widget(&test_widget("w", "a")).unwrap();
    let canvas = CanvasLayout { x: 1, y: 2, w: 3, h: 4 };
    let grid = GridLayout { x: 5, y: 6, w: 7, h: 8 };
    let moved = store
        .update_widget_layout_fields_for_dashboard("a", "w", None, Some(canvas))
        .unwrap()
        .unwrap();
    assert_eq!((moved.layout, moved.canvas), (GridLayout::default(), Some(canvas)));
    let moved = store.update_widget_layout_for_dashboard("a", "w", grid).unwrap().unwrap();
    assert_eq!((moved.layout, moved.canvas), (grid, Some(canvas)));
    let same =
        store.update_widget_layout_fields_for_dashboard("a", "w", None, None).unwrap().unwrap();
    assert_eq!((same.layout, same.canvas), (grid, Some(canvas)));
    let back = store.update_widget_layout("w", GridLayout::default()).unwrap().unwrap();
    assert_eq!(back.layout, GridLayout::default());
    assert!(store.update_widget_layout_for_dashboard("b", "w", grid).unwrap().is_none());
    assert!(store.update_widget_layout("none", grid).unwrap().is_none());
}

#[test]
fn outcomes_are_cached_and_a_failure_keeps_the_value() {
    let mut store = DashboardStore::new();
    store.upsert_widget(&test_widget("w", "a")).unwrap();
    store.update_widget_value_at("w", &Ok(parse_json("5").unwrap()), "t1", "u1").unwrap();
    store.update_widget_value_at("w", &Err("late".into()), "t2", "u2").unwrap();
    let w = store.get_widget("w").unwrap().unwrap();
    assert_eq!(w.last_value, Some(parse_json("5").unwrap()));
    assert_eq!((w.last_error.as_deref(), w.last_refresh_at.as_deref()), (Some("late"), Some("t2")));
    assert_eq!(store.widgets.rows[0].updated_at, "u2");
    store.update_widget_value_at("w", &Ok(Json::Null), "t3", "u3").unwrap();
    assert!(store.get_widget("w").unwrap().unwrap().last_error.is_none());
    store.update_widget_value("gone", &Ok(Json::Null)).unwrap();
}

#[test]
fn changes_are_told_to_subscribers_alone() {
    let mut store = DashboardStore::new();
    store.upsert_dashboard(&dashboard("a", "1"));
    assert!(store.events.is_empty(), "nobody listens yet");
    let subscription = store.subscribe();
    store.upsert_dashboard(&dashboard("a", "1"));
    store.upsert_widget(&test_widget("w", "a")).unwrap();
    let _ = store.upsert_widget(&test_widget("w", "b"));
    store.update_widget_value_at("w", &Ok(Json::Bool(true)), "t", "u").unwrap();
    store.update_widget_value_at("w", &Err("e".into()), "t", "u").unwrap();
    store.delete_widget("w");
    store.delete_widget("w");
    store.delete_dashboard("a");
    store.delete_dashboard("a");
    let told: Vec<String> = store
        .events
        .iter()
        .map(|e| match e {
            DashboardEvent::DashboardUpdated { dashboard_id } => format!("d {dashboard_id}"),
            DashboardEvent::WidgetUpdated { dashboard_id, widget } => {
                format!("u {dashboard_id} {}", widget.id)
            }
            DashboardEvent::WidgetData { widget_id, value, at, .. } => {
                format!("v {widget_id} {value:?} {at}")
            }
            DashboardEvent::WidgetError { widget_id, error, .. } => format!("e {widget_id} {error}"),
            DashboardEvent::WidgetDeleted { dashboard_id, widget_id } => {
                format!("x {dashboard_id} {widget_id}")
            }
        })
        .collect();
    assert_eq!(told, ["d a", "u a w", "v w Bool(true) t", "e w e", "x a w", "d a"]);
    store.unsubscribe(subscription);
    store.upsert_dashboard(&dashboard("a", "1"));
    assert_eq!(store.events.len(), 6);
}

#[test]
fn rows_that_disagree_are_told() {
    let row = |id: &str, body: Option<Dashboard>| DashboardRow {
        id: id.into(),
        body,
        created_at: "t".into(),
        updated_at: "t".into(),
    };
    let on = |id: &str, dashboard_id: &str, body: Option<Widget>| WidgetRow {
        id: id.into(),
        dashboard_id: dashboard_id.into(),
        body,
        created_at: "t".into(),
        updated_at: "t".into(),
    };
    let mut store = DashboardStore::new();
    assert!(store.is_wf());
    store.dashboards.rows.push(row("a", Some(dashboard("a", "t"))));
    store.dashboards.rows.push(row("b", None));
    store.widgets.rows.push(on("w", "a", Some(test_widget("w", "a"))));
    assert!(store.is_wf());

    store.dashboards.rows.push(row("a", None));
    assert!(!store.is_wf(), "a key that stands twice");
    store.dashboards.rows.pop();
    store.dashboards.rows.push(row("c", Some(dashboard("d", "t"))));
    assert!(!store.is_wf(), "a dashboard under another id");
    store.dashboards.rows.pop();
    store.widgets.rows.push(on("v", "a", Some(test_widget("u", "a"))));
    assert!(!store.is_wf(), "a widget under another id");
    store.widgets.rows.pop();
    store.widgets.rows.push(on("v", "b", Some(test_widget("v", "a"))));
    assert!(!store.is_wf(), "a widget on another dashboard");
    store.widgets.rows.pop();
    assert!(store.is_wf());
}
