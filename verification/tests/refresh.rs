//! Which widgets a pass of the refresh loop resolves.

use ryu_dashboards::clock::{is_datable, now, Instant};
use ryu_dashboards::json::{parse_json, Json};
use ryu_dashboards::model::{GridLayout, Widget, WidgetKind, WidgetSource};
use ryu_dashboards::refresh::{due_widgets, due_widgets_at, is_due, is_due_since};
use ryu_dashboards::sources::{conclude, Answer};
use ryu_dashboards::store::DashboardStore;

fn widget(id: &str, source: WidgetSource, last_refresh_at: Option<String>) -> Widget {
    Widget {
        id: id.into(),
        dashboard_id: "d1".into(),
        kind: WidgetKind::Stat,
        title: "t".into(),
        config: Json::Null,
        source,
        refresh_interval: None,
        layout: GridLayout::default(),
        canvas: None,
        last_value: None,
        last_refresh_at,
        last_error: None,
    }
}

fn agents() -> WidgetSource {
    WidgetSource::CoreEndpoint { endpoint: "agents".into(), selector: None }
}

fn http(selector: Option<&str>) -> WidgetSource {
    WidgetSource::Http {
        url: "https://x".into(),
        selector: selector.map(str::to_owned),
        headers: Vec::new(),
    }
}

fn instant(t: chrono::DateTime<chrono::Utc>) -> Instant {
    Instant { secs: t.timestamp(), nanos: t.timestamp_subsec_nanos() }
}

/// One pass: every due widget is resolved by `answer` and its outcome cached.
fn run_once(store: &mut DashboardStore, answer: fn() -> Answer) {
    for w in due_widgets(store) {
        let result = conclude(&w.source, answer());
        store.update_widget_value(&w.id, &result).unwrap();
    }
}

#[test]
fn never_refreshed_widget_is_always_due() {
    let w = widget("w", agents(), None);
    assert!(is_due(&w, instant(chrono::Utc::now())));
}

#[test]
fn recently_refreshed_widget_is_not_due() {
    let now = chrono::Utc::now();
    let last = (now - chrono::Duration::seconds(1)).to_rfc3339();
    let w = widget("w", agents(), Some(last));
    assert!(!is_due(&w, instant(now)));
}

#[test]
fn elapsed_widget_is_due_again() {
    let now = chrono::Utc::now();
    let last = (now - chrono::Duration::seconds(999)).to_rfc3339();
    let w = widget("w", agents(), Some(last));
    assert!(is_due(&w, instant(now)));
}

#[test]
fn unparseable_last_refresh_is_treated_as_never() {
    let w = widget("w", agents(), Some("not-a-timestamp".into()));
    assert!(is_due(&w, instant(chrono::Utc::now())));
}

#[test]
fn a_widget_is_due_at_the_very_end_of_its_interval() {
    let at = |secs: i64, nanos: u32| Instant { secs, nanos };
    let w = widget("w", agents(), Some("2026-01-01T00:00:00.5+01:00".into()));
    // 2025-12-31T23:00:00.5Z, and fifteen seconds on.
    let last = 1_767_222_000;
    assert!(!is_due(&w, at(last + 15, 499_999_999)));
    assert!(is_due(&w, at(last + 15, 500_000_000)));
    // A last refresh in the future is not due.
    assert!(!is_due(&w, at(last - 1, 0)));
    // However long the interval, it has to pass.
    assert!(!is_due_since(u64::MAX, Some(at(10, 0)), at(9, 0)));
    assert!(!is_due_since(u64::MAX, Some(at(10, 0)), at(8_000_000_000_000, 0)));
    assert!(!is_due_since(1 << 63, Some(at(10, 0)), at(10, 0)));
    let still = WidgetSource::Static { data: Json::Null };
    assert!(!is_due(&widget("s", still, Some("2026-01-01T00:00:00Z".into())), at(last, 0)));
    let mut rare = widget("r", agents(), Some("2026-01-01T00:00:00Z".into()));
    rare.refresh_interval = Some("9223372036854775808s".into());
    assert!(!is_due(&rare, at(last + 1_000_000, 0)));
    assert!(is_due_since(7, None, at(0, 0)));
}

#[test]
fn run_once_skips_static_and_caches_nothing() {
    let mut store = DashboardStore::new();
    let w = widget("w", WidgetSource::Static { data: Json::Null }, None);
    store.upsert_widget(&w).unwrap();
    run_once(&mut store, || unreachable!());
    let stored = store.get_widget("w").unwrap().unwrap();
    assert!(stored.last_refresh_at.is_none());
}

#[test]
fn run_once_skips_expensive_source_without_viewer() {
    let mut store = DashboardStore::new();
    store.upsert_widget(&widget("w", http(None), None)).unwrap();
    run_once(&mut store, || unreachable!());
    let stored = store.get_widget("w").unwrap().unwrap();
    assert!(stored.last_refresh_at.is_none(), "expensive source must be skipped with no viewer");
}

#[test]
fn run_once_resolves_expensive_source_with_viewer() {
    let mut store = DashboardStore::new();
    store.upsert_widget(&widget("w", http(Some("n")), None)).unwrap();
    let _guard = store.viewer_guard();
    run_once(&mut store, || Answer::Fetched(Ok((200, r#"{"n":3}"#.into()))));
    let stored = store.get_widget("w").unwrap().unwrap();
    assert_eq!(stored.last_value, Some(parse_json("3").unwrap()));
    assert!(stored.last_refresh_at.is_some());
    assert!(stored.last_error.is_none());
}

#[test]
fn run_once_caches_error_from_failed_source() {
    let mut store = DashboardStore::new();
    store.upsert_widget(&widget("w", http(None), None)).unwrap();
    let _guard = store.viewer_guard();
    run_once(&mut store, || Answer::Fetched(Err("guard blocked".into())));
    let stored = store.get_widget("w").unwrap().unwrap();
    assert!(stored.last_error.as_deref().unwrap().contains("guard blocked"));
    assert!(stored.last_value.is_none());
}

#[test]
fn a_pass_keeps_the_order_of_the_widgets() {
    let mut store = DashboardStore::new();
    for id in ["c", "a", "b"] {
        store.upsert_widget_at(&widget(id, agents(), None), "t").unwrap();
    }
    store.upsert_widget_at(&widget("x", http(None), None), "t").unwrap();
    let ids: Vec<String> =
        due_widgets_at(&store, Instant { secs: 0, nanos: 0 }).into_iter().map(|w| w.id).collect();
    assert_eq!(ids, ["c", "a", "b"]);
    let _guard = store.viewer_guard();
    let ids: Vec<String> =
        due_widgets_at(&store, Instant { secs: 0, nanos: 0 }).into_iter().map(|w| w.id).collect();
    assert_eq!(ids, ["c", "a", "b", "x"]);
}

#[test]
fn a_subscriber_is_no_viewer() {
    let mut store = DashboardStore::new();
    store.upsert_widget(&widget("w", http(None), None)).unwrap();
    let _internal = store.subscribe();
    assert!(due_widgets(&store).is_empty());
    let guard = store.viewer_guard();
    assert_eq!(due_widgets(&store).len(), 1);
    store.viewer_left(guard);
    assert!(due_widgets(&store).is_empty());
}

#[test]
fn moments_are_dated_within_the_calendar() {
    let dated = |secs: i64, nanos: u32| is_datable(Instant { secs, nanos });
    assert!(dated(0, 999_999_999) && dated(59, 1_999_999_999));
    assert!(!dated(58, 1_000_000_000) && !dated(59, 2_000_000_000));
    for secs in [-8_334_601_228_800, 8_210_266_876_799] {
        assert!(dated(secs, 0) && chrono::DateTime::from_timestamp(secs, 0).is_some());
    }
    for secs in [-8_334_601_228_801, 8_210_266_876_800] {
        assert!(!dated(secs, 0) && chrono::DateTime::from_timestamp(secs, 0).is_none());
    }
}

#[test]
fn stamps_read_back_as_the_moment() {
    let before = chrono::Utc::now();
    let read = chrono::DateTime::parse_from_rfc3339(&now()).expect("a time stamp");
    assert!(before <= read && read <= chrono::Utc::now());

    let mut store = DashboardStore::new();
    store.upsert_widget(&widget("w", agents(), None)).unwrap();
    let then = chrono::Utc::now();
    store.update_widget_value("w", &Err("down".into())).unwrap();
    let w = store.get_widget("w").unwrap().unwrap();
    assert!(!is_due(&w, instant(then)));
    assert!(!is_due(&w, instant(then + chrono::TimeDelta::seconds(4))));
    assert!(is_due(&w, instant(chrono::Utc::now() + chrono::TimeDelta::seconds(15))));
}
