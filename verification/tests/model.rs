//! Widgets, sources, layouts, values and numerals.

use ryu_dashboards::json::{compact_json, parse_json, Json, Number};
use ryu_dashboards::model::{
    double_bits, CanvasLayout, GridLayout, Widget, WidgetKind, WidgetSource, CANVAS_CELL,
};
use ryu_dashboards::text::{
    decimal, hex16, is_blank, not_after, parse_unsigned, split_char, split_whitespace, starts_with,
    trim,
};

fn widget_with(source: WidgetSource, interval: Option<&str>) -> Widget {
    Widget {
        id: "w1".into(),
        dashboard_id: "d1".into(),
        kind: WidgetKind::Stat,
        title: "t".into(),
        config: Json::Null,
        source,
        refresh_interval: interval.map(str::to_owned),
        layout: GridLayout::default(),
        canvas: None,
        last_value: None,
        last_refresh_at: None,
        last_error: None,
    }
}

fn agent() -> WidgetSource {
    WidgetSource::Agent { agent_id: "a".into(), prompt: "p".into() }
}

fn endpoint() -> WidgetSource {
    WidgetSource::CoreEndpoint { endpoint: "connections".into(), selector: None }
}

fn corners(c: &CanvasLayout) -> (f64, f64, f64, f64) {
    (f64::from_bits(c.x), f64::from_bits(c.y), f64::from_bits(c.w), f64::from_bits(c.h))
}

#[test]
fn interval_clamps_up_to_source_floor() {
    let w = widget_with(agent(), Some("1s"));
    assert_eq!(w.effective_interval_secs(), 30);
}

#[test]
fn interval_defaults_per_kind_when_unset() {
    let cheap = widget_with(endpoint(), None);
    assert_eq!(cheap.effective_interval_secs(), 15);
}

#[test]
fn intervals_are_read_from_cadences() {
    assert_eq!(widget_with(endpoint(), Some("5m")).effective_interval_secs(), 300);
    assert_eq!(widget_with(endpoint(), Some("  1h 30m ")).effective_interval_secs(), 5400);
    assert_eq!(widget_with(endpoint(), Some("7s")).effective_interval_secs(), 7);
    assert_eq!(widget_with(endpoint(), Some("1s")).effective_interval_secs(), 5);
    assert_eq!(widget_with(endpoint(), Some("soon")).effective_interval_secs(), 15);
    assert_eq!(widget_with(endpoint(), Some("  ")).effective_interval_secs(), 15);
    assert_eq!(widget_with(agent(), None).effective_interval_secs(), 120);
    let http = WidgetSource::Http { url: "u".into(), selector: None, headers: Vec::new() };
    assert_eq!(widget_with(http, None).effective_interval_secs(), 60);
    let still = WidgetSource::Static { data: Json::Null };
    assert_eq!(widget_with(still, Some("5s")).effective_interval_secs(), u64::MAX);
}

#[test]
fn cadences_past_the_range_are_not_readable() {
    let secs = |s: &str| widget_with(endpoint(), Some(s)).effective_interval_secs();
    assert_eq!(secs("1h 30m 15s 900ms 250us 100ns"), 5415);
    assert_eq!(secs("600000000000ns 1s"), 601);
    assert_eq!(secs("1000000000000ms 1.5h"), 1_000_005_400);
    assert_eq!(secs("2months 1d"), 5_346_432);
    assert_eq!(secs("18446744073709551615s"), u64::MAX);
    assert_eq!(secs("18446744073709551615s 1ns"), u64::MAX);
    assert_eq!(secs("18446744073709551615s 999999999ns"), u64::MAX);
    assert_eq!(secs("18446744073709551614s 1000ms"), u64::MAX);
    assert_eq!(secs("18446744073709551615.5s"), u64::MAX);
    assert_eq!(secs("600000000000.5s"), 600_000_000_000);
    assert_eq!(secs("1 0 0 s"), 100);
    assert_eq!(secs("100millis 9msec 5usec 90.5s 1wk 1yr"), 604_800 + 31_557_600 + 90);
    // What adds up to more seconds than 64 bits count is no cadence.
    assert_eq!(secs("18446744073709551615s 1000ms"), 15);
    assert_eq!(secs("18446744073709551615s 999999999ns 1ns"), 15);
    assert_eq!(secs("600000000000y"), 15);
    assert_eq!(secs("99999999999999999999999s"), 15);
}

#[test]
fn expensive_and_refreshable_classification() {
    assert!(agent().is_expensive());
    assert!(!endpoint().is_expensive());
    assert!(!WidgetSource::Static { data: Json::Null }.is_refreshable());
    assert!(endpoint().is_refreshable());
    let monitor = WidgetSource::Monitor { monitor_id: "m".into() };
    assert!(!monitor.is_expensive() && monitor.is_refreshable());
    assert_eq!(monitor.min_interval_secs(), 5);
}

#[test]
fn canvas_layout_derives_deterministically_from_grid() {
    let cell = CANVAS_CELL as f64;
    let grid = GridLayout { x: 3, y: 2, w: 5, h: 4 };
    let derived = corners(&CanvasLayout::from_grid(&grid));
    assert_eq!(derived.0, 3.0 * cell);
    assert_eq!(derived.1, 2.0 * cell);
    assert_eq!(derived.2, 5.0 * cell);
    assert_eq!(derived.3, 4.0 * cell);

    let mut w = widget_with(WidgetSource::Static { data: Json::Null }, None);
    w.layout = grid;
    w.canvas = None;
    assert_eq!(corners(&w.effective_canvas()), (300.0, 200.0, 500.0, 400.0));

    w.canvas = Some(CanvasLayout {
        x: 12.5f64.to_bits(),
        y: 34.5f64.to_bits(),
        w: 220.0f64.to_bits(),
        h: 180.0f64.to_bits(),
    });
    assert_eq!(corners(&w.effective_canvas()), (12.5, 34.5, 220.0, 180.0));
}

#[test]
fn whole_numbers_have_the_bits_of_their_doubles() {
    for n in [0u64, 1, 2, 3, 100, 1_000_000_007, 429_496_729_500, (1 << 52) - 1, 1 << 52] {
        assert_eq!(double_bits(n), (n as f64).to_bits(), "{n}");
    }
}

#[test]
fn values_keep_whole_numbers_and_what_numerals_are_read_as() {
    let through = |v: Json| Json::from_value(&v.to_value());
    let v = parse_json("{ \"a\": [0, 18446744073709551615, -9223372036854775808, {}] }").unwrap();
    assert_eq!(through(parse_json(&compact_json(&v)).unwrap()), v);
    assert_eq!(through(Json::Number(Number::NegInt(7))), Json::Number(Number::PosInt(7)));
    let decimal = |s: &str| Json::Number(Number::Decimal(s.into()));
    assert_eq!(through(decimal("2.50")), decimal("2.5"));
    assert_eq!(through(decimal("1e999")), Json::Null);
    assert_eq!(through(decimal("two")), Json::Null);
}

#[test]
fn json_is_parsed_and_printed() {
    let v = parse_json("{ \"b\": [1, -2, 2.5, \"x\", null, true], \"a\": {} }").unwrap();
    assert_eq!(v.u64_at("b"), None);
    assert_eq!(compact_json(&v), "{\"a\":{},\"b\":[1,-2,2.5,\"x\",null,true]}");
    match v.get("b") {
        Some(Json::Array(items)) => {
            assert_eq!(items[0], Json::Number(Number::PosInt(1)));
            assert_eq!(items[1], Json::Number(Number::NegInt(-2)));
            assert_eq!(items[2], Json::Number(Number::Decimal("2.5".into())));
        }
        other => panic!("{other:?}"),
    }
    assert!(parse_json("{").unwrap_err().contains("EOF"));
    // The last member of a key counts.
    assert_eq!(parse_json("{\"k\":1,\"k\":2}").unwrap().u64_at("k"), Some(2));
    let twice = Json::Object(vec![
        ("k".into(), Json::Number(Number::PosInt(1))),
        ("k".into(), Json::Number(Number::PosInt(2))),
    ]);
    assert_eq!(twice.u64_at("k"), Some(2));
    assert_eq!(twice.clone().str_at("k"), None);
}

#[test]
fn texts_are_trimmed_split_and_ordered() {
    assert_eq!(trim(" \u{2003}a b\n"), "a b");
    assert!(is_blank("\t\u{a0} "));
    assert_eq!(split_char("a.b..c", '.'), ["a", "b", "", "c"]);
    assert_eq!(split_char("", '.'), [""]);
    assert_eq!(split_whitespace("  a  b\tc "), ["a", "b", "c"]);
    assert!(starts_with("--bind=x", "--bind=") && !starts_with("-", "--"));
    assert_eq!(decimal(0), "0");
    assert_eq!(decimal(u64::MAX), "18446744073709551615");
    assert_eq!(hex16(0xabc), "0000000000000abc");
    assert_eq!(parse_unsigned("+007", 7), Some(7));
    assert_eq!(parse_unsigned("8", 7), None);
    assert_eq!(parse_unsigned("+", 7), None);
    assert_eq!(parse_unsigned("", 7), None);
    assert!(not_after("a", "a") && not_after("a", "ab") && !not_after("b", "ab"));
}
