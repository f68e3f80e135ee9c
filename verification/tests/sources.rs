//! Which calls sources make, and what the answers mean.

use ryu_dashboards::json::{parse_json, Json};
use ryu_dashboards::model::WidgetSource;
use ryu_dashboards::sources::{
    choose_reply, conclude, core_endpoint_path, endpoint_list, external_result, fenced_block,
    id_segment_is_safe, parse_agent_reply, plan, select, self_base, self_bind, self_token, Answer,
    Call, HttpReply, Plan, CORE_ENDPOINT_NAMES,
};

fn json(text: &str) -> Json {
    parse_json(text).expect("valid JSON")
}

const BASE: &str = "http://127.0.0.1:7980";
const GATEWAY: &str = "http://127.0.0.1:9";

fn http(selector: Option<&str>) -> WidgetSource {
    WidgetSource::Http {
        url: "https://x".into(),
        selector: selector.map(str::to_owned),
        headers: Vec::new(),
    }
}

fn agent() -> WidgetSource {
    WidgetSource::Agent { agent_id: "assistant".into(), prompt: "how many?".into() }
}

fn answered(status: u16, line: &str, body: Result<Json, &str>) -> Answer {
    Answer::Http(HttpReply::Answered {
        status,
        status_line: line.into(),
        body: body.map_err(str::to_owned),
    })
}

#[test]
fn selector_helpers_work() {
    let v = json("{ \"a\": { \"b\": [1, 2, 3] } }");
    assert_eq!(select(&v, Some("a.b.2")), json("3"));
    assert_eq!(select(&v, Some("nope")), Json::Null);
}

#[test]
fn selector_walks_objects_and_arrays() {
    let body = json("{ \"items\": [{ \"n\": 5 }, { \"n\": 9 }] }");
    assert_eq!(select(&body, Some("items.1.n")), json("9"));
    assert_eq!(select(&body, Some("missing")), Json::Null);
    assert_eq!(select(&body, None), body);
}

#[test]
fn select_edge_cases() {
    let v = json("{ \"a\": [10, 20] }");
    assert_eq!(select(&v, Some("a.5")), Json::Null);
    assert_eq!(select(&v, Some("a.0.deeper")), Json::Null);
    assert_eq!(select(&v, Some("   ")), v);
    assert_eq!(select(&v, Some("")), v);
}

#[test]
fn selectors_trim_and_read_indices_strictly() {
    let v = json("{ \"a\": [10, 20], \"\": { \"\": 1 } }");
    assert_eq!(select(&v, Some("  a.1 ")), json("20"));
    assert_eq!(select(&v, Some("a.+1")), json("20"));
    assert_eq!(select(&v, Some("a.01")), json("20"));
    assert_eq!(select(&v, Some("a.-1")), Json::Null);
    assert_eq!(select(&v, Some("a.99999999999999999999999")), Json::Null);
    assert_eq!(select(&v, Some(".")), json("1"));
    // One walk after another is both as one.
    let first = select(&v, Some("a"));
    assert_eq!(select(&first, Some("0")), select(&v, Some("a.0")));
}

#[test]
fn core_endpoint_allowlist_maps_known_and_rejects_unknown() {
    assert_eq!(core_endpoint_path("system_status"), Some("/api/system/status"));
    assert_eq!(core_endpoint_path("workflows"), Some("/workflows"));
    assert!(core_endpoint_path("secrets").is_none());
    assert!(core_endpoint_path("").is_none());
    for name in CORE_ENDPOINT_NAMES {
        assert!(core_endpoint_path(name).is_some(), "{name} must map");
    }
}

#[test]
fn every_endpoint_has_its_path() {
    let paths: Vec<&str> =
        CORE_ENDPOINT_NAMES.iter().map(|n| core_endpoint_path(n).unwrap()).collect();
    assert_eq!(
        paths,
        [
            "/api/system/status",
            "/api/sidecar/status",
            "/api/connections",
            "/api/quests",
            "/api/monitors",
            "/api/engines",
            "/api/agents",
            "/workflows",
            "/api/meetings",
        ]
    );
    assert_eq!(endpoint_list(), CORE_ENDPOINT_NAMES.join(", "));
}

#[test]
fn id_segment_is_safe_rejects_traversal_and_separators() {
    assert!(id_segment_is_safe("abc123"));
    assert!(id_segment_is_safe("wf-2026_07-16.v2"));
    assert!(id_segment_is_safe("550e8400-e29b-41d4-a716-446655440000"));
    assert!(!id_segment_is_safe(""));
    assert!(!id_segment_is_safe(".."));
    assert!(!id_segment_is_safe("../../api/agents/foo"));
    assert!(!id_segment_is_safe("a..b"));
    assert!(!id_segment_is_safe("a/b"));
    assert!(!id_segment_is_safe("../../api/agents/foo?"));
    assert!(!id_segment_is_safe("a b"));
    assert!(!id_segment_is_safe("ä"));
}

#[test]
fn parse_agent_reply_variants() {
    let v = parse_agent_reply("here you go:\n```json\n{\"n\": 7}\n```\nbye");
    assert_eq!(v, json("{ \"n\": 7 }"));
    let v = parse_agent_reply("```\n[1, 2, 3]\n```");
    assert_eq!(v, json("[1, 2, 3]"));
    let v = parse_agent_reply("  {\"ok\": true}  ");
    assert_eq!(v, json("{ \"ok\": true }"));
    let v = parse_agent_reply("just some words");
    assert_eq!(v, json("{ \"text\": \"just some words\" }"));
    let v = parse_agent_reply("```json\nnot json at all\n```");
    assert_eq!(v.str_at("text"), Some("```json\nnot json at all\n```"));
}

#[test]
fn fences_hold_the_first_block() {
    assert_eq!(fenced_block("a ``` b ``` c"), Some("b".to_owned()));
    assert_eq!(fenced_block("```json1```"), Some("1".to_owned()));
    assert_eq!(fenced_block("``` open"), None);
    assert_eq!(fenced_block("none"), None);
    // Prose keeps the white space around it.
    assert_eq!(parse_agent_reply(" hi ").str_at("text"), Some(" hi "));
    assert_eq!(choose_reply("r", Some(Ok(json("1"))), Ok(json("2"))), json("1"));
    assert_eq!(choose_reply("r", Some(Err("e".into())), Ok(json("2"))), json("2"));
    assert_eq!(choose_reply("r", None, Err("e".into())), json("{\"text\":\"r\"}"));
}

#[test]
fn the_node_calls_itself_on_its_own_port() {
    let args = |list: &[&str]| list.iter().map(|s| s.to_string()).collect::<Vec<_>>();
    assert_eq!(self_base(&[], None), "http://127.0.0.1:7980");
    assert_eq!(self_base(&[], Some("0.0.0.0:8000")), "http://127.0.0.1:8000");
    assert_eq!(self_base(&args(&["-v", "--bind=1.2.3.4:9", "--bind=5:6"]), Some("x:1")), "http://127.0.0.1:9");
    assert_eq!(self_base(&args(&["--bind=[::1]:77"]), None), "http://127.0.0.1:77");
    assert_eq!(self_base(&args(&["--bind=8080"]), None), "http://127.0.0.1:8080");
    assert_eq!(self_bind(&args(&["--bind="]), None), "");
    assert_eq!(self_token(Some("t")), Some("t".to_owned()));
    assert_eq!(self_token(Some("")), None);
    assert_eq!(self_token(None), None);
}

#[test]
fn resolve_static_returns_inline_data() {
    let src = WidgetSource::Static { data: json("{ \"hi\": 1 }") };
    match plan(&src, "w1", BASE, GATEWAY) {
        Ok(Plan::Ready(v)) => assert_eq!(v, json("{ \"hi\": 1 }")),
        other => panic!("{other:?}"),
    }
}

#[test]
fn resolve_core_endpoint_rejects_unknown_without_network() {
    let src = WidgetSource::CoreEndpoint { endpoint: "secrets".into(), selector: None };
    let err = plan(&src, "w1", BASE, GATEWAY).unwrap_err();
    assert!(err.contains("not an allowed Core endpoint"));
    assert_eq!(err, "'secrets' is not an allowed Core endpoint");
}

#[test]
fn resolve_http_success_applies_selector_and_records_call() {
    let src = WidgetSource::Http {
        url: "https://api.example.com/x".into(),
        selector: Some("data.count".into()),
        headers: vec![("X-Api".to_string(), "key".to_string())],
    };
    match plan(&src, "w1", BASE, GATEWAY) {
        Ok(Plan::Make(Call::Fetch { url, headers })) => {
            assert_eq!(url, "https://api.example.com/x");
            assert_eq!(headers, vec![("X-Api".to_string(), "key".to_string())]);
        }
        other => panic!("{other:?}"),
    }
    let v = conclude(&src, Answer::Fetched(Ok((200, r#"{"data":{"count":5}}"#.into())))).unwrap();
    assert_eq!(v, json("5"));
}

#[test]
fn resolve_http_rejects_redirect_status() {
    let err = conclude(&http(None), Answer::Fetched(Ok((302, String::new())))).unwrap_err();
    assert!(err.contains("redirects are not allowed"));
}

#[test]
fn resolve_http_rejects_non_2xx_and_non_json() {
    let err = conclude(&http(None), Answer::Fetched(Ok((500, "boom".into())))).unwrap_err();
    assert!(err.contains("http GET returned 500"));
    let err = conclude(&http(None), Answer::Fetched(Ok((200, "<html>".into())))).unwrap_err();
    assert!(err.contains("response was not JSON"));
}

#[test]
fn resolve_http_surfaces_guard_error() {
    let answer = Answer::Fetched(Err("blocked: private address".into()));
    let err = conclude(&http(None), answer).unwrap_err();
    assert!(err.contains("blocked: private address"));
}

#[test]
fn statuses_are_told_apart_at_their_edges() {
    let ok = || Ok(json("1"));
    assert_eq!(external_result(199, ok(), &None).unwrap_err(), "http GET returned 199");
    assert_eq!(external_result(200, ok(), &None), Ok(json("1")));
    assert_eq!(external_result(299, ok(), &None), Ok(json("1")));
    for status in [300, 399] {
        assert_eq!(
            external_result(status, ok(), &None).unwrap_err(),
            "http source refused: redirects are not allowed"
        );
    }
    assert_eq!(external_result(400, ok(), &None).unwrap_err(), "http GET returned 400");
    assert_eq!(
        external_result(200, Err("bad".into()), &None).unwrap_err(),
        "response was not JSON: bad"
    );
}

#[test]
fn resolve_agent_parses_reply_and_scopes_conversation() {
    match plan(&agent(), "widget-7", BASE, GATEWAY) {
        Ok(Plan::Make(Call::AgentRun { agent_id, conversation_id, prompt })) => {
            assert_eq!(agent_id, "assistant");
            assert_eq!(conversation_id, "dashboard-widget-widget-7");
            assert_eq!(prompt, "how many?");
        }
        other => panic!("{other:?}"),
    }
    let v = conclude(&agent(), Answer::Ran(Ok("```json\n{\"v\": 42}\n```".into()))).unwrap();
    assert_eq!(v, json("{ \"v\": 42 }"));
}

#[test]
fn resolve_agent_propagates_error() {
    let err = conclude(&agent(), Answer::Ran(Err("runner offline".into()))).unwrap_err();
    assert!(err.contains("agent run failed"));
    assert!(err.contains("runner offline"));
}

#[test]
fn resolve_composio_errors_on_closed_gateway() {
    let src = WidgetSource::Composio { action: "GITHUB_LIST".into(), args: json("{ \"x\": 1 }") };
    match plan(&src, "w1", BASE, GATEWAY) {
        Ok(Plan::Make(Call::GatewayPost { url, body, timeout_secs })) => {
            assert_eq!(url, "http://127.0.0.1:9/tools/execute/GITHUB_LIST");
            assert_eq!(body, json("{ \"arguments\": { \"x\": 1 } }"));
            assert_eq!(timeout_secs, 60);
        }
        other => panic!("{other:?}"),
    }
    let err = conclude(&src, Answer::Http(HttpReply::Unreached("refused".into()))).unwrap_err();
    assert!(err.contains("composio execute failed"), "{err}");
    assert_eq!(err, "composio execute failed: refused");
}

#[test]
fn composio_surfaces_the_data_of_its_answer() {
    let src = WidgetSource::Composio { action: "X".into(), args: Json::Null };
    let v = conclude(&src, answered(200, "200 OK", Ok(json("{\"data\":[1]}")))).unwrap();
    assert_eq!(v, json("[1]"));
    let v = conclude(&src, answered(200, "200 OK", Ok(json("{\"n\":1}")))).unwrap();
    assert_eq!(v, json("{\"n\":1}"));
    let err = conclude(&src, answered(502, "502 Bad Gateway", Ok(Json::Null))).unwrap_err();
    assert_eq!(err, "composio execute returned 502 Bad Gateway");
    let err = conclude(&src, answered(200, "200 OK", Err("eof"))).unwrap_err();
    assert_eq!(err, "composio response was not JSON: eof");
    let src = WidgetSource::Composio { action: "../x".into(), args: Json::Null };
    assert_eq!(
        plan(&src, "w", BASE, GATEWAY).unwrap_err(),
        "invalid composio action '../x': must be a plain action id (no '/', '..', or query chars)"
    );
}

#[test]
fn workflows_run_on_the_node_and_deliver_their_output() {
    let src = WidgetSource::Workflow {
        workflow_id: "wf_1".into(),
        input: vec![("a".into(), "b".into())],
        output_key: Some("k".into()),
    };
    match plan(&src, "w", BASE, GATEWAY) {
        Ok(Plan::Make(Call::NodePost { url, body, timeout_secs })) => {
            assert_eq!(url, "http://127.0.0.1:7980/workflows/wf_1/run");
            assert_eq!(body, json("{\"input\":{\"a\":\"b\"}}"));
            assert_eq!(timeout_secs, 120);
        }
        other => panic!("{other:?}"),
    }
    let body = || Ok(json("{\"run\":{\"output\":{\"k\":3}}}"));
    assert_eq!(conclude(&src, answered(200, "200 OK", body())).unwrap(), json("3"));
    let whole = WidgetSource::Workflow {
        workflow_id: "wf_1".into(),
        input: Vec::new(),
        output_key: None,
    };
    assert_eq!(conclude(&whole, answered(200, "200 OK", body())).unwrap(), json("{\"k\":3}"));
    let bare = Ok(json("{\"x\":1}"));
    assert_eq!(conclude(&src, answered(200, "200 OK", bare)).unwrap(), json("{\"x\":1}"));
    let none = Ok(json("{\"run\":{\"output\":{}}}"));
    assert_eq!(conclude(&src, answered(200, "200 OK", none)).unwrap(), Json::Null);
    assert_eq!(
        conclude(&src, answered(404, "404 Not Found", Ok(Json::Null))).unwrap_err(),
        "workflow run returned 404 Not Found"
    );
    assert_eq!(
        conclude(&src, Answer::Http(HttpReply::Unreached("down".into()))).unwrap_err(),
        "workflow run failed: down"
    );
    assert_eq!(
        conclude(&src, answered(200, "200 OK", Err("eof"))).unwrap_err(),
        "workflow run response was not JSON: eof"
    );
    let bad = WidgetSource::Workflow {
        workflow_id: "a/b".into(),
        input: Vec::new(),
        output_key: None,
    };
    assert_eq!(
        plan(&bad, "w", BASE, GATEWAY).unwrap_err(),
        "invalid workflow_id 'a/b': must be a plain id (no '/', '..', or query chars)"
    );
}

#[test]
fn endpoints_and_monitors_are_read_over_loopback() {
    let src =
        WidgetSource::CoreEndpoint { endpoint: "agents".into(), selector: Some("n.0".into()) };
    match plan(&src, "w", BASE, GATEWAY) {
        Ok(Plan::Make(Call::Loopback { url, path, timeout_secs })) => {
            assert_eq!(url, "http://127.0.0.1:7980/api/agents");
            assert_eq!((path, timeout_secs), ("/api/agents", 15));
        }
        other => panic!("{other:?}"),
    }
    let v = conclude(&src, answered(200, "200 OK", Ok(json("{\"n\":[4]}")))).unwrap();
    assert_eq!(v, json("4"));
    assert_eq!(
        conclude(&src, Answer::Http(HttpReply::Unreached("down".into()))).unwrap_err(),
        "core self-call to /api/agents failed: down"
    );
    assert_eq!(
        conclude(&src, answered(500, "500 Internal Server Error", Ok(Json::Null))).unwrap_err(),
        "core self-call to /api/agents returned 500 Internal Server Error"
    );
    assert_eq!(
        conclude(&src, answered(200, "200 OK", Err("eof"))).unwrap_err(),
        "core self-call to /api/agents was not JSON: eof"
    );
    let monitor = WidgetSource::Monitor { monitor_id: "m2".into() };
    let body = "{\"monitors\":[{\"id\":\"m1\"},{\"id\":\"m2\",\"ok\":true},{\"id\":\"m2\"}]}";
    let v = conclude(&monitor, answered(200, "200 OK", Ok(json(body)))).unwrap();
    assert_eq!(v, json("{\"id\":\"m2\",\"ok\":true}"));
    assert_eq!(
        conclude(&monitor, answered(200, "200 OK", Ok(json("{\"monitors\":3}")))).unwrap_err(),
        "monitor 'm2' not found"
    );
}
