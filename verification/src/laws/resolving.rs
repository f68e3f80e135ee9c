//! What resolving a source comes to: the call that it makes, and the value that the answer
//! stands for.

use vstd::prelude::*;

use crate::json::{parsed_text, JsonView};
use crate::laws::texts::{
    all_white, ends_with, free_of, law_absent_is_not_found, law_begins_is_a_head,
    law_blank_texts_are_white,
    law_first_is_first, law_numerals_read_back, law_other_texts_are_no_numbers,
    law_pieces_of_both_sides, law_tidy_texts_are_trimmed, law_trimming_leaves_the_text,
    law_unsigned_numbers_are_read, law_whole_texts_are_one_piece, lemma_ends_with, lemma_mentions,
    mentions, tidy,
};
use crate::model::SourceView;
use crate::sources::{
    base_url, bind_address, concluded, endpoint_names, endpoint_path, item_with_id,
    law_walks_compose, node_token, planned, safe_segment, selected, source_fault, text_members,
    walked, Answer, CallView, HttpReply, HttpReplyView, PlanView,
};
use crate::text::{begins, decimal_of, occurs_at, split_at_char, trimmed};

verus! {

/// Whether a reply has a status of success and this JSON body.
pub open spec fn delivers(reply: HttpReply, body: JsonView) -> bool {
    reply matches HttpReply::Answered { status, body: Ok(v), .. } && 200 <= status <= 299 && v@
        == body
}

// ---- what answers stand for ----------------------------------------------

/// A Composio action that succeeds gives what its body holds under `data`, whatever kind of
/// value that is, and the whole body when it holds nothing there.
pub proof fn law_actions_give_their_data(
    action: Seq<char>,
    args: JsonView,
    reply: HttpReply,
    body: JsonView,
)
    requires
        delivers(reply, body),
    ensures
        ({
            let r = concluded(SourceView::Composio { action, args }, Answer::Http(reply));
            &&& forall|m: Map<Seq<char>, JsonView>|
                body == JsonView::Object(m) && #[trigger] m.dom().contains("data"@) ==> r == Ok::<
                    JsonView,
                    Seq<char>,
                >(m["data"@])
            &&& (!(body matches JsonView::Object(m) && m.dom().contains("data"@))) ==> r == Ok::<
                JsonView,
                Seq<char>,
            >(body)
        }),
{
}

/// A workflow that succeeds gives the output of its run, or what the output holds under the
/// key that the widget names, and null when it holds nothing there.
pub proof fn law_workflows_give_their_output(
    workflow_id: Seq<char>,
    input: Seq<(Seq<char>, Seq<char>)>,
    key: Seq<char>,
    reply: HttpReply,
    m: Map<Seq<char>, JsonView>,
    run: Map<Seq<char>, JsonView>,
)
    requires
        delivers(reply, JsonView::Object(m)),
        m.dom().contains("run"@),
        m["run"@] == JsonView::Object(run),
        run.dom().contains("output"@),
    ensures
        concluded(
            SourceView::Workflow { workflow_id, input, output_key: None },
            Answer::Http(reply),
        ) == Ok::<JsonView, Seq<char>>(run["output"@]),
        concluded(
            SourceView::Workflow { workflow_id, input, output_key: Some(key) },
            Answer::Http(reply),
        ) == Ok::<JsonView, Seq<char>>(
            match run["output"@] {
                JsonView::Object(out) if out.dom().contains(key) => out[key],
                _ => JsonView::Null,
            },
        ),
{
}

/// A workflow whose body tells of no run, or whose run has no output, gives the whole body.
pub proof fn law_workflows_without_output_give_the_body(
    workflow_id: Seq<char>,
    input: Seq<(Seq<char>, Seq<char>)>,
    output_key: Option<Seq<char>>,
    reply: HttpReply,
    body: JsonView,
)
    requires
        delivers(reply, body),
        !(body matches JsonView::Object(m) && m.dom().contains("run"@)
            && (m["run"@] matches JsonView::Object(run) && run.dom().contains("output"@))),
    ensures
        concluded(
            SourceView::Workflow { workflow_id, input, output_key },
            Answer::Http(reply),
        ) == Ok::<JsonView, Seq<char>>(body),
{
}

/// Whether a value is an object that holds a text under `id`.
pub open spec fn has_id(v: JsonView, id: Seq<char>) -> bool {
    v matches JsonView::Object(o) && o.dom().contains("id"@) && o["id"@] == JsonView::String(id)
}

proof fn lemma_item_with_id(items: Seq<JsonView>, id: Seq<char>, i: int, k: int)
    requires
        0 <= i <= k < items.len(),
        has_id(items[k], id),
        forall|j: int| i <= j < k ==> !has_id(#[trigger] items[j], id),
    ensures
        item_with_id(items, id, i) == Some(items[k]),
    decreases k - i,
{
    if i < k {
        assert(!has_id(items[i], id));
        lemma_item_with_id(items, id, i + 1, k);
    }
}

proof fn lemma_no_item(items: Seq<JsonView>, id: Seq<char>, i: int)
    requires
        0 <= i,
        forall|j: int| i <= j < items.len() ==> !has_id(#[trigger] items[j], id),
    ensures
        item_with_id(items, id, i) is None,
    decreases items.len() - i,
{
    if i < items.len() {
        assert(!has_id(items[i], id));
        lemma_no_item(items, id, i + 1);
    }
}

/// A monitor's value is the first of the listed monitors that has its id.
pub proof fn law_monitors_are_found_by_id(
    monitor_id: Seq<char>,
    reply: HttpReply,
    m: Map<Seq<char>, JsonView>,
    items: Seq<JsonView>,
    k: int,
)
    requires
        delivers(reply, JsonView::Object(m)),
        m.dom().contains("monitors"@),
        m["monitors"@] == JsonView::Array(items),
        0 <= k < items.len(),
        has_id(items[k], monitor_id),
        forall|j: int| 0 <= j < k ==> !has_id(#[trigger] items[j], monitor_id),
    ensures
        concluded(SourceView::Monitor { monitor_id }, Answer::Http(reply)) == Ok::<
            JsonView,
            Seq<char>,
        >(items[k]),
{
    lemma_item_with_id(items, monitor_id, 0, k);
}

/// The monitors that a body lists.
pub open spec fn listed(body: JsonView) -> Seq<JsonView> {
    match body {
        JsonView::Object(m) if m.dom().contains("monitors"@) => match m["monitors"@] {
            JsonView::Array(items) => items,
            _ => Seq::empty(),
        },
        _ => Seq::empty(),
    }
}

/// A monitor that is not listed is an error that names it.
pub proof fn law_unlisted_monitors_are_errors(
    monitor_id: Seq<char>,
    reply: HttpReply,
    body: JsonView,
)
    requires
        delivers(reply, body),
        forall|j: int| 0 <= j < listed(body).len() ==> !has_id(#[trigger] listed(body)[j], monitor_id),
    ensures
        concluded(SourceView::Monitor { monitor_id }, Answer::Http(reply)) matches Err(e)
            && mentions(e, monitor_id),
{
    lemma_mentions("monitor '"@, monitor_id, "' not found"@);
    lemma_no_item(listed(body), monitor_id, 0);
}

/// An internal endpoint's value is what the selector picks from its body, and the whole body
/// without one.
pub proof fn law_endpoints_give_what_is_selected(
    endpoint: Seq<char>,
    selector: Option<Seq<char>>,
    reply: HttpReply,
    body: JsonView,
)
    requires
        delivers(reply, body),
    ensures
        concluded(SourceView::CoreEndpoint { endpoint, selector }, Answer::Http(reply)) == Ok::<
            JsonView,
            Seq<char>,
        >(selected(body, selector)),
        selector is None ==> concluded(
            SourceView::CoreEndpoint { endpoint, selector },
            Answer::Http(reply),
        ) == Ok::<JsonView, Seq<char>>(body),
{
}

/// An external endpoint's value is what the selector picks from the JSON of its text, when it
/// answers with success; every other status, and a text that is no JSON, is an error.
pub proof fn law_fetches_give_what_is_selected(
    url: Seq<char>,
    selector: Option<Seq<char>>,
    headers: Seq<(Seq<char>, Seq<char>)>,
    status: u16,
    text: String,
)
    ensures
        ({
            let r = concluded(
                SourceView::Http { url, selector, headers },
                Answer::Fetched(Ok((status, text))),
            );
            &&& 200 <= status <= 299 ==> match parsed_text(text@) {
                Ok(v) => r == Ok::<JsonView, Seq<char>>(selected(v, selector)) && (selector is None
                    ==> r == Ok::<JsonView, Seq<char>>(v)),
                Err(e) => r matches Err(f) && ends_with(f, e),
            }
            &&& status < 200 || 300 <= status ==> r is Err
            &&& (status < 200 || 400 <= status) ==> (r matches Err(f) && ends_with(
                f,
                decimal_of(status as nat),
            ))
        }),
{
    lemma_ends_with("http GET returned "@, decimal_of(status as nat));
    if let Err(e) = parsed_text(text@) {
        lemma_ends_with("response was not JSON: "@, e);
    }
}

/// A fetch that is blocked and an agent's turn that fails are errors with their reasons.
pub proof fn law_blocked_calls_are_errors(
    url: Seq<char>,
    selector: Option<Seq<char>>,
    headers: Seq<(Seq<char>, Seq<char>)>,
    agent_id: Seq<char>,
    prompt: Seq<char>,
    reason: String,
)
    ensures
        concluded(
            SourceView::Http { url, selector, headers },
            Answer::Fetched(Err(reason)),
        ) == Err::<JsonView, Seq<char>>(reason@),
        concluded(SourceView::Agent { agent_id, prompt }, Answer::Ran(Err(reason))) matches Err(e)
            && ends_with(e, reason@),
{
    lemma_ends_with("agent run failed: "@, reason@);
}

/// Whether a source is resolved by a call over HTTP to the node or the Gateway.
pub open spec fn calls_home(source: SourceView) -> bool {
    source is CoreEndpoint || source is Monitor || source is Workflow || source is Composio
}

/// A call that is not answered, one that is answered with anything but success, and one whose
/// body is no JSON are errors, whatever the source, and each tells the reason that came.
pub proof fn law_failed_calls_are_errors(source: SourceView, reply: HttpReply)
    requires
        calls_home(source),
    ensures
        ({
            let r = concluded(source, Answer::Http(reply));
            match reply {
                HttpReply::Unreached(e) => r matches Err(f) && ends_with(f, e@),
                HttpReply::Answered { status, status_line, body } => if status < 200 || status
                    > 299 {
                    r matches Err(f) && ends_with(f, status_line@)
                } else {
                    body matches Err(e) ==> (r matches Err(f) && ends_with(f, e@))
                },
            }
        }),
{
    let path = match source {
        SourceView::CoreEndpoint { endpoint, .. } => endpoint_path(endpoint).unwrap(),
        _ => "/api/monitors"@,
    };
    let call = "core self-call to "@ + path;
    match reply@ {
        HttpReplyView::Unreached(e) => {
            lemma_ends_with(call + " failed: "@, e);
            lemma_ends_with("workflow run failed: "@, e);
            lemma_ends_with("composio execute failed: "@, e);
        },
        HttpReplyView::Answered { status, status_line, body } => {
            lemma_ends_with(call + " returned "@, status_line);
            lemma_ends_with("workflow run returned "@, status_line);
            lemma_ends_with("composio execute returned "@, status_line);
            if let Err(e) = body {
                lemma_ends_with(call + " was not JSON: "@, e);
                lemma_ends_with("workflow run response was not JSON: "@, e);
                lemma_ends_with("composio response was not JSON: "@, e);
            }
        },
    }
}

/// Whether a failed call of a source is told in these words, each followed by the reason that
/// came: of a call without an answer, of an answer without success, and of a body that is no
/// JSON.
pub open spec fn told_as(
    r: Result<JsonView, Seq<char>>,
    reply: HttpReply,
    failed: Seq<char>,
    returned: Seq<char>,
    garbled: Seq<char>,
) -> bool {
    match reply {
        HttpReply::Unreached(e) => r == Err::<JsonView, Seq<char>>(failed + e@),
        HttpReply::Answered { status, status_line, body } => if status < 200 || status > 299 {
            r == Err::<JsonView, Seq<char>>(returned + status_line@)
        } else {
            body matches Err(e) ==> r == Err::<JsonView, Seq<char>>(garbled + e@)
        },
    }
}

/// Each source tells of a failed call in its own words.
pub proof fn law_failures_are_told_in_words(
    reply: HttpReply,
    endpoint: Seq<char>,
    path: Seq<char>,
    monitor_id: Seq<char>,
    workflow_id: Seq<char>,
    input: Seq<(Seq<char>, Seq<char>)>,
    output_key: Option<Seq<char>>,
    action: Seq<char>,
    args: JsonView,
    selector: Option<Seq<char>>,
)
    requires
        endpoint_path(endpoint) == Some(path),
    ensures
        told_as(
            concluded(
                SourceView::CoreEndpoint { endpoint, selector },
                Answer::Http(reply),
            ),
            reply,
            "core self-call to "@ + path + " failed: "@,
            "core self-call to "@ + path + " returned "@,
            "core self-call to "@ + path + " was not JSON: "@,
        ),
        told_as(
            concluded(SourceView::Monitor { monitor_id }, Answer::Http(reply)),
            reply,
            "core self-call to "@ + "/api/monitors"@ + " failed: "@,
            "core self-call to "@ + "/api/monitors"@ + " returned "@,
            "core self-call to "@ + "/api/monitors"@ + " was not JSON: "@,
        ),
        told_as(
            concluded(
                SourceView::Workflow { workflow_id, input, output_key },
                Answer::Http(reply),
            ),
            reply,
            "workflow run failed: "@,
            "workflow run returned "@,
            "workflow run response was not JSON: "@,
        ),
        told_as(
            concluded(SourceView::Composio { action, args }, Answer::Http(reply)),
            reply,
            "composio execute failed: "@,
            "composio execute returned "@,
            "composio response was not JSON: "@,
        ),
{
}

// ---- agents --------------------------------------------------------------

/// Whether a text is an object whose one member `text` is this text.
pub open spec fn is_prose(v: JsonView, text: Seq<char>) -> bool {
    v matches JsonView::Object(m) && m.dom() =~= set!["text"@] && m["text"@] == JsonView::String(
        text,
    )
}

/// An agent's reply without a code fence is the JSON that it is, or else the reply itself as
/// prose.
pub proof fn law_unfenced_replies_are_json_or_prose(
    agent_id: Seq<char>,
    prompt: Seq<char>,
    reply: String,
)
    requires
        forall|j: int| !#[trigger] occurs_at(trimmed(reply@), "```"@, j),
    ensures
        concluded(SourceView::Agent { agent_id, prompt }, Answer::Ran(Ok(reply))) matches Ok(v) && (
        match parsed_text(trimmed(reply@)) {
            Ok(w) => v == w,
            Err(_) => is_prose(v, reply@),
        }),
{
    law_absent_is_not_found(trimmed(reply@), "```"@);
}

/// An agent's reply with a code fence is the JSON inside the first pair of fences, where that
/// is JSON, with or without the tag `json`; else the JSON that the reply is as a whole, or the
/// reply itself as prose.
pub proof fn law_fenced_replies_are_the_json_inside(
    agent_id: Seq<char>,
    prompt: Seq<char>,
    reply: String,
    before: Seq<char>,
    tagged: bool,
    inner: Seq<char>,
    after: Seq<char>,
)
    requires
        trimmed(reply@) == before + ("```"@ + (if tagged {
            "json"@
        } else {
            Seq::empty()
        }) + (inner + ("```"@ + after))),
        forall|j: int| 0 <= j < before.len() ==> !#[trigger] occurs_at(trimmed(reply@), "```"@, j),
        forall|j: int|
            0 <= j < inner.len() ==> !#[trigger] occurs_at(inner + ("```"@ + after), "```"@, j),
        !tagged ==> !begins(inner + ("```"@ + after), "json"@),
    ensures
        concluded(SourceView::Agent { agent_id, prompt }, Answer::Ran(Ok(reply))) matches Ok(v) && (
        match parsed_text(trimmed(inner)) {
            Ok(w) => v == w,
            Err(_) => match parsed_text(trimmed(reply@)) {
                Ok(w) => v == w,
                Err(_) => is_prose(v, reply@),
            },
        }),
{
    reveal_strlit("```");
    reveal_strlit("json");
    let t = trimmed(reply@);
    let rest = inner + ("```"@ + after);
    let tag = if tagged {
        "json"@
    } else {
        Seq::empty()
    };
    let start = before.len() as int;
    assert(t.subrange(start, start + 3) =~= "```"@);
    law_first_is_first(t, "```"@, start);
    let opened = t.skip(start + 3);
    assert(opened =~= tag + rest);
    if tagged {
        assert(opened.subrange(0, 4) =~= "json"@);
        assert(opened.skip(4) =~= rest);
    } else {
        assert(opened =~= rest);
    }
    let end = inner.len() as int;
    assert(rest.subrange(end, end + 3) =~= "```"@);
    law_first_is_first(rest, "```"@, end);
    assert(rest.take(end) =~= inner);
}

/// An agent's reply whose code fence is never closed is the JSON that it is as a whole, or else
/// the reply itself as prose.
pub proof fn law_unclosed_fences_are_no_fences(
    agent_id: Seq<char>,
    prompt: Seq<char>,
    reply: String,
    start: int,
)
    requires
        0 <= start,
        start + 3 <= trimmed(reply@).len(),
        forall|j: int| #[trigger] occurs_at(trimmed(reply@), "```"@, j) ==> j == start,
        occurs_at(trimmed(reply@), "```"@, start),
    ensures
        concluded(SourceView::Agent { agent_id, prompt }, Answer::Ran(Ok(reply))) matches Ok(v) && (
        match parsed_text(trimmed(reply@)) {
            Ok(w) => v == w,
            Err(_) => is_prose(v, reply@),
        }),
{
    reveal_strlit("```");
    reveal_strlit("json");
    let t = trimmed(reply@);
    law_first_is_first(t, "```"@, start);
    let after = t.skip(start + 3);
    let skipped: int = if begins(after, "json"@) {
        4
    } else {
        0
    };
    let body = after.skip(skipped);
    assert(after.skip(0) =~= after);
    assert forall|j: int| !#[trigger] occurs_at(body, "```"@, j) by {
        if occurs_at(body, "```"@, j) {
            let k = start + 3 + skipped + j;
            assert(t.subrange(k, k + 3) =~= body.subrange(j, j + 3));
            assert(occurs_at(t, "```"@, k));
        }
    }
    law_absent_is_not_found(body, "```"@);
}

// ---- selectors -----------------------------------------------------------

/// A selector that is absent or blank picks the whole value.
pub proof fn law_blank_selectors_pick_all(v: JsonView, s: Seq<char>)
    requires
        all_white(s),
    ensures
        selected(v, None) == v,
        selected(v, Some(s)) == v,
{
    law_blank_texts_are_white(s);
}

/// White space round a selector does not count.
pub proof fn law_selectors_are_trimmed(
    v: JsonView,
    before: Seq<char>,
    s: Seq<char>,
    after: Seq<char>,
)
    requires
        all_white(before),
        tidy(s),
        all_white(after),
    ensures
        selected(v, Some(before + s + after)) == selected(v, Some(s)),
{
    law_trimming_leaves_the_text(before, s, after);
    law_tidy_texts_are_trimmed(s);
}

proof fn lemma_single_step(v: JsonView, key: Seq<char>)
    requires
        tidy(key),
        free_of(key, '.'),
    ensures
        selected(v, Some(key)) == walked(v, seq![key]),
{
    law_tidy_texts_are_trimmed(key);
    law_whole_texts_are_one_piece(key, '.');
}

proof fn lemma_walk_one(v: JsonView, key: Seq<char>)
    ensures
        walked(v, seq![key]) == match crate::sources::stepped(v, key) {
            Some(next) => next,
            None => JsonView::Null,
        },
{
    let path = seq![key];
    assert(path.skip(1) =~= Seq::<Seq<char>>::empty());
    reveal_with_fuel(walked, 2);
}

/// A selector without dots picks the member of an object under that key, and null where there
/// is none.
pub proof fn law_selectors_pick_members(m: Map<Seq<char>, JsonView>, key: Seq<char>)
    requires
        tidy(key),
        free_of(key, '.'),
    ensures
        m.dom().contains(key) ==> selected(JsonView::Object(m), Some(key)) == m[key],
        !m.dom().contains(key) ==> selected(JsonView::Object(m), Some(key)) == JsonView::Null,
{
    lemma_single_step(JsonView::Object(m), key);
    lemma_walk_one(JsonView::Object(m), key);
}

/// A numeral as a selector picks the item of an array at that index, and null past its end.
pub proof fn law_selectors_pick_items(items: Seq<JsonView>, i: nat)
    requires
        i <= usize::MAX,
    ensures
        selected(JsonView::Array(items), Some(decimal_of(i))) == if i < items.len() {
            items[i as int]
        } else {
            JsonView::Null
        },
{
    let key = decimal_of(i);
    law_numerals_read_back(i);
    law_unsigned_numbers_are_read(i, usize::MAX as nat);
    assert(tidy(key)) by {
        assert('0' <= key[0] <= '9' && '0' <= key[key.len() - 1] <= '9');
    }
    assert(free_of(key, '.'));
    lemma_single_step(JsonView::Array(items), key);
    lemma_walk_one(JsonView::Array(items), key);
}

/// Any other selector misses an array, and every selector misses a value without parts: null.
pub proof fn law_selectors_miss(v: JsonView, key: Seq<char>, i: int)
    requires
        tidy(key),
        free_of(key, '.'),
        match v {
            JsonView::Object(_) => false,
            JsonView::Array(_) => 0 <= i < key.len() && !('0' <= key[i] <= '9') && (i > 0 || key[0]
                != '+'),
            _ => true,
        },
    ensures
        selected(v, Some(key)) == JsonView::Null,
{
    if v is Array {
        law_other_texts_are_no_numbers(key, usize::MAX as nat, i);
    }
    lemma_single_step(v, key);
    lemma_walk_one(v, key);
}

/// A dotted selector picks with its first part, and from what that picks with the rest.
pub proof fn law_dotted_selectors_go_on(v: JsonView, a: Seq<char>, b: Seq<char>)
    requires
        tidy(a),
        tidy(b),
    ensures
        selected(v, Some(a.push('.') + b)) == selected(selected(v, Some(a)), Some(b)),
{
    let both = a.push('.') + b;
    assert(both[0] == a[0] && both[both.len() - 1] == b[b.len() - 1]);
    law_tidy_texts_are_trimmed(a);
    law_tidy_texts_are_trimmed(b);
    law_tidy_texts_are_trimmed(both);
    law_pieces_of_both_sides(a, '.', b);
    law_walks_compose(v, split_at_char(a, '.'), split_at_char(b, '.'));
}

// ---- calls ---------------------------------------------------------------

/// A text with every underscore turned to a slash.
pub open spec fn slashed(name: Seq<char>) -> Seq<char> {
    Seq::new(
        name.len(),
        |i: int|
            if name[i] == '_' {
                '/'
            } else {
                name[i]
            },
    )
}

/// The nine internal endpoints that a widget may read, and no others.
pub proof fn law_nine_endpoints_are_curated(name: Seq<char>)
    ensures
        endpoint_names().contains(name) <==> name == "system_status"@ || name == "sidecar_status"@
            || name == "connections"@ || name == "quests"@ || name == "monitors"@ || name
            == "engines"@ || name == "agents"@ || name == "workflows"@ || name == "meetings"@,
        endpoint_path(name) is Some <==> endpoint_names().contains(name),
{
    let names = endpoint_names();
    assert(names[0] == "system_status"@ && names[1] == "sidecar_status"@ && names[2]
        == "connections"@ && names[3] == "quests"@ && names[4] == "monitors"@ && names[5]
        == "engines"@ && names[6] == "agents"@ && names[7] == "workflows"@ && names[8]
        == "meetings"@);
}

/// The path of an internal endpoint is its name below `/api`, with slashes for underscores,
/// but for the workflows, which stand at the top.
pub proof fn law_paths_follow_the_names(name: Seq<char>)
    requires
        endpoint_names().contains(name),
    ensures
        name != "workflows"@ ==> endpoint_path(name) == Some("/api/"@ + slashed(name)),
        name == "workflows"@ ==> endpoint_path(name) == Some("/workflows"@),
{
    law_nine_endpoints_are_curated(name);
    lemma_endpoint_letters();
    reveal_strlit("/api/");
    reveal_strlit("system_status");
    reveal_strlit("sidecar_status");
    reveal_strlit("connections");
    reveal_strlit("quests");
    reveal_strlit("monitors");
    reveal_strlit("engines");
    reveal_strlit("agents");
    reveal_strlit("meetings");
    reveal_strlit("/api/system/status");
    reveal_strlit("/api/sidecar/status");
    reveal_strlit("/api/connections");
    reveal_strlit("/api/quests");
    reveal_strlit("/api/monitors");
    reveal_strlit("/api/engines");
    reveal_strlit("/api/agents");
    reveal_strlit("/api/meetings");
    if name == "system_status"@ {
        assert("/api/"@ + slashed(name) =~= "/api/system/status"@);
    } else if name == "sidecar_status"@ {
        assert("/api/"@ + slashed(name) =~= "/api/sidecar/status"@);
    } else if name == "connections"@ {
        assert("/api/"@ + slashed(name) =~= "/api/connections"@);
    } else if name == "quests"@ {
        assert("/api/"@ + slashed(name) =~= "/api/quests"@);
    } else if name == "monitors"@ {
        assert("/api/"@ + slashed(name) =~= "/api/monitors"@);
    } else if name == "engines"@ {
        assert("/api/"@ + slashed(name) =~= "/api/engines"@);
    } else if name == "agents"@ {
        assert("/api/"@ + slashed(name) =~= "/api/agents"@);
    } else if name == "meetings"@ {
        assert("/api/"@ + slashed(name) =~= "/api/meetings"@);
    }
}

proof fn lemma_endpoint_letters()
    ensures
        "system_status"@.len() == 13 && "sidecar_status"@.len() == 14 && "connections"@.len() == 11,
        "quests"@.len() == 6 && "monitors"@.len() == 8 && "engines"@.len() == 7,
        "agents"@.len() == 6 && "workflows"@.len() == 9 && "meetings"@.len() == 8,
        "quests"@[0] == 'q' && "agents"@[0] == 'a',
        "monitors"@[1] == 'o' && "meetings"@[1] == 'e',
{
    reveal_strlit("system_status");
    reveal_strlit("sidecar_status");
    reveal_strlit("connections");
    reveal_strlit("quests");
    reveal_strlit("monitors");
    reveal_strlit("engines");
    reveal_strlit("agents");
    reveal_strlit("workflows");
    reveal_strlit("meetings");
}

/// Inline data is its own value and makes no call.
pub proof fn law_inline_data_is_its_value(
    data: JsonView,
    widget_id: Seq<char>,
    base: Seq<char>,
    gateway: Seq<char>,
)
    ensures
        planned(SourceView::Static { data }, widget_id, base, gateway) == Ok::<PlanView, Seq<char>>(
            PlanView::Ready(data),
        ),
{
}

/// An internal endpoint is read on the node itself, under its path, within fifteen seconds; the
/// monitors are read as the endpoint of that name is.
pub proof fn law_endpoints_are_read_on_the_node(
    endpoint: Seq<char>,
    selector: Option<Seq<char>>,
    monitor_id: Seq<char>,
    widget_id: Seq<char>,
    base: Seq<char>,
    gateway: Seq<char>,
)
    ensures
        endpoint_names().contains(endpoint) ==> planned(
            SourceView::CoreEndpoint { endpoint, selector },
            widget_id,
            base,
            gateway,
        ) == Ok::<PlanView, Seq<char>>(
            PlanView::Make(
                CallView::Loopback {
                    url: base + endpoint_path(endpoint).unwrap(),
                    path: endpoint_path(endpoint).unwrap(),
                    timeout_secs: 15,
                },
            ),
        ),
        planned(SourceView::Monitor { monitor_id }, widget_id, base, gateway) == planned(
            SourceView::CoreEndpoint { endpoint: "monitors"@, selector },
            widget_id,
            base,
            gateway,
        ),
        planned(SourceView::Monitor { monitor_id }, widget_id, base, gateway) is Ok,
{
    law_nine_endpoints_are_curated(endpoint);
    lemma_endpoint_letters();
}

/// Whether pairs of texts are the members of an object: each key that occurs, with the text of
/// its last pair.
pub open spec fn holds_pairs(v: JsonView, list: Seq<(Seq<char>, Seq<char>)>) -> bool {
    v matches JsonView::Object(m) && (forall|k: Seq<char>| #[trigger]
        m.dom().contains(k) <==> exists|i: int| 0 <= i < list.len() && (#[trigger] list[i]).0 == k)
        && (forall|i: int|
        0 <= i < list.len() && (forall|j: int|
            i < j < list.len() ==> (#[trigger] list[j]).0 != list[i].0) ==> m[(
        #[trigger] list[i]).0] == JsonView::String(list[i].1))
}

proof fn lemma_text_members(list: Seq<(Seq<char>, Seq<char>)>)
    ensures
        holds_pairs(JsonView::Object(text_members(list)), list),
    decreases list.len(),
{
    let m = text_members(list);
    if list.len() > 0 {
        let rest = list.drop_last();
        let before = text_members(rest);
        let last = list.len() - 1;
        lemma_text_members(rest);
        assert forall|k: Seq<char>| #[trigger] m.dom().contains(k) <==> exists|i: int|
            0 <= i < list.len() && (#[trigger] list[i]).0 == k by {
            if before.dom().contains(k) {
                let i = choose|i: int| 0 <= i < rest.len() && (#[trigger] rest[i]).0 == k;
                assert(list[i].0 == k);
            }
            if m.dom().contains(k) && !before.dom().contains(k) {
                assert(list[last].0 == k);
            }
            if exists|i: int| 0 <= i < list.len() && (#[trigger] list[i]).0 == k {
                let i = choose|i: int| 0 <= i < list.len() && (#[trigger] list[i]).0 == k;
                if i < last {
                    assert(rest[i].0 == k);
                    assert(before.dom().contains(k));
                }
            }
        }
        assert forall|i: int|
            0 <= i < list.len() && (forall|j: int|
                i < j < list.len() ==> (#[trigger] list[j]).0 != list[i].0) implies m[(
        #[trigger] list[i]).0] == JsonView::String(list[i].1) by {
            if i < last {
                assert(list[last].0 != list[i].0);
                assert(rest[i] == list[i]);
                assert forall|j: int| i < j < rest.len() implies (#[trigger] rest[j]).0
                    != rest[i].0 by {
                    assert(list[j].0 != list[i].0);
                }
            }
        }
    }
}

/// A workflow with a plain id is run on the node itself, with exactly the inputs that the
/// widget gives, within two minutes.
pub proof fn law_workflows_are_run_with_their_input(
    workflow_id: Seq<char>,
    input: Seq<(Seq<char>, Seq<char>)>,
    output_key: Option<Seq<char>>,
    widget_id: Seq<char>,
    base: Seq<char>,
    gateway: Seq<char>,
)
    requires
        safe_segment(workflow_id),
    ensures
        planned(
            SourceView::Workflow { workflow_id, input, output_key },
            widget_id,
            base,
            gateway,
        ) matches Ok(PlanView::Make(CallView::NodePost { url, body, timeout_secs })) && url == base
            + "/workflows/"@ + workflow_id + "/run"@ && timeout_secs == 120 && (
        body matches JsonView::Object(b) && b.dom() =~= set!["input"@] && holds_pairs(
            b["input"@],
            input,
        )),
{
    lemma_text_members(input);
}

/// An action with a plain id is executed through the Gateway, with exactly the arguments that
/// the widget gives, within a minute.
pub proof fn law_actions_are_executed_with_their_arguments(
    action: Seq<char>,
    args: JsonView,
    widget_id: Seq<char>,
    base: Seq<char>,
    gateway: Seq<char>,
)
    requires
        safe_segment(action),
    ensures
        planned(
            SourceView::Composio { action, args },
            widget_id,
            base,
            gateway,
        ) matches Ok(PlanView::Make(CallView::GatewayPost { url, body, timeout_secs })) && url
            == gateway + "/tools/execute/"@ + action && timeout_secs == 60 && (
        body matches JsonView::Object(b) && b.dom() =~= set!["arguments"@] && b["arguments"@]
            == args),
{
}

/// An external endpoint is fetched at the address and with the headers that the widget gives.
pub proof fn law_fetches_keep_address_and_headers(
    url: Seq<char>,
    selector: Option<Seq<char>>,
    headers: Seq<(Seq<char>, Seq<char>)>,
    widget_id: Seq<char>,
    base: Seq<char>,
    gateway: Seq<char>,
)
    ensures
        planned(SourceView::Http { url, selector, headers }, widget_id, base, gateway) == Ok::<
            PlanView,
            Seq<char>,
        >(PlanView::Make(CallView::Fetch { url, headers })),
{
}

/// An agent is run with the prompt that the widget gives, in a conversation of the widget's
/// own.
pub proof fn law_agents_are_run_in_the_widgets_conversation(
    agent_id: Seq<char>,
    prompt: Seq<char>,
    widget_id: Seq<char>,
    base: Seq<char>,
    gateway: Seq<char>,
)
    ensures
        planned(SourceView::Agent { agent_id, prompt }, widget_id, base, gateway) matches Ok(
            PlanView::Make(CallView::AgentRun { agent_id: a, conversation_id, prompt: p }),
        ) && a == agent_id && p == prompt && conversation_id == "dashboard-widget-"@ + widget_id,
{
}

/// What is refused is refused in these words. The text for an endpoint outside the list, when a
/// widget is written, goes on with the names that may stand there.
pub proof fn law_refusals_are_in_words(
    name: Seq<char>,
    selector: Option<Seq<char>>,
    input: Seq<(Seq<char>, Seq<char>)>,
    output_key: Option<Seq<char>>,
    args: JsonView,
    widget_id: Seq<char>,
    base: Seq<char>,
    gateway: Seq<char>,
)
    ensures
        ({
            let endpoint = SourceView::CoreEndpoint { endpoint: name, selector };
            let workflow = SourceView::Workflow { workflow_id: name, input, output_key };
            let action = SourceView::Composio { action: name, args };
            let no_workflow = "invalid workflow_id '"@ + name
                + "': must be a plain id (no '/', '..', or query chars)"@;
            let no_action = "invalid composio action '"@ + name
                + "': must be a plain action id (no '/', '..', or query chars)"@;
            &&& !endpoint_names().contains(name) ==> planned(endpoint, widget_id, base, gateway) == Err::<
                PlanView,
                Seq<char>,
            >("'"@ + name + "' is not an allowed Core endpoint"@)
            &&& !endpoint_names().contains(name) ==> (source_fault(endpoint) matches Some(e) && begins(
                e,
                "'"@ + name + "' is not an allowed core_endpoint. Allowed: "@,
            ))
            &&& !safe_segment(name) ==> source_fault(workflow) == Some(no_workflow)
            &&& !safe_segment(name) ==> planned(workflow, widget_id, base, gateway) == Err::<
                PlanView,
                Seq<char>,
            >(no_workflow)
            &&& !safe_segment(name) ==> source_fault(action) == Some(no_action)
            &&& !safe_segment(name) ==> planned(action, widget_id, base, gateway) == Err::<
                PlanView,
                Seq<char>,
            >(no_action)
        }),
{
    crate::sources::law_catalog_and_resolver_agree(name);
    let head = "'"@ + name + "' is not an allowed core_endpoint. Allowed: "@;
    let allowed = crate::sources::joined(endpoint_names(), ", "@);
    assert((head + allowed).take(head.len() as int) =~= head);
    law_begins_is_a_head(head + allowed, head);
}

/// A list of names in one text has the separator between each and the next.
pub proof fn law_names_are_joined(list: Seq<Seq<char>>, name: Seq<char>, separator: Seq<char>)
    ensures
        crate::sources::joined(seq![name], separator) == name,
        list.len() > 0 ==> crate::sources::joined(list.push(name), separator)
            == crate::sources::joined(list, separator) + separator + name,
{
    assert(list.push(name).drop_last() =~= list);
}

/// What fails outside is told in these words: a monitor that is not listed, an agent's turn, a
/// redirect, a status without success and a text that is no JSON.
pub proof fn law_outside_failures_are_in_words(
    monitor_id: Seq<char>,
    reply: HttpReply,
    body: JsonView,
    url: Seq<char>,
    selector: Option<Seq<char>>,
    headers: Seq<(Seq<char>, Seq<char>)>,
    agent_id: Seq<char>,
    prompt: Seq<char>,
    reason: String,
    status: u16,
    text: String,
)
    ensures
        delivers(reply, body) && (forall|j: int|
            0 <= j < listed(body).len() ==> !has_id(#[trigger] listed(body)[j], monitor_id))
            ==> concluded(SourceView::Monitor { monitor_id }, Answer::Http(reply)) == Err::<
            JsonView,
            Seq<char>,
        >("monitor '"@ + monitor_id + "' not found"@),
        concluded(SourceView::Agent { agent_id, prompt }, Answer::Ran(Err(reason))) == Err::<
            JsonView,
            Seq<char>,
        >("agent run failed: "@ + reason@),
        ({
            let r = concluded(
                SourceView::Http { url, selector, headers },
                Answer::Fetched(Ok((status, text))),
            );
            &&& 300 <= status < 400 ==> r == Err::<JsonView, Seq<char>>(
                "http source refused: redirects are not allowed"@,
            )
            &&& status < 200 || 400 <= status ==> r == Err::<JsonView, Seq<char>>(
                "http GET returned "@ + decimal_of(status as nat),
            )
            &&& 200 <= status < 300 ==> (parsed_text(text@) matches Err(e) ==> r == Err::<
                JsonView,
                Seq<char>,
            >("response was not JSON: "@ + e))
        }),
{
    if delivers(reply, body) && (forall|j: int|
        0 <= j < listed(body).len() ==> !has_id(#[trigger] listed(body)[j], monitor_id)) {
        lemma_no_item(listed(body), monitor_id, 0);
    }
}

/// A refused source is refused with a text that names what is wrong, whether it is to be
/// written or to be called, and a source is called if and only if it may be written.
pub proof fn law_refusals_name_the_fault(
    source: SourceView,
    widget_id: Seq<char>,
    base: Seq<char>,
    gateway: Seq<char>,
)
    ensures
        ({
            let named = match source {
                SourceView::CoreEndpoint { endpoint, .. } => endpoint,
                SourceView::Workflow { workflow_id, .. } => workflow_id,
                SourceView::Composio { action, .. } => action,
                _ => Seq::empty(),
            };
            let plan = planned(source, widget_id, base, gateway);
            &&& source_fault(source) is Some <==> plan is Err
            &&& source_fault(source) matches Some(e) ==> mentions(e, named)
            &&& plan matches Err(e) ==> mentions(e, named)
        }),
{
    match source {
        SourceView::CoreEndpoint { endpoint, .. } => {
            let allowed = crate::sources::joined(endpoint_names(), ", "@);
            lemma_mentions("'"@, endpoint, "' is not an allowed Core endpoint"@);
            lemma_mentions(
                "'"@,
                endpoint,
                "' is not an allowed core_endpoint. Allowed: "@ + allowed,
            );
            assert("'"@ + endpoint + ("' is not an allowed core_endpoint. Allowed: "@ + allowed)
                =~= "'"@ + endpoint + "' is not an allowed core_endpoint. Allowed: "@ + allowed);
        },
        SourceView::Workflow { workflow_id, .. } => {
            lemma_mentions(
                "invalid workflow_id '"@,
                workflow_id,
                "': must be a plain id (no '/', '..', or query chars)"@,
            );
        },
        SourceView::Composio { action, .. } => {
            lemma_mentions(
                "invalid composio action '"@,
                action,
                "': must be a plain action id (no '/', '..', or query chars)"@,
            );
        },
        _ => {},
    }
}

/// What may be written of a source: an endpoint of the list, and a workflow or an action whose
/// id is not empty, holds letters and digits of ASCII, `_`, `-` and `.` alone, and nowhere two
/// dots; and every source of another kind.
pub proof fn law_plain_sources_may_be_written(source: SourceView)
    ensures
        source_fault(source) is None <==> match source {
            SourceView::CoreEndpoint { endpoint, .. } => endpoint_names().contains(endpoint),
            SourceView::Workflow { workflow_id, .. } => is_plain_id(workflow_id),
            SourceView::Composio { action, .. } => is_plain_id(action),
            _ => true,
        },
{
    match source {
        SourceView::CoreEndpoint { endpoint, .. } => {
            law_nine_endpoints_are_curated(endpoint);
        },
        SourceView::Workflow { workflow_id, .. } => {
            lemma_plain_ids(workflow_id);
        },
        SourceView::Composio { action, .. } => {
            lemma_plain_ids(action);
        },
        _ => {},
    }
}

/// Whether an id is not empty, holds letters and digits of ASCII, `_`, `-` and `.` alone, and
/// nowhere two dots.
pub open spec fn is_plain_id(id: Seq<char>) -> bool {
    &&& id.len() > 0
    &&& forall|i: int|
        0 <= i < id.len() ==> ({
            let c = #[trigger] id[i];
            'a' <= c <= 'z' || 'A' <= c <= 'Z' || '0' <= c <= '9' || c == '_' || c == '-' || c
                == '.'
        })
    &&& forall|i: int| !#[trigger] occurs_at(id, ".."@, i)
}

proof fn lemma_plain_ids(id: Seq<char>)
    ensures
        safe_segment(id) <==> is_plain_id(id),
{
    reveal_strlit("..");
    if safe_segment(id) {
        crate::sources::law_safe_segments_stay_in_place(id);
        assert forall|i: int| 0 <= i < id.len() implies ({
            let c = #[trigger] id[i];
            'a' <= c <= 'z' || 'A' <= c <= 'Z' || '0' <= c <= '9' || c == '_' || c == '-' || c
                == '.'
        }) by {
            assert(crate::sources::id_char(id[i]));
        }
    }
    if is_plain_id(id) {
        assert forall|i: int| 0 <= i < id.len() implies crate::sources::id_char(
            #[trigger] id[i],
        ) by {}
        assert forall|i: int| 0 <= i < id.len() - 1 implies !((#[trigger] id[i]) == '.' && id[i + 1]
            == '.') by {
            if id[i] == '.' && id[i + 1] == '.' {
                assert(id.subrange(i, i + 2) =~= ".."@);
                assert(occurs_at(id, ".."@, i));
            }
        }
    }
}

// ---- the node's own address ----------------------------------------------

/// The node calls itself at the port that it was told to bind: that of the first `--bind=`
/// argument, else that of the environment, else 7980.
pub proof fn law_the_node_calls_its_own_port(
    before: Seq<Seq<char>>,
    host: Seq<char>,
    port: Seq<char>,
    after: Seq<Seq<char>>,
    env: Option<Seq<char>>,
)
    requires
        forall|i: int| 0 <= i < before.len() ==> !begins(#[trigger] before[i], "--bind="@),
        free_of(port, ':'),
    ensures
        base_url(before.push("--bind="@ + (host.push(':') + port)) + after, env)
            == "http://127.0.0.1:"@ + port,
        base_url(before, Some(host.push(':') + port)) == "http://127.0.0.1:"@ + port,
        base_url(before, None) == "http://127.0.0.1:"@ + "7980"@,
{
    let address = host.push(':') + port;
    let arg = "--bind="@ + address;
    lemma_bind_skips(before, seq![arg] + after, env);
    lemma_bind_skips(before, Seq::empty(), Some(address));
    lemma_bind_skips(before, Seq::empty(), None);
    assert(before.push(arg) + after =~= before + (seq![arg] + after));
    assert(before + Seq::<Seq<char>>::empty() =~= before);
    reveal_strlit("--bind=");
    assert(arg.subrange(0, 7) =~= "--bind="@);
    assert((seq![arg] + after).first() == arg);
    assert(arg.skip(7) =~= address);
    lemma_port_of(host, port);
    reveal_strlit("127.0.0.1:7980");
    reveal_strlit("127.0.0.1");
    reveal_strlit("7980");
    assert("127.0.0.1:7980"@ =~= "127.0.0.1"@.push(':') + "7980"@);
    lemma_port_of("127.0.0.1"@, "7980"@);
}

/// The token of the environment is presented as it is, and never an empty one.
pub proof fn law_the_node_presents_its_token(token: Seq<char>)
    ensures
        token.len() > 0 ==> node_token(Some(token)) == Some(token),
        token.len() == 0 ==> node_token(Some(token)) is None,
        node_token(None) is None,
{
}

proof fn lemma_bind_skips(before: Seq<Seq<char>>, rest: Seq<Seq<char>>, env: Option<Seq<char>>)
    requires
        forall|i: int| 0 <= i < before.len() ==> !begins(#[trigger] before[i], "--bind="@),
    ensures
        bind_address(before + rest, env) == bind_address(rest, env),
    decreases before.len(),
{
    if before.len() == 0 {
        assert(before + rest =~= rest);
    } else {
        let tail = before.skip(1);
        assert(!begins(before[0], "--bind="@));
        assert((before + rest).first() == before[0]);
        assert((before + rest).skip(1) =~= tail + rest);
        assert forall|i: int| 0 <= i < tail.len() implies !begins(#[trigger] tail[i], "--bind="@) by {
            assert(tail[i] == before[i + 1]);
        }
        lemma_bind_skips(tail, rest, env);
    }
}

proof fn lemma_port_of(host: Seq<char>, port: Seq<char>)
    requires
        free_of(port, ':'),
    ensures
        split_at_char(host.push(':') + port, ':').last() == port,
{
    law_pieces_of_both_sides(host, ':', port);
    law_whole_texts_are_one_piece(port, ':');
    assert((split_at_char(host, ':') + seq![port]).last() == port);
}

} // verus!
