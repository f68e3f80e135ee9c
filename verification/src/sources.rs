//! Where widgets get their data: which calls a source makes, and what their answers mean.
//!
//! A source that needs no call is resolved at once. For every other one [`plan`] says which
//! call to make, and a function of the source's kind turns the answer into the value.

use vstd::prelude::*;

use crate::json::{
    add_member, lemma_trees, members, parse_json, parsed_text, trees, Json, JsonView,
};
use crate::model::{copy_pairs, pairs, SourceView, WidgetSource};
use crate::text::{
    begins, blank, chars_of, decimal, decimal_of, find_from, first_at, lemma_first_from, occurs_at,
    opt_str, opt_text, parse_unsigned, same_text, split_at_char, split_char, starts_with, text_of,
    texts, trim, trimmed, unsigned_value,
};

verus! {

// ---- the curated endpoints -----------------------------------------------

/// The names of the internal endpoints that a widget may read.
pub const CORE_ENDPOINT_NAMES: [&'static str; 9] = [
    "system_status",
    "sidecar_status",
    "connections",
    "quests",
    "monitors",
    "engines",
    "agents",
    "workflows",
    "meetings",
];

/// The names of the internal endpoints that a widget may read.
pub open spec fn endpoint_names() -> Seq<Seq<char>> {
    seq![
        "system_status"@,
        "sidecar_status"@,
        "connections"@,
        "quests"@,
        "monitors"@,
        "engines"@,
        "agents"@,
        "workflows"@,
        "meetings"@,
    ]
}

/// The path of a curated endpoint. There is none for any other name.
pub open spec fn endpoint_path(name: Seq<char>) -> Option<Seq<char>> {
    if name == "system_status"@ {
        Some("/api/system/status"@)
    } else if name == "sidecar_status"@ {
        Some("/api/sidecar/status"@)
    } else if name == "connections"@ {
        Some("/api/connections"@)
    } else if name == "quests"@ {
        Some("/api/quests"@)
    } else if name == "monitors"@ {
        Some("/api/monitors"@)
    } else if name == "engines"@ {
        Some("/api/engines"@)
    } else if name == "agents"@ {
        Some("/api/agents"@)
    } else if name == "workflows"@ {
        Some("/workflows"@)
    } else if name == "meetings"@ {
        Some("/api/meetings"@)
    } else {
        None
    }
}

/// The path of a curated endpoint.
pub fn core_endpoint_path(name: &str) -> (r: Option<&'static str>)
    ensures
        match r {
            Some(path) => endpoint_path(name@) == Some(path@),
            None => endpoint_path(name@) is None,
        },
{
    if same_text(name, "system_status") {
        Some("/api/system/status")
    } else if same_text(name, "sidecar_status") {
        Some("/api/sidecar/status")
    } else if same_text(name, "connections") {
        Some("/api/connections")
    } else if same_text(name, "quests") {
        Some("/api/quests")
    } else if same_text(name, "monitors") {
        Some("/api/monitors")
    } else if same_text(name, "engines") {
        Some("/api/engines")
    } else if same_text(name, "agents") {
        Some("/api/agents")
    } else if same_text(name, "workflows") {
        Some("/workflows")
    } else if same_text(name, "meetings") {
        Some("/api/meetings")
    } else {
        None
    }
}

/// The catalog and the resolver agree: a name has a path if and only if it is in the list.
pub proof fn law_catalog_and_resolver_agree(name: Seq<char>)
    ensures
        endpoint_path(name) is Some <==> endpoint_names().contains(name),
{
    let names = endpoint_names();
    if endpoint_path(name) is Some {
        assert(names[0] == name || names[1] == name || names[2] == name || names[3] == name
            || names[4] == name || names[5] == name || names[6] == name || names[7] == name
            || names[8] == name);
    }
}

/// Texts with a separator between them.
pub open spec fn joined(list: Seq<Seq<char>>, separator: Seq<char>) -> Seq<char>
    decreases list.len(),
{
    if list.len() == 0 {
        Seq::empty()
    } else if list.len() == 1 {
        list[0]
    } else {
        joined(list.drop_last(), separator) + separator + list.last()
    }
}

/// The names of the curated endpoints in one text.
pub fn endpoint_list() -> (r: String)
    ensures
        r@ == joined(endpoint_names(), ", "@),
{
    let ghost all = endpoint_names();
    let mut out = String::new();
    assert(all.take(0) =~= Seq::<Seq<char>>::empty());
    assert(out@ =~= Seq::<char>::empty());
    for i in 0..9
        invariant
            all == endpoint_names(),
            out@ == joined(all.take(i as int), ", "@),
    {
        let ghost part = all.take(i + 1);
        assert(part.drop_last() =~= all.take(i as int));
        assert(part.last() == all[i as int]);
        assert(CORE_ENDPOINT_NAMES@[i as int]@ == all[i as int]);
        let ghost before = out@;
        if i > 0 {
            out.append(", ");
        }
        out.append(CORE_ENDPOINT_NAMES[i]);
        if i == 0 {
            assert(out@ =~= all[0]);
            assert(part[0] == all[0]);
        } else {
            assert(out@ =~= before + ", "@ + all[i as int]);
        }
    }
    assert(all.take(9) =~= all);
    out
}

/// Why a widget is not written: its endpoint is not in the list.
pub open spec fn not_in_catalog(endpoint: Seq<char>) -> Seq<char> {
    "'"@ + endpoint + "' is not an allowed core_endpoint. Allowed: "@ + joined(
        endpoint_names(),
        ", "@,
    )
}

/// The refusal of an endpoint that is not in the list, in words.
pub fn catalog_refusal(endpoint: &str) -> (r: String)
    ensures
        r@ == not_in_catalog(endpoint@),
{
    let mut text = "'".to_owned();
    text.append(endpoint);
    text.append("' is not an allowed core_endpoint. Allowed: ");
    text.append(endpoint_list().as_str());
    text
}

// ---- path segments -------------------------------------------------------

/// A character that an id may hold: a letter or digit of ASCII, `_`, `-` or `.`.
pub open spec fn id_char(c: char) -> bool {
    'a' <= c <= 'z' || 'A' <= c <= 'Z' || '0' <= c <= '9' || c == '_' || c == '-' || c == '.'
}

/// Whether an id can stand as one segment of a path: it is not empty, holds only the
/// characters of ids, and never two dots in a row.
pub open spec fn safe_segment(id: Seq<char>) -> bool {
    &&& id.len() > 0
    &&& forall|i: int| 0 <= i < id.len() ==> id_char(#[trigger] id[i])
    &&& forall|i: int| 0 <= i < id.len() - 1 ==> !((#[trigger] id[i]) == '.' && id[i + 1] == '.')
}

/// Whether an id can stand as one segment of a privileged path.
pub fn id_segment_is_safe(id: &str) -> (r: bool)
    ensures
        r == safe_segment(id@),
{
    let chars = chars_of(id);
    if chars.len() == 0 {
        return false;
    }
    for i in 0..chars.len()
        invariant
            chars@ == id@,
            forall|j: int| 0 <= j < i ==> id_char(#[trigger] id@[j]),
            forall|j: int| 0 <= j < i - 1 ==> !((#[trigger] id@[j]) == '.' && id@[j + 1] == '.'),
    {
        let c = chars[i];
        let known = ('a' <= c && c <= 'z') || ('A' <= c && c <= 'Z') || ('0' <= c && c <= '9') || c
            == '_' || c == '-' || c == '.';
        if !known {
            assert(!id_char(id@[i as int]));
            return false;
        }
        if i > 0 && c == '.' && chars[i - 1] == '.' {
            assert(id@[i - 1] == '.' && id@[i - 1 + 1] == '.');
            return false;
        }
    }
    true
}

/// A safe id cannot leave its place in a path: it holds no separator, no mark that ends a
/// path, no escape, no white space, and no parent segment.
pub proof fn law_safe_segments_stay_in_place(id: Seq<char>)
    requires
        safe_segment(id),
    ensures
        forall|i: int|
            0 <= i < id.len() ==> (#[trigger] id[i]) != '/' && id[i] != '\\' && id[i] != '?' && id[i]
                != '#' && id[i] != '%' && id[i] != ':' && id[i] != '@' && !crate::text::is_white(
                id[i],
            ),
        forall|i: int| !occurs_at(id, ".."@, i),
{
    reveal_strlit("..");
    assert forall|i: int|
        0 <= i < id.len() implies (#[trigger] id[i]) != '/' && id[i] != '\\' && id[i] != '?' && id[i]
        != '#' && id[i] != '%' && id[i] != ':' && id[i] != '@' && !crate::text::is_white(id[i]) by {
        assert(id_char(id[i]));
    }
    assert forall|i: int| !occurs_at(id, ".."@, i) by {
        if occurs_at(id, ".."@, i) {
            let part = id.subrange(i, i + 2);
            assert(part[0] == id[i] && part[1] == id[i + 1]);
            assert(id[i] == '.' && id[i + 1] == '.');
        }
    }
}

// ---- selectors -----------------------------------------------------------

/// One step into a value: the member of an object, or the item of an array at an index.
pub open spec fn stepped(v: JsonView, segment: Seq<char>) -> Option<JsonView> {
    match v {
        JsonView::Object(_) => v.member(segment),
        JsonView::Array(items) => match unsigned_value(segment, usize::MAX as nat) {
            Some(i) if i < items.len() => Some(items[i as int]),
            _ => None,
        },
        _ => None,
    }
}

/// A walk into a value, step by step. A step that misses ends in null.
pub open spec fn walked(v: JsonView, path: Seq<Seq<char>>) -> JsonView
    decreases path.len(),
{
    if path.len() == 0 {
        v
    } else {
        match stepped(v, path.first()) {
            Some(next) => walked(next, path.skip(1)),
            None => JsonView::Null,
        }
    }
}

/// What a dotted selector picks from a value: all of it when the selector is blank.
pub open spec fn selected(v: JsonView, selector: Option<Seq<char>>) -> JsonView {
    match selector {
        Some(s) if !blank(s) => walked(v, split_at_char(trimmed(s), '.')),
        _ => v,
    }
}

fn step<'a>(v: &'a Json, segment: &str) -> (r: Option<&'a Json>)
    ensures
        match r {
            Some(next) => stepped(v@, segment@) == Some(next@),
            None => stepped(v@, segment@) is None,
        },
{
    match v {
        Json::Object(_) => v.get(segment),
        Json::Array(items) => {
            proof {
                lemma_trees(items@);
            }
            match parse_unsigned(segment, usize::MAX as u64) {
                Some(i) => if i < items.len() as u64 {
                    Some(&items[i as usize])
                } else {
                    None
                },
                None => None,
            }
        },
        _ => None,
    }
}

/// Picks what a dotted selector points at, and null when it misses.
pub fn select(value: &Json, selector: Option<&str>) -> (r: Json)
    ensures
        r@ == selected(value@, opt_str(selector)),
{
    let path = match selector {
        Some(s) => trim(s),
        None => return value.clone(),
    };
    if path.as_str().is_empty() {
        return value.clone();
    }
    let segments = split_char(path.as_str(), '.');
    let ghost all = texts(segments@);
    let ghost goal = walked(value@, all);
    let mut cur: &Json = value;
    assert(all.skip(0) =~= all);
    for i in 0..segments.len()
        invariant
            all == texts(segments@),
            goal == walked(value@, all),
            goal == selected(value@, opt_str(selector)),
            walked(value@, all) == walked(cur@, all.skip(i as int)),
    {
        let ghost rest = all.skip(i as int);
        assert(rest.first() == segments@[i as int]@);
        assert(rest.skip(1) =~= all.skip(i + 1));
        match step(cur, segments[i].as_str()) {
            Some(next) => {
                cur = next;
            },
            None => {
                return Json::Null;
            },
        }
    }
    assert(all.skip(all.len() as int) =~= Seq::<Seq<char>>::empty());
    cur.clone()
}

proof fn lemma_walk_from_null(path: Seq<Seq<char>>)
    ensures
        walked(JsonView::Null, path) == JsonView::Null,
{
}

/// Walking one path and then another is walking both as one.
pub proof fn law_walks_compose(v: JsonView, a: Seq<Seq<char>>, b: Seq<Seq<char>>)
    ensures
        walked(v, a + b) == walked(walked(v, a), b),
    decreases a.len(),
{
    if a.len() == 0 {
        assert(a + b =~= b);
    } else {
        assert((a + b).first() == a.first());
        assert((a + b).skip(1) =~= a.skip(1) + b);
        match stepped(v, a.first()) {
            Some(next) => {
                law_walks_compose(next, a.skip(1), b);
            },
            None => {
                lemma_walk_from_null(b);
            },
        }
    }
}

// ---- agent replies -------------------------------------------------------

/// The text inside the first pair of code fences, without a `json` tag.
pub open spec fn fenced(t: Seq<char>) -> Option<Seq<char>> {
    match first_at(t, "```"@) {
        Some(start) => {
            let after = t.skip(start + 3);
            let body = if begins(after, "json"@) {
                after.skip(4)
            } else {
                after
            };
            match first_at(body, "```"@) {
                Some(end) => Some(trimmed(body.take(end))),
                None => None,
            }
        },
        None => None,
    }
}

/// The text inside the first pair of code fences, without a `json` tag.
pub fn fenced_block(t: &str) -> (r: Option<String>)
    ensures
        opt_text(r) == fenced(t@),
{
    proof {
        reveal_strlit("```");
        reveal_strlit("json");
        lemma_first_from(t@, "```"@, 0);
    }
    let chars = chars_of(t);
    let fence = chars_of("```");
    let start: usize = match find_from(&chars, &fence, 0) {
        Some(i) => i,
        None => return None,
    };
    let mut after: Vec<char> = Vec::new();
    for i in start + 3..chars.len()
        invariant
            start + 3 <= chars@.len(),
            after@ == chars@.subrange(start + 3, i as int),
    {
        after.push(chars[i]);
        assert(after@ =~= chars@.subrange(start + 3, i + 1));
    }
    assert(after@ =~= t@.skip(start + 3));
    let text = text_of(&after);
    let tagged = starts_with(text.as_str(), "json");
    let from: usize = if tagged { 4 } else { 0 };
    let mut body: Vec<char> = Vec::new();
    for i in from..after.len()
        invariant
            from <= after@.len(),
            body@ == after@.subrange(from as int, i as int),
    {
        body.push(after[i]);
        assert(body@ =~= after@.subrange(from as int, i + 1));
    }
    assert(body@ =~= after@.skip(from as int));
    assert(!tagged ==> body@ =~= after@);
    match find_from(&body, &fence, 0) {
        Some(end) => {
            proof {
                lemma_first_from(body@, "```"@, 0);
            }
            let mut inner: Vec<char> = Vec::new();
            for i in 0..end
                invariant
                    end <= body@.len(),
                    inner@ == body@.take(i as int),
            {
                inner.push(body[i]);
                assert(inner@ =~= body@.take(i + 1));
            }
            Some(trim(text_of(&inner).as_str()))
        },
        None => None,
    }
}

/// An object with one member.
pub open spec fn one_member(key: Seq<char>, v: JsonView) -> JsonView {
    JsonView::Object(map![key => v])
}

fn object_of(key: &str, v: Json) -> (r: Json)
    ensures
        r@ == one_member(key@, v@),
{
    let ghost tree = v@;
    let mut entries: Vec<(String, Json)> = Vec::new();
    add_member(&mut entries, key, v);
    assert(members(entries@) =~= map![key@ => tree]);
    Json::Object(entries)
}

/// The value of an agent's reply, given what its fenced block and its whole text were parsed
/// to: the block's value, else the whole text's, else the reply as prose.
pub open spec fn reply_value(
    reply: Seq<char>,
    block: Option<Result<JsonView, Seq<char>>>,
    whole: Result<JsonView, Seq<char>>,
) -> JsonView {
    match block {
        Some(Ok(v)) => v,
        _ => match whole {
            Ok(v) => v,
            Err(_) => one_member("text"@, JsonView::String(reply)),
        },
    }
}

/// What a parse gave.
pub open spec fn parse_of(r: Result<Json, String>) -> Result<JsonView, Seq<char>> {
    match r {
        Ok(v) => Ok(v@),
        Err(e) => Err(e@),
    }
}

/// The value of an agent's reply, given what its fenced block and its whole text were parsed
/// to.
pub fn choose_reply(
    reply: &str,
    block: Option<Result<Json, String>>,
    whole: Result<Json, String>,
) -> (r: Json)
    ensures
        r@ == reply_value(
            reply@,
            match block {
                Some(b) => Some(parse_of(b)),
                None => None,
            },
            parse_of(whole),
        ),
{
    if let Some(Ok(v)) = block {
        return v;
    }
    match whole {
        Ok(v) => v,
        Err(_) => object_of("text", Json::String(reply.to_owned())),
    }
}

/// The value of an agent's reply: JSON in a fenced block or as a whole, or else the prose.
pub fn parse_agent_reply(reply: &str) -> (r: Json)
    ensures
        r@ == reply_value(
            reply@,
            match fenced(trimmed(reply@)) {
                Some(inner) => Some(parsed_text(inner)),
                None => None,
            },
            parsed_text(trimmed(reply@)),
        ),
{
    let t = trim(reply);
    let block = match fenced_block(t.as_str()) {
        Some(inner) => Some(parse_json(inner.as_str())),
        None => None,
    };
    let whole = parse_json(t.as_str());
    choose_reply(reply, block, whole)
}

// ---- the node's own address ----------------------------------------------

/// The address that the node was told to bind: the first `--bind=` argument, else the
/// environment's, else the default.
pub open spec fn bind_address(args: Seq<Seq<char>>, env: Option<Seq<char>>) -> Seq<char>
    decreases args.len(),
{
    if args.len() == 0 {
        match env {
            Some(b) => b,
            None => "127.0.0.1:7980"@,
        }
    } else if begins(args.first(), "--bind="@) {
        args.first().skip(7)
    } else {
        bind_address(args.skip(1), env)
    }
}

/// The loopback base URL of the node: the port of the bind address on the loopback host.
pub open spec fn base_url(args: Seq<Seq<char>>, env: Option<Seq<char>>) -> Seq<char> {
    "http://127.0.0.1:"@ + split_at_char(bind_address(args, env), ':').last()
}

/// The address that the node was told to bind. `args` leave out the program's name.
pub fn self_bind(args: &[String], env: Option<&str>) -> (r: String)
    ensures
        r@ == bind_address(texts(args@), opt_str(env)),
{
    let ghost all = texts(args@);
    let ghost e = opt_str(env);
    proof {
        reveal_strlit("--bind=");
        assert(all.skip(0) =~= all);
    }
    for i in 0..args.len()
        invariant
            all == texts(args@),
            "--bind="@.len() == 7,
            bind_address(all, e) == bind_address(all.skip(i as int), e),
            e == opt_str(env),
    {
        let ghost rest = all.skip(i as int);
        assert(rest.first() == args@[i as int]@);
        assert(rest.skip(1) =~= all.skip(i + 1));
        if starts_with(args[i].as_str(), "--bind=") {
            let chars = chars_of(args[i].as_str());
            let mut out = String::new();
            for j in 7..chars.len()
                invariant
                    7 <= chars@.len(),
                    out@ == chars@.subrange(7, j as int),
            {
                out.push(chars[j]);
                assert(out@ =~= chars@.subrange(7, j + 1));
            }
            assert(out@ =~= rest.first().skip(7));
            return out;
        }
    }
    assert(all.skip(all.len() as int) =~= Seq::<Seq<char>>::empty());
    match env {
        Some(b) => b.to_owned(),
        None => "127.0.0.1:7980".to_owned(),
    }
}

proof fn lemma_split_not_empty(s: Seq<char>, sep: char)
    ensures
        split_at_char(s, sep).len() > 0,
    decreases s.len(),
{
    if s.len() > 0 {
        lemma_split_not_empty(s.drop_last(), sep);
    }
}

/// The loopback base URL of the node. `args` leave out the program's name.
pub fn self_base(args: &[String], env: Option<&str>) -> (r: String)
    ensures
        r@ == base_url(texts(args@), opt_str(env)),
{
    let bind = self_bind(args, env);
    let pieces = split_char(bind.as_str(), ':');
    proof {
        lemma_split_not_empty(bind@, ':');
        assert(texts(pieces@).len() == pieces@.len());
        assert(texts(pieces@).last() == pieces@.last()@);
    }
    let mut out = "http://127.0.0.1:".to_owned();
    out.append(pieces[pieces.len() - 1].as_str());
    out
}

/// The node calls itself on the loopback host, whatever address it was told to bind.
pub proof fn law_self_calls_start_at_the_loopback_host(
    args: Seq<Seq<char>>,
    env: Option<Seq<char>>,
)
    ensures
        begins(base_url(args, env), "http://127.0.0.1:"@),
{
    let head = "http://127.0.0.1:"@;
    assert(base_url(args, env).subrange(0, head.len() as int) =~= head);
}

/// The token that calls to the node itself present: the one of the environment, unless it is
/// empty.
pub open spec fn node_token(env: Option<Seq<char>>) -> Option<Seq<char>> {
    match env {
        Some(t) if t.len() > 0 => Some(t),
        _ => None,
    }
}

/// The token that calls to the node itself present.
pub fn self_token(env: Option<&str>) -> (r: Option<String>)
    ensures
        opt_text(r) == node_token(opt_str(env)),
{
    match env {
        Some(t) => if t.is_empty() {
            None
        } else {
            Some(t.to_owned())
        },
        None => None,
    }
}

// ---- the calls -----------------------------------------------------------

/// A call that a source makes.
#[derive(Debug)]
pub enum Call {
    /// A GET of an internal path, with the node's token.
    Loopback { url: String, path: &'static str, timeout_secs: u64 },
    /// A POST to the node itself, with its token.
    NodePost { url: String, body: Json, timeout_secs: u64 },
    /// A POST to the Gateway, with its token.
    GatewayPost { url: String, body: Json, timeout_secs: u64 },
    /// A guarded fetch of an external endpoint.
    Fetch { url: String, headers: Vec<(String, String)> },
    /// One turn of an agent.
    AgentRun { agent_id: String, conversation_id: String, prompt: String },
}

/// The model of a [`Call`].
pub enum CallView {
    Loopback { url: Seq<char>, path: Seq<char>, timeout_secs: u64 },
    NodePost { url: Seq<char>, body: JsonView, timeout_secs: u64 },
    GatewayPost { url: Seq<char>, body: JsonView, timeout_secs: u64 },
    Fetch { url: Seq<char>, headers: Seq<(Seq<char>, Seq<char>)> },
    AgentRun { agent_id: Seq<char>, conversation_id: Seq<char>, prompt: Seq<char> },
}

impl View for Call {
    type V = CallView;

    open spec fn view(&self) -> CallView {
        match *self {
            Call::Loopback { url, path, timeout_secs } => CallView::Loopback {
                url: url@,
                path: path@,
                timeout_secs,
            },
            Call::NodePost { url, body, timeout_secs } => CallView::NodePost {
                url: url@,
                body: body@,
                timeout_secs,
            },
            Call::GatewayPost { url, body, timeout_secs } => CallView::GatewayPost {
                url: url@,
                body: body@,
                timeout_secs,
            },
            Call::Fetch { url, headers } => CallView::Fetch { url: url@, headers: pairs(headers@) },
            Call::AgentRun { agent_id, conversation_id, prompt } => CallView::AgentRun {
                agent_id: agent_id@,
                conversation_id: conversation_id@,
                prompt: prompt@,
            },
        }
    }
}

/// What resolving a source starts with.
#[derive(Debug)]
pub enum Plan {
    /// The value, without a call.
    Ready(Json),
    /// A call to make.
    Make(Call),
}

/// The model of a [`Plan`].
pub enum PlanView {
    Ready(JsonView),
    Make(CallView),
}

impl View for Plan {
    type V = PlanView;

    open spec fn view(&self) -> PlanView {
        match *self {
            Plan::Ready(v) => PlanView::Ready(v@),
            Plan::Make(c) => PlanView::Make(c@),
        }
    }
}

/// Pairs of texts as the members of an object; later ones replace earlier ones.
pub open spec fn text_members(list: Seq<(Seq<char>, Seq<char>)>) -> Map<Seq<char>, JsonView>
    decreases list.len(),
{
    if list.len() == 0 {
        Map::empty()
    } else {
        text_members(list.drop_last()).insert(list.last().0, JsonView::String(list.last().1))
    }
}

fn object_of_pairs(list: &Vec<(String, String)>) -> (r: Json)
    ensures
        r@ == JsonView::Object(text_members(pairs(list@))),
{
    let ghost all = pairs(list@);
    let mut entries: Vec<(String, Json)> = Vec::new();
    assert(all.take(0) =~= Seq::<(Seq<char>, Seq<char>)>::empty());
    for i in 0..list.len()
        invariant
            all == pairs(list@),
            members(entries@) == text_members(all.take(i as int)),
    {
        assert(all.take(i + 1).drop_last() =~= all.take(i as int));
        add_member(&mut entries, list[i].0.as_str(), Json::String(list[i].1.clone()));
    }
    assert(all.take(all.len() as int) =~= all);
    Json::Object(entries)
}

/// Why an endpoint is not read.
pub open spec fn endpoint_refused(endpoint: Seq<char>) -> Seq<char> {
    "'"@ + endpoint + "' is not an allowed Core endpoint"@
}

/// Why a workflow is not run.
pub open spec fn workflow_refused(id: Seq<char>) -> Seq<char> {
    "invalid workflow_id '"@ + id + "': must be a plain id (no '/', '..', or query chars)"@
}

/// Why an action is not executed.
pub open spec fn action_refused(action: Seq<char>) -> Seq<char> {
    "invalid composio action '"@ + action
        + "': must be a plain action id (no '/', '..', or query chars)"@
}

/// The refusal of a workflow's id in words.
pub fn workflow_refusal(id: &str) -> (r: String)
    ensures
        r@ == workflow_refused(id@),
{
    let mut text = "invalid workflow_id '".to_owned();
    text.append(id);
    text.append("': must be a plain id (no '/', '..', or query chars)");
    text
}

/// The refusal of an action in words.
pub fn action_refusal(action: &str) -> (r: String)
    ensures
        r@ == action_refused(action@),
{
    let mut text = "invalid composio action '".to_owned();
    text.append(action);
    text.append("': must be a plain action id (no '/', '..', or query chars)");
    text
}

/// What is wrong with a source: an endpoint outside the list, or an id that could leave its
/// place in a path.
pub open spec fn source_fault(source: SourceView) -> Option<Seq<char>> {
    match source {
        SourceView::CoreEndpoint { endpoint, .. } => if endpoint_path(endpoint) is None {
            Some(not_in_catalog(endpoint))
        } else {
            None
        },
        SourceView::Workflow { workflow_id, .. } => if !safe_segment(workflow_id) {
            Some(workflow_refused(workflow_id))
        } else {
            None
        },
        SourceView::Composio { action, .. } => if !safe_segment(action) {
            Some(action_refused(action))
        } else {
            None
        },
        _ => None,
    }
}

/// Refuses a source that names an endpoint outside the list, or that holds an id which could
/// leave its place in a path.
pub fn validate_widget_source(source: &WidgetSource) -> (r: Result<(), String>)
    ensures
        match source_fault(source@) {
            Some(e) => r matches Err(f) && f@ == e,
            None => r is Ok,
        },
{
    match source {
        WidgetSource::CoreEndpoint { endpoint, .. } => {
            if core_endpoint_path(endpoint.as_str()).is_none() {
                return Err(catalog_refusal(endpoint.as_str()));
            }
        },
        WidgetSource::Workflow { workflow_id, .. } => {
            if !id_segment_is_safe(workflow_id.as_str()) {
                return Err(workflow_refusal(workflow_id.as_str()));
            }
        },
        WidgetSource::Composio { action, .. } => {
            if !id_segment_is_safe(action.as_str()) {
                return Err(action_refusal(action.as_str()));
            }
        },
        _ => {},
    }
    Ok(())
}

/// The conversation of a widget with its agent. Each widget has its own.
pub open spec fn conversation(widget_id: Seq<char>) -> Seq<char> {
    "dashboard-widget-"@ + widget_id
}

/// Two widgets never share a conversation.
pub proof fn law_widgets_share_no_conversation(a: Seq<char>, b: Seq<char>)
    requires
        a != b,
    ensures
        conversation(a) != conversation(b),
{
    let head = "dashboard-widget-"@;
    assert(conversation(a).skip(head.len() as int) =~= a);
    assert(conversation(b).skip(head.len() as int) =~= b);
}

/// What resolving a source starts with, or why it is refused before any call.
pub open spec fn planned(
    source: SourceView,
    widget_id: Seq<char>,
    base: Seq<char>,
    gateway: Seq<char>,
) -> Result<PlanView, Seq<char>> {
    match source {
        SourceView::Static { data } => Ok(PlanView::Ready(data)),
        SourceView::CoreEndpoint { endpoint, .. } => match endpoint_path(endpoint) {
            Some(path) => Ok(
                PlanView::Make(CallView::Loopback { url: base + path, path, timeout_secs: 15 }),
            ),
            None => Err(endpoint_refused(endpoint)),
        },
        SourceView::Monitor { .. } => Ok(
            PlanView::Make(
                CallView::Loopback {
                    url: base + "/api/monitors"@,
                    path: "/api/monitors"@,
                    timeout_secs: 15,
                },
            ),
        ),
        SourceView::Workflow { workflow_id, input, .. } => if safe_segment(workflow_id) {
            Ok(
                PlanView::Make(
                    CallView::NodePost {
                        url: base + "/workflows/"@ + workflow_id + "/run"@,
                        body: one_member("input"@, JsonView::Object(text_members(input))),
                        timeout_secs: 120,
                    },
                ),
            )
        } else {
            Err(workflow_refused(workflow_id))
        },
        SourceView::Composio { action, args } => if safe_segment(action) {
            Ok(
                PlanView::Make(
                    CallView::GatewayPost {
                        url: gateway + "/tools/execute/"@ + action,
                        body: one_member("arguments"@, args),
                        timeout_secs: 60,
                    },
                ),
            )
        } else {
            Err(action_refused(action))
        },
        SourceView::Http { url, headers, .. } => Ok(
            PlanView::Make(CallView::Fetch { url, headers }),
        ),
        SourceView::Agent { agent_id, prompt } => Ok(
            PlanView::Make(
                CallView::AgentRun {
                    agent_id,
                    conversation_id: conversation(widget_id),
                    prompt,
                },
            ),
        ),
    }
}

/// The outcome of planning.
pub open spec fn plan_of(r: Result<Plan, String>) -> Result<PlanView, Seq<char>> {
    match r {
        Ok(p) => Ok(p@),
        Err(e) => Err(e@),
    }
}

fn with_path(base: &str, path: &str) -> (r: String)
    ensures
        r@ == base@ + path@,
{
    let mut url = base.to_owned();
    url.append(path);
    url
}

/// Says what resolving a source starts with. `base` is the node's own URL and `gateway` the
/// Gateway's.
pub fn plan(source: &WidgetSource, widget_id: &str, base: &str, gateway: &str) -> (r: Result<
    Plan,
    String,
>)
    ensures
        plan_of(r) == planned(source@, widget_id@, base@, gateway@),
{
    match source {
        WidgetSource::Static { data } => Ok(Plan::Ready(data.clone())),
        WidgetSource::CoreEndpoint { endpoint, .. } => match core_endpoint_path(endpoint.as_str()) {
            Some(path) => Ok(
                Plan::Make(
                    Call::Loopback { url: with_path(base, path), path, timeout_secs: 15 },
                ),
            ),
            None => {
                let mut text = "'".to_owned();
                text.append(endpoint.as_str());
                text.append("' is not an allowed Core endpoint");
                Err(text)
            },
        },
        WidgetSource::Monitor { .. } => Ok(
            Plan::Make(
                Call::Loopback {
                    url: with_path(base, "/api/monitors"),
                    path: "/api/monitors",
                    timeout_secs: 15,
                },
            ),
        ),
        WidgetSource::Workflow { workflow_id, input, .. } => {
            if !id_segment_is_safe(workflow_id.as_str()) {
                return Err(workflow_refusal(workflow_id.as_str()));
            }
            let mut url = with_path(base, "/workflows/");
            url.append(workflow_id.as_str());
            url.append("/run");
            let body = object_of("input", object_of_pairs(input));
            Ok(Plan::Make(Call::NodePost { url, body, timeout_secs: 120 }))
        },
        WidgetSource::Composio { action, args } => {
            if !id_segment_is_safe(action.as_str()) {
                return Err(action_refusal(action.as_str()));
            }
            let mut url = with_path(gateway, "/tools/execute/");
            url.append(action.as_str());
            let body = object_of("arguments", args.clone());
            Ok(Plan::Make(Call::GatewayPost { url, body, timeout_secs: 60 }))
        },
        WidgetSource::Http { url, headers, .. } => Ok(
            Plan::Make(Call::Fetch { url: url.clone(), headers: copy_pairs(headers) }),
        ),
        WidgetSource::Agent { agent_id, prompt } => Ok(
            Plan::Make(
                Call::AgentRun {
                    agent_id: agent_id.clone(),
                    conversation_id: with_path("dashboard-widget-", widget_id),
                    prompt: prompt.clone(),
                },
            ),
        ),
    }
}

// ---- the answers ---------------------------------------------------------

/// How a call over HTTP ended.
#[derive(Debug)]
pub enum HttpReply {
    /// No answer came.
    Unreached(String),
    /// An answer with its status, the status in words, and its body or why that is no JSON.
    Answered { status: u16, status_line: String, body: Result<Json, String> },
}

/// The model of an [`HttpReply`].
pub enum HttpReplyView {
    Unreached(Seq<char>),
    Answered { status: u16, status_line: Seq<char>, body: Result<JsonView, Seq<char>> },
}

impl View for HttpReply {
    type V = HttpReplyView;

    open spec fn view(&self) -> HttpReplyView {
        match *self {
            HttpReply::Unreached(e) => HttpReplyView::Unreached(e@),
            HttpReply::Answered { status, status_line, body } => HttpReplyView::Answered {
                status,
                status_line: status_line@,
                body: parse_of(body),
            },
        }
    }
}

/// How the call of a source ended.
#[derive(Debug)]
pub enum Answer {
    /// A loopback GET or a POST.
    Http(HttpReply),
    /// A guarded fetch: the status and the text, or why it was blocked.
    Fetched(Result<(u16, String), String>),
    /// An agent's turn: its reply, or why there is none.
    Ran(Result<String, String>),
}

/// Whether a status tells of success.
pub open spec fn succeeded(status: u16) -> bool {
    200 <= status < 300
}

/// The body of a reply, or what went wrong, in the words given for each way to fail.
pub open spec fn body_of(
    reply: HttpReplyView,
    failed: Seq<char>,
    returned: Seq<char>,
    garbled: Seq<char>,
) -> Result<JsonView, Seq<char>> {
    match reply {
        HttpReplyView::Unreached(e) => Err(failed + e),
        HttpReplyView::Answered { status, status_line, body } => if !succeeded(status) {
            Err(returned + status_line)
        } else {
            match body {
                Ok(v) => Ok(v),
                Err(e) => Err(garbled + e),
            }
        },
    }
}

fn read_body(reply: HttpReply, failed: &str, returned: &str, garbled: &str) -> (r: Result<
    Json,
    String,
>)
    ensures
        parse_of(r) == body_of(reply@, failed@, returned@, garbled@),
{
    match reply {
        HttpReply::Unreached(e) => Err(with_path(failed, e.as_str())),
        HttpReply::Answered { status, status_line, body } => {
            if status < 200 || status >= 300 {
                Err(with_path(returned, status_line.as_str()))
            } else {
                match body {
                    Ok(v) => Ok(v),
                    Err(e) => Err(with_path(garbled, e.as_str())),
                }
            }
        },
    }
}

/// The body of a loopback call's reply.
pub open spec fn loopback_body(path: Seq<char>, reply: HttpReplyView) -> Result<
    JsonView,
    Seq<char>,
> {
    let call = "core self-call to "@ + path;
    body_of(reply, call + " failed: "@, call + " returned "@, call + " was not JSON: "@)
}

/// Reads the body of a loopback call's reply.
pub fn loopback_get(path: &str, reply: HttpReply) -> (r: Result<Json, String>)
    ensures
        parse_of(r) == loopback_body(path@, reply@),
{
    let call = with_path("core self-call to ", path);
    let failed = with_path(call.as_str(), " failed: ");
    let returned = with_path(call.as_str(), " returned ");
    let garbled = with_path(call.as_str(), " was not JSON: ");
    read_body(reply, failed.as_str(), returned.as_str(), garbled.as_str())
}

/// The first of some items, from position `i` on, whose `id` is the given one.
pub open spec fn item_with_id(items: Seq<JsonView>, id: Seq<char>, i: int) -> Option<JsonView>
    decreases items.len() - i,
{
    if i < 0 || i >= items.len() {
        None
    } else if items[i].text_at("id"@) == Some(id) {
        Some(items[i])
    } else {
        item_with_id(items, id, i + 1)
    }
}

/// The monitor with an id among those of a body.
pub open spec fn monitor_in(body: JsonView, monitor_id: Seq<char>) -> Result<JsonView, Seq<char>> {
    let found = match body.member("monitors"@) {
        Some(JsonView::Array(items)) => item_with_id(items, monitor_id, 0),
        _ => None,
    };
    match found {
        Some(m) => Ok(m),
        None => Err("monitor '"@ + monitor_id + "' not found"@),
    }
}

/// Finds the monitor with an id among those of a body.
pub fn find_monitor(body: &Json, monitor_id: &str) -> (r: Result<Json, String>)
    ensures
        parse_of(r) == monitor_in(body@, monitor_id@),
{
    if let Some(Json::Array(items)) = body.get("monitors") {
        let ghost all = trees(items@);
        proof {
            lemma_trees(items@);
        }
        for i in 0..items.len()
            invariant
                all == trees(items@),
                all.len() == items@.len(),
                forall|j: int| 0 <= j < items@.len() ==> all[j] == (#[trigger] items@[j])@,
                body@.member("monitors"@) == Some(JsonView::Array(all)),
                item_with_id(all, monitor_id@, 0) == item_with_id(all, monitor_id@, i as int),
        {
            assert(all[i as int] == items@[i as int]@);
            let hit = match items[i].str_at("id") {
                Some(id) => same_text(id, monitor_id),
                None => false,
            };
            if hit {
                return Ok(items[i].clone());
            }
        }
    }
    let mut text = "monitor '".to_owned();
    text.append(monitor_id);
    text.append("' not found");
    Err(text)
}

/// What a workflow's run delivered: a key of its output, the output, or the whole body when
/// there is no output.
pub open spec fn workflow_output(body: JsonView, output_key: Option<Seq<char>>) -> JsonView {
    let output = match body.member("run"@) {
        Some(run) => run.member("output"@),
        None => None,
    };
    match output {
        Some(out) => match output_key {
            Some(key) => match out.member(key) {
                Some(v) => v,
                None => JsonView::Null,
            },
            None => out,
        },
        None => body,
    }
}

/// Reads what a workflow's run delivered.
pub fn workflow_result(body: Json, output_key: &Option<String>) -> (r: Json)
    ensures
        r@ == workflow_output(body@, opt_text(*output_key)),
{
    let output = match body.get("run") {
        Some(run) => match run.get("output") {
            Some(out) => Some(
                match output_key {
                    Some(key) => match out.get(key.as_str()) {
                        Some(v) => v.clone(),
                        None => Json::Null,
                    },
                    None => out.clone(),
                },
            ),
            None => None,
        },
        None => None,
    };
    match output {
        Some(v) => v,
        None => body,
    }
}

/// What an action delivered: the `data` of the body where it has one.
pub open spec fn action_data(body: JsonView) -> JsonView {
    match body.member("data"@) {
        Some(v) => v,
        None => body,
    }
}

/// Reads what an action delivered.
pub fn action_result(body: Json) -> (r: Json)
    ensures
        r@ == action_data(body@),
{
    let data = match body.get("data") {
        Some(v) => Some(v.clone()),
        None => None,
    };
    match data {
        Some(v) => v,
        None => body,
    }
}

/// What an external endpoint delivered, given what its text was parsed to: a redirect and
/// any other status but success are errors.
pub open spec fn external_value(
    status: u16,
    parsed: Result<JsonView, Seq<char>>,
    selector: Option<Seq<char>>,
) -> Result<JsonView, Seq<char>> {
    if 300 <= status < 400 {
        Err("http source refused: redirects are not allowed"@)
    } else if !succeeded(status) {
        Err("http GET returned "@ + decimal_of(status as nat))
    } else {
        match parsed {
            Ok(v) => Ok(selected(v, selector)),
            Err(e) => Err("response was not JSON: "@ + e),
        }
    }
}

/// Reads what an external endpoint delivered, given what its text was parsed to.
pub fn external_result(status: u16, parsed: Result<Json, String>, selector: &Option<String>) -> (r:
    Result<Json, String>)
    ensures
        parse_of(r) == external_value(status, parse_of(parsed), opt_text(*selector)),
{
    if 300 <= status && status < 400 {
        return Err("http source refused: redirects are not allowed".to_owned());
    }
    if status < 200 || status >= 300 {
        let code = decimal(status as u64);
        return Err(with_path("http GET returned ", code.as_str()));
    }
    match parsed {
        Ok(v) => {
            let picked = match selector {
                Some(s) => select(&v, Some(s.as_str())),
                None => select(&v, None),
            };
            Ok(picked)
        },
        Err(e) => Err(with_path("response was not JSON: ", e.as_str())),
    }
}

/// The body of the reply to a workflow's run.
pub open spec fn workflow_body(reply: HttpReplyView) -> Result<JsonView, Seq<char>> {
    body_of(
        reply,
        "workflow run failed: "@,
        "workflow run returned "@,
        "workflow run response was not JSON: "@,
    )
}

/// The body of the reply to an action.
pub open spec fn action_body(reply: HttpReplyView) -> Result<JsonView, Seq<char>> {
    body_of(
        reply,
        "composio execute failed: "@,
        "composio execute returned "@,
        "composio response was not JSON: "@,
    )
}

/// The value of an agent's reply, as [`parse_agent_reply`] reads it.
pub open spec fn agent_value(reply: Seq<char>) -> JsonView {
    reply_value(
        reply,
        match fenced(trimmed(reply)) {
            Some(inner) => Some(parsed_text(inner)),
            None => None,
        },
        parsed_text(trimmed(reply)),
    )
}

/// Whether an answer is one that the call of a source can have.
pub open spec fn answers(source: SourceView, answer: Answer) -> bool {
    match source {
        SourceView::Static { .. } => false,
        SourceView::CoreEndpoint { endpoint, .. } => answer is Http && endpoint_path(endpoint) is Some,
        SourceView::Monitor { .. } => answer is Http,
        SourceView::Workflow { .. } => answer is Http,
        SourceView::Composio { .. } => answer is Http,
        SourceView::Http { .. } => answer is Fetched,
        SourceView::Agent { .. } => answer is Ran,
    }
}

/// The value that the answer to a source's call stands for, or what went wrong.
pub open spec fn concluded(source: SourceView, answer: Answer) -> Result<JsonView, Seq<char>> {
    match source {
        SourceView::Static { data } => Ok(data),
        SourceView::CoreEndpoint { endpoint, selector } => match loopback_body(
            endpoint_path(endpoint).unwrap(),
            answer->Http_0@,
        ) {
            Ok(body) => Ok(selected(body, selector)),
            Err(e) => Err(e),
        },
        SourceView::Monitor { monitor_id } => match loopback_body(
            "/api/monitors"@,
            answer->Http_0@,
        ) {
            Ok(body) => monitor_in(body, monitor_id),
            Err(e) => Err(e),
        },
        SourceView::Workflow { output_key, .. } => match workflow_body(answer->Http_0@) {
            Ok(body) => Ok(workflow_output(body, output_key)),
            Err(e) => Err(e),
        },
        SourceView::Composio { .. } => match action_body(answer->Http_0@) {
            Ok(body) => Ok(action_data(body)),
            Err(e) => Err(e),
        },
        SourceView::Http { selector, .. } => match answer->Fetched_0 {
            Ok(fetched) => external_value(fetched.0, parsed_text(fetched.1@), selector),
            Err(e) => Err(e@),
        },
        SourceView::Agent { .. } => match answer->Ran_0 {
            Ok(reply) => Ok(agent_value(reply@)),
            Err(e) => Err("agent run failed: "@ + e@),
        },
    }
}

/// Turns the answer to a source's call into the source's value.
pub fn conclude(source: &WidgetSource, answer: Answer) -> (r: Result<Json, String>)
    requires
        answers(source@, answer),
    ensures
        parse_of(r) == concluded(source@, answer),
{
    match (source, answer) {
        (WidgetSource::CoreEndpoint { endpoint, selector }, Answer::Http(reply)) => {
            let path = match core_endpoint_path(endpoint.as_str()) {
                Some(p) => p,
                None => "",
            };
            match loopback_get(path, reply) {
                Ok(body) => {
                    let picked = match selector {
                        Some(s) => select(&body, Some(s.as_str())),
                        None => select(&body, None),
                    };
                    Ok(picked)
                },
                Err(e) => Err(e),
            }
        },
        (WidgetSource::Monitor { monitor_id }, Answer::Http(reply)) => {
            match loopback_get("/api/monitors", reply) {
                Ok(body) => find_monitor(&body, monitor_id.as_str()),
                Err(e) => Err(e),
            }
        },
        (WidgetSource::Workflow { output_key, .. }, Answer::Http(reply)) => {
            match read_body(
                reply,
                "workflow run failed: ",
                "workflow run returned ",
                "workflow run response was not JSON: ",
            ) {
                Ok(body) => Ok(workflow_result(body, output_key)),
                Err(e) => Err(e),
            }
        },
        (WidgetSource::Composio { .. }, Answer::Http(reply)) => {
            match read_body(
                reply,
                "composio execute failed: ",
                "composio execute returned ",
                "composio response was not JSON: ",
            ) {
                Ok(body) => Ok(action_result(body)),
                Err(e) => Err(e),
            }
        },
        (WidgetSource::Http { selector, .. }, Answer::Fetched(fetched)) => match fetched {
            Ok((status, text)) => external_result(status, parse_json(text.as_str()), selector),
            Err(e) => Err(e),
        },
        (WidgetSource::Agent { .. }, Answer::Ran(run)) => match run {
            Ok(reply) => Ok(parse_agent_reply(reply.as_str())),
            Err(e) => Err(with_path("agent run failed: ", e.as_str())),
        },
        (_, _) => Ok(Json::Null),
    }
}

/// A redirect is never followed and never a value.
pub proof fn law_redirects_are_refused(
    status: u16,
    parsed: Result<JsonView, Seq<char>>,
    selector: Option<Seq<char>>,
)
    requires
        300 <= status < 400,
    ensures
        external_value(status, parsed, selector) == Err::<JsonView, Seq<char>>(
            "http source refused: redirects are not allowed"@,
        ),
{
}

/// No call is made for an endpoint outside the list, for a workflow or for an action whose
/// id could leave its place in the path.
pub proof fn law_unsafe_sources_make_no_call(
    source: SourceView,
    widget_id: Seq<char>,
    base: Seq<char>,
    gateway: Seq<char>,
)
    ensures
        source matches SourceView::CoreEndpoint { endpoint, .. } ==> !endpoint_names().contains(
            endpoint,
        ) ==> planned(source, widget_id, base, gateway) is Err,
        source matches SourceView::Workflow { workflow_id, .. } ==> !safe_segment(workflow_id)
            ==> planned(source, widget_id, base, gateway) is Err,
        source matches SourceView::Composio { action, .. } ==> !safe_segment(action) ==> planned(
            source,
            widget_id,
            base,
            gateway,
        ) is Err,
{
    match source {
        SourceView::CoreEndpoint { endpoint, .. } => {
            law_catalog_and_resolver_agree(endpoint);
        },
        _ => {},
    }
}

} // verus!
