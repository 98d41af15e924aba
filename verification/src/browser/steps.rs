//! What a command asks first, and what it asks after each reply.
use vstd::prelude::*;
use vstd::string::*;

use crate::browser::acting;
use crate::browser::acting::start;
use crate::browser::bytes;
use crate::browser::bytes::cut_text;
use crate::browser::command;
use crate::browser::command::{BrowserCommand, ClipRect, CommandOutcome, OutcomeView};
use crate::browser::engine;
use crate::browser::engine::{
    end, is_allowed_url, later, make, read, run, wait_time, Ask, AskView, Effect, EffectView,
    Part, Stage, StageView, Turn, TurnView, BODY_BYTES, SNAPSHOT_DOM_MAX,
};
use crate::browser::network;
use crate::browser::network::NetworkLog;
use crate::browser::scripts;
use crate::browser::scripts::{
    check_js, element_info_js, evaluate_js, select_js, selector_js, snapshot_js, wait_text_js,
};
use crate::browser::tabs;
use crate::browser::tabs::{RegistryView, TabRegistry, TabView};
use crate::json;
use crate::json::{object, object_of, Json, JsonNumber, JsonView};
use crate::map::TextMap;
use crate::text;
use crate::text::{cat3, str_eq};

verus! {

// The parts of a body.

/// Whether a text can be cut after the bytes that are shown of it.
pub open spec fn can_cut(text: Seq<char>) -> bool {
    bytes::can_cut(text, BODY_BYTES)
}

/// The outcome of a request for a body that was sent.
pub open spec fn sent_body(id: Seq<char>, entry: JsonView, elapsed_ms: u64) -> OutcomeView {
    let post = json::text_or(entry, "postData"@, Seq::empty());
    if post.len() == 0 {
        command::failure(
            "no_post_data"@,
            "请求 "@ + id + " 没有 POST body(GET 或浏览器未上报)"@,
            elapsed_ms,
        )
    } else {
        command::value_outcome(
            JsonView::Object(
                map![
                    "requestId"@ => JsonView::Text(id),
                    "kind"@ => JsonView::Text("request"@),
                    "truncated"@ => JsonView::Bool(bytes::is_longer(post, BODY_BYTES)),
                    "body"@ => JsonView::Text(bytes::cut(post, BODY_BYTES)),
                ],
            ),
            elapsed_ms,
        )
    }
}

/// The outcome of a request for a body that came back.
pub open spec fn got_body(id: Seq<char>, mime: Seq<char>, value: JsonView, elapsed_ms: u64) -> OutcomeView {
    let body = json::text_or(value, "body"@, Seq::empty());
    command::value_outcome(
        JsonView::Object(
            map![
                "requestId"@ => JsonView::Text(id),
                "kind"@ => JsonView::Text("response"@),
                "mimeType"@ => JsonView::Text(mime),
                "base64Encoded"@ => JsonView::Bool(
                    json::member_bool(value, "base64Encoded"@) == Some(true),
                ),
                "truncated"@ => JsonView::Bool(bytes::is_longer(body, BODY_BYTES)),
                "body"@ => JsonView::Text(bytes::cut(body, BODY_BYTES)),
            ],
        ),
        elapsed_ms,
    )
}

pub(crate) fn member_text(value: &Json, key: &str) -> (text: String)
    ensures
        text@ == json::text_or(value@, key@, Seq::empty()),
{
    proof {
        reveal_strlit("");
        assert(""@ =~= Seq::empty());
    }
    value.str_or(key, "")
}

pub(crate) fn is_true(value: &Json, key: &str) -> (yes: bool)
    ensures
        yes == (json::member_bool(value@, key@) == Some(true)),
{
    match value.get_bool(key) {
        Some(flag) => flag,
        None => false,
    }
}

fn tell_sent(id: &str, entry: &Json, elapsed_ms: u64) -> (outcome: CommandOutcome)
    requires
        can_cut(json::text_or(entry@, "postData"@, Seq::empty())),
    ensures
        outcome@ == sent_body(id@, entry@, elapsed_ms),
{
    let post = member_text(entry, "postData");
    if post.as_str().is_empty() {
        let why = cat3("请求 ", id, " 没有 POST body(GET 或浏览器未上报)");
        return CommandOutcome::err("no_post_data", why.as_str(), elapsed_ms);
    }
    let (body, truncated) = cut_text(post.as_str(), BODY_BYTES);
    let mut value = object();
    value.insert("requestId", Json::text(id));
    value.insert("kind", Json::text("request"));
    value.insert("truncated", Json::Bool(truncated));
    value.insert("body", Json::Text(body));
    CommandOutcome::ok_value(value, elapsed_ms)
}

pub(crate) fn tell_got(id: &str, mime: &str, got: &Json, elapsed_ms: u64) -> (outcome: CommandOutcome)
    requires
        can_cut(json::text_or(got@, "body"@, Seq::empty())),
    ensures
        outcome@ == got_body(id@, mime@, got@, elapsed_ms),
{
    let all = member_text(got, "body");
    let (body, truncated) = cut_text(all.as_str(), BODY_BYTES);
    let mut value = object();
    value.insert("requestId", Json::text(id));
    value.insert("kind", Json::text("response"));
    value.insert("mimeType", Json::text(mime));
    value.insert("base64Encoded", Json::Bool(is_true(got, "base64Encoded")));
    value.insert("truncated", Json::Bool(truncated));
    value.insert("body", Json::Text(body));
    CommandOutcome::ok_value(value, elapsed_ms)
}

// The first step.

/// What is known when a command comes.
pub struct Known<'a> {
    pub registry: &'a TabRegistry,
    pub dialogs: &'a TextMap<Json>,
    pub network: &'a NetworkLog,
}

/// A flag as a member of its own.
pub open spec fn flag_value(key: Seq<char>, flag: bool) -> JsonView {
    JsonView::Object(map![key => JsonView::Bool(flag)])
}

/// A tab as it is listed.
pub open spec fn listed(tab: TabView, active: Option<Seq<char>>) -> JsonView {
    JsonView::Object(
        map![
            "tabId"@ => JsonView::Text(tab.tab_id),
            "url"@ => JsonView::Text(tab.url),
            "title"@ => JsonView::Text(tab.title),
            "active"@ => JsonView::Bool(active == Some(tab.tab_id)),
        ],
    )
}

/// The tabs as they are listed.
pub open spec fn listing(registry: RegistryView) -> JsonView {
    JsonView::Object(
        map![
            "tabs"@ => JsonView::Array(
                registry.tabs.map_values(|tab: TabView| listed(tab, registry.active)),
            ),
        ],
    )
}

fn list_tabs(registry: &TabRegistry) -> (value: Json)
    ensures
        value@ == listing(registry@),
{
    let tabs = registry.tabs();
    let ghost all = registry@.tabs.map_values(|tab: TabView| listed(tab, registry@.active));
    let mut items: Vec<Json> = Vec::new();
    let mut i: usize = 0;
    assert(json::trees(items@) =~= all.take(0));
    while i < tabs.len()
        invariant
            i <= tabs@.len(),
            tabs::tab_views(tabs@) == registry@.tabs,
            all == registry@.tabs.map_values(|tab: TabView| listed(tab, registry@.active)),
            json::trees(items@) == all.take(i as int),
        decreases tabs@.len() - i,
    {
        let tab = &tabs[i];
        let active = match registry.active_tab() {
            Some(active) => str_eq(active.as_str(), tab.tab_id.as_str()),
            None => false,
        };
        let mut item = object();
        item.insert("tabId", Json::Text(tab.tab_id.clone()));
        item.insert("url", Json::Text(tab.url.clone()));
        item.insert("title", Json::Text(tab.title.clone()));
        item.insert("active", Json::Bool(active));
        assert(registry@.tabs[i as int] == tab@);
        assert(item@ == all[i as int]);
        assert(json::trees(items@.push(item)) =~= json::trees(items@).push(item@));
        assert(all.take(i + 1) =~= all.take(i as int).push(all[i as int]));
        items.push(item);
        i += 1;
    }
    assert(all.take(all.len() as int) =~= all);
    object_of("tabs", Json::array(items))
}

/// The requests of a tab as they are listed.
pub open spec fn requests_value(
    requests: Seq<network::RequestView>,
    filter: Option<Seq<char>>,
    max: Option<u32>,
) -> JsonView {
    let wished = match max {
        Some(max) => max,
        None => 50,
    };
    let entries = network::last_entries(
        network::matching(requests, filter),
        if wished < 200 {
            wished as nat
        } else {
            200
        },
    );
    JsonView::Object(
        map![
            "requests"@ => JsonView::Array(entries),
            "count"@ => json::whole(entries.len() as u64),
        ],
    )
}

fn list_requests(log: &NetworkLog, tab: &str, filter: &Option<String>, max: Option<u32>) -> (value: Json)
    ensures
        value@ == requests_value(log.of_tab(tab@), text::opt_view(*filter), max),
{
    let wished: u32 = match max {
        Some(max) => max,
        None => 50,
    };
    let limit: u32 = if wished < 200 {
        wished
    } else {
        200
    };
    let entries = match filter {
        Some(filter) => log.list(tab, Some(filter.as_str()), limit),
        None => log.list(tab, None, limit),
    };
    let count = entries.len() as u64;
    let mut value = object();
    value.insert("requests", Json::array(entries));
    value.insert("count", Json::Number(JsonNumber::Unsigned(count)));
    value
}

/// How a picture is asked for.
pub open spec fn picture_params(full_page: Option<bool>, clip: Option<ClipRect>) -> JsonView {
    let plain = map![
        "format"@ => JsonView::Text("png"@),
        "captureBeyondViewport"@ => JsonView::Bool(full_page == Some(true) || clip is Some),
    ];
    match clip {
        Some(rect) => JsonView::Object(
            plain.insert(
                "clip"@,
                JsonView::Object(
                    map![
                        "x"@ => JsonView::Number(rect.x@.value),
                        "y"@ => JsonView::Number(rect.y@.value),
                        "width"@ => JsonView::Number(rect.width@.value),
                        "height"@ => JsonView::Number(rect.height@.value),
                        "scale"@ => json::whole(1),
                    ],
                ),
            ),
        ),
        None => JsonView::Object(plain),
    }
}

fn ask_picture(full_page: Option<bool>, clip: &Option<ClipRect>) -> (params: Json)
    ensures
        params@ == picture_params(full_page, *clip),
{
    let whole = match full_page {
        Some(full) => full,
        None => false,
    };
    let mut params = object();
    params.insert("format", Json::text("png"));
    params.insert("captureBeyondViewport", Json::Bool(whole || clip.is_some()));
    if let Some(rect) = clip {
        let mut part = object();
        part.insert("x", rect.x.json());
        part.insert("y", rect.y.json());
        part.insert("width", rect.width.json());
        part.insert("height", rect.height.json());
        part.insert("scale", Json::Number(JsonNumber::Unsigned(1)));
        params.insert("clip", part);
    }
    params
}

/// How a dialog is settled.
pub open spec fn dialog_params(accept: bool, prompt_text: Option<Seq<char>>) -> JsonView {
    let plain = map!["accept"@ => JsonView::Bool(accept)];
    match prompt_text {
        Some(prompt_text) => JsonView::Object(
            plain.insert("promptText"@, JsonView::Text(prompt_text)),
        ),
        None => JsonView::Object(plain),
    }
}

/// How the pictures of a page are asked for.
pub open spec fn stream_params() -> JsonView {
    JsonView::Object(
        map![
            "format"@ => JsonView::Text("jpeg"@),
            "quality"@ => json::whole(60),
            "maxWidth"@ => json::whole(1280),
            "maxHeight"@ => json::whole(800),
            "everyNthFrame"@ => json::whole(1),
        ],
    )
}

fn ask_stream() -> (params: Json)
    ensures
        params@ == stream_params(),
{
    let mut params = object();
    params.insert("format", Json::text("jpeg"));
    params.insert("quality", Json::Number(JsonNumber::Unsigned(60)));
    params.insert("maxWidth", Json::Number(JsonNumber::Unsigned(1280)));
    params.insert("maxHeight", Json::Number(JsonNumber::Unsigned(800)));
    params.insert("everyNthFrame", Json::Number(JsonNumber::Unsigned(1)));
    params
}

/// How a size is asked for.
pub open spec fn size_params(width: u32, height: u32) -> JsonView {
    JsonView::Object(
        map![
            "width"@ => json::whole(width as u64),
            "height"@ => json::whole(height as u64),
            "deviceScaleFactor"@ => json::whole(0),
            "mobile"@ => JsonView::Bool(false),
        ],
    )
}

/// A size as it is told.
pub open spec fn size_value(width: u32, height: u32) -> JsonView {
    JsonView::Object(
        map![
            "width"@ => json::whole(width as u64),
            "height"@ => json::whole(height as u64),
        ],
    )
}

pub(crate) fn tell_size(width: u32, height: u32) -> (value: Json)
    ensures
        value@ == size_value(width, height),
{
    let mut value = object();
    value.insert("width", Json::Number(JsonNumber::Unsigned(width as u64)));
    value.insert("height", Json::Number(JsonNumber::Unsigned(height as u64)));
    value
}

/// How many elements a snapshot holds.
pub open spec fn snapshot_size(max_elements: Option<u32>) -> u32 {
    let wished = match max_elements {
        Some(wished) => wished,
        None => 200,
    };
    if wished < 1 {
        1
    } else if wished > 1000 {
        1000
    } else {
        wished
    }
}

fn bounded_size(max_elements: Option<u32>) -> (size: u32)
    ensures
        size == snapshot_size(max_elements),
{
    let wished: u32 = match max_elements {
        Some(wished) => wished,
        None => 200,
    };
    if wished < 1 {
        1
    } else if wished > 1000 {
        1000
    } else {
        wished
    }
}

/// A wait goes on with what it looks at next; one that has looked at everything has waited enough.
pub open spec fn waits(asked: BrowserCommand, part: Part, deadline: u64, elapsed_ms: u64) -> TurnView {
    match asked {
        BrowserCommand::WaitFor { selector, text, text_gone, .. } => {
            if part == Part::Selector && selector is Some {
                engine::runs(
                    scripts::selector_script(selector->0@),
                    StageView::Waiting { part: Part::Selector, deadline },
                )
            } else if (part == Part::Selector || part == Part::Shown) && text is Some {
                engine::runs(
                    scripts::wait_script(text->0@),
                    StageView::Waiting { part: Part::Shown, deadline },
                )
            } else if part != Part::Nothing && text_gone is Some {
                engine::runs(
                    scripts::wait_script(text_gone->0@),
                    StageView::Waiting { part: Part::Gone, deadline },
                )
            } else {
                engine::ends(command::value_outcome(flag_value("waited"@, true), elapsed_ms))
            }
        },
        _ => engine::ends(command::value_outcome(flag_value("waited"@, true), elapsed_ms)),
    }
}

pub(crate) fn wait_on(asked: &BrowserCommand, part: Part, deadline: u64, elapsed_ms: u64) -> (turn: Turn)
    ensures
        turn@ == waits(*asked, part, deadline, elapsed_ms),
{
    if let BrowserCommand::WaitFor { selector, text, text_gone, .. } = asked {
        if part == Part::Selector {
            if let Some(selector) = selector {
                return run(
                    selector_js(selector.as_str()),
                    Stage::Waiting { part: Part::Selector, deadline },
                );
            }
        }
        if part == Part::Selector || part == Part::Shown {
            if let Some(text) = text {
                return run(
                    wait_text_js(text.as_str(), true),
                    Stage::Waiting { part: Part::Shown, deadline },
                );
            }
        }
        if part != Part::Nothing {
            if let Some(text) = text_gone {
                return run(
                    wait_text_js(text.as_str(), true),
                    Stage::Waiting { part: Part::Gone, deadline },
                );
            }
        }
    }
    end(CommandOutcome::ok_value(object_of("waited", Json::Bool(true)), elapsed_ms))
}

/// The outcome of a command with nothing to show but what is put in.
pub open spec fn plain(elapsed_ms: u64) -> OutcomeView {
    command::value_outcome(JsonView::Null, elapsed_ms)
}

/// What a command asks of its tab first.
pub open spec fn first_step(
    asked: BrowserCommand,
    on: Seq<char>,
    known: Known,
    now_ms: u64,
    elapsed_ms: u64,
) -> TurnView {
    match asked {
        BrowserCommand::Navigate { url, .. } => if engine::is_allowed(url@) {
            engine::makes(
                "Page.navigate"@,
                JsonView::Object(map!["url"@ => JsonView::Text(url@)]),
                StageView::Navigating,
            )
        } else {
            engine::ends(
                command::failure(
                    "navigation_blocked"@,
                    "Blocked URL: "@ + url@ + "(仅允许 http/https)"@,
                    elapsed_ms,
                ),
            )
        },
        BrowserCommand::Back { .. } => engine::makes(
            "Page.navigateBack"@,
            JsonView::Object(Map::empty()),
            StageView::Back,
        ),
        BrowserCommand::Forward { .. } => engine::makes(
            "Page.navigateForward"@,
            JsonView::Object(Map::empty()),
            StageView::Moving,
        ),
        BrowserCommand::Reload { .. } => engine::makes(
            "Page.reload"@,
            flag_value("ignoreCache"@, false),
            StageView::Moving,
        ),
        BrowserCommand::GetState { .. } => engine::reads(),
        BrowserCommand::Snapshot { max_elements, include_hidden, .. } => engine::runs(
            scripts::snapshot_script(
                snapshot_size(max_elements),
                SNAPSHOT_DOM_MAX,
                include_hidden == Some(true),
            ),
            StageView::Snapshotting,
        ),
        BrowserCommand::Screenshot { full_page, clip, .. } => engine::makes(
            "Page.captureScreenshot"@,
            picture_params(full_page, clip),
            StageView::Shooting,
        ),
        BrowserCommand::Select { reference, values, .. } => engine::runs(
            scripts::select_script(reference@, text::views(values@)),
            StageView::Choosing,
        ),
        BrowserCommand::Check { reference, checked, .. } => engine::runs(
            scripts::check_script(reference@, checked),
            StageView::Checking,
        ),
        BrowserCommand::ElementInfo { x, y, .. } => engine::runs(
            scripts::element_script(x.shown@, y.shown@),
            StageView::Probing,
        ),
        BrowserCommand::Evaluate { expression, .. } => engine::runs(
            scripts::evaluate_script(expression@),
            StageView::Evaluating,
        ),
        BrowserCommand::WaitFor { timeout_ms, .. } => waits(
            asked,
            Part::Selector,
            engine::after(now_ms, engine::wait_budget(timeout_ms)),
            elapsed_ms,
        ),
        BrowserCommand::GetDialog { .. } => TurnView::End {
            outcome: OutcomeView {
                dialog: if known.dialogs@.contains_key(on) {
                    Some(known.dialogs@[on]@)
                } else {
                    None
                },
                ..plain(elapsed_ms)
            },
            effect: EffectView::DialogGone { told: false },
        },
        BrowserCommand::HandleDialog { accept, prompt_text, .. } => engine::makes(
            "Page.handleJavaScriptDialog"@,
            dialog_params(accept, text::opt_view(prompt_text)),
            StageView::Dialog,
        ),
        BrowserCommand::NewTab { url } => TurnView::Ask {
            ask: AskView::Open { url: text::opt_view(url) },
            stage: StageView::Opening,
        },
        BrowserCommand::List => engine::ends(
            command::value_outcome(listing(known.registry@), elapsed_ms),
        ),
        BrowserCommand::Close { .. } => TurnView::Ask {
            ask: AskView::Shut,
            stage: StageView::Shutting,
        },
        BrowserCommand::Activate { tab_id } => if tabs::knows(known.registry@, tab_id@) {
            engine::makes(
                "Page.bringToFront"@,
                JsonView::Object(Map::empty()),
                StageView::Fronting,
            )
        } else {
            engine::ends(
                command::value_outcome(flag_value("activated"@, true), elapsed_ms),
            )
        },
        BrowserCommand::ViewportSet { width, height, .. } => engine::makes(
            "Emulation.setDeviceMetricsOverride"@,
            size_params(width, height),
            StageView::Sizing,
        ),
        BrowserCommand::ViewportReset { .. } => engine::makes(
            "Emulation.clearDeviceMetricsOverride"@,
            JsonView::Object(Map::empty()),
            StageView::Unsizing,
        ),
        BrowserCommand::NetworkList { url_filter, max, .. } => engine::ends(
            command::value_outcome(
                requests_value(known.network.of_tab(on), text::opt_view(url_filter), max),
                elapsed_ms,
            ),
        ),
        BrowserCommand::NetworkGetBody { request_id, body_kind, .. } => {
            match kept_request(known.network.of_tab(on), request_id@) {
                None => engine::ends(
                    command::failure(
                        "not_found"@,
                        "requestId "@ + request_id@
                            + " 不在网络缓冲里(可能已被环形淘汰;重新 networkList)"@,
                        elapsed_ms,
                    ),
                ),
                Some(entry) => if text::opt_view(body_kind) == Some("request"@) {
                    engine::ends(sent_body(request_id@, entry, elapsed_ms))
                } else {
                    engine::makes(
                        "Network.getResponseBody"@,
                        JsonView::Object(map!["requestId"@ => JsonView::Text(request_id@)]),
                        StageView::Body {
                            mime: json::text_or(entry, "mimeType"@, Seq::empty()),
                        },
                    )
                },
            }
        },
        BrowserCommand::StartScreencast { .. } => engine::makes(
            "Page.startScreencast"@,
            stream_params(),
            StageView::Streaming,
        ),
        BrowserCommand::StopScreencast { .. } => engine::makes(
            "Page.stopScreencast"@,
            JsonView::Object(Map::empty()),
            StageView::Streaming,
        ),
        _ => match acting::starts(asked) {
            Some(turn) => turn,
            None => engine::reads(),
        },
    }
}

/// What is kept of a request.
pub open spec fn kept_request(requests: Seq<network::RequestView>, id: Seq<char>) -> Option<JsonView> {
    match network::request_at(requests, id, 0) {
        Some(at) => Some(requests[at].1),
        None => None,
    }
}

/// Whether what a command shows of what it sent can be cut.
pub open spec fn sent_fits(asked: BrowserCommand, on: Seq<char>, known: Known) -> bool {
    asked matches BrowserCommand::NetworkGetBody { request_id, body_kind, .. } ==> (text::opt_view(
        body_kind,
    ) == Some("request"@) ==> (kept_request(known.network.of_tab(on), request_id@) matches Some(
        entry,
    ) ==> can_cut(json::text_or(entry, "postData"@, Seq::empty()))))
}

fn body_step(
    request_id: &str,
    wants_sent: bool,
    entry: Option<Json>,
    elapsed_ms: u64,
) -> (turn: Turn)
    requires
        wants_sent ==> (entry matches Some(entry) ==> can_cut(
            json::text_or(entry@, "postData"@, Seq::empty()),
        )),
    ensures
        turn@ == (match entry {
            None => engine::ends(
                command::failure(
                    "not_found"@,
                    "requestId "@ + request_id@
                        + " 不在网络缓冲里(可能已被环形淘汰;重新 networkList)"@,
                    elapsed_ms,
                ),
            ),
            Some(entry) => if wants_sent {
                engine::ends(sent_body(request_id@, entry@, elapsed_ms))
            } else {
                engine::makes(
                    "Network.getResponseBody"@,
                    JsonView::Object(map!["requestId"@ => JsonView::Text(request_id@)]),
                    StageView::Body { mime: json::text_or(entry@, "mimeType"@, Seq::empty()) },
                )
            },
        }),
{
    match entry {
        None => {
            let why = cat3(
                "requestId ",
                request_id,
                " 不在网络缓冲里(可能已被环形淘汰;重新 networkList)",
            );
            end(CommandOutcome::err("not_found", why.as_str(), elapsed_ms))
        },
        Some(entry) => if wants_sent {
            end(tell_sent(request_id, &entry, elapsed_ms))
        } else {
            let mime = member_text(&entry, "mimeType");
            make(
                "Network.getResponseBody",
                object_of("requestId", Json::text(request_id)),
                Stage::Body { mime },
            )
        },
    }
}

fn first(asked: &BrowserCommand, on: &str, known: &Known, now_ms: u64, elapsed_ms: u64) -> (turn: Turn)
    requires
        sent_fits(*asked, on@, *known),
    ensures
        turn@ == first_step(*asked, on@, *known, now_ms, elapsed_ms),
{
    match asked {
        BrowserCommand::Navigate { url, .. } => if is_allowed_url(url.as_str()) {
            make("Page.navigate", object_of("url", Json::Text(url.clone())), Stage::Navigating)
        } else {
            let why = cat3("Blocked URL: ", url.as_str(), "(仅允许 http/https)");
            end(CommandOutcome::err("navigation_blocked", why.as_str(), elapsed_ms))
        },
        BrowserCommand::Back { .. } => make("Page.navigateBack", object(), Stage::Back),
        BrowserCommand::Forward { .. } => make("Page.navigateForward", object(), Stage::Moving),
        BrowserCommand::Reload { .. } => make(
            "Page.reload",
            object_of("ignoreCache", Json::Bool(false)),
            Stage::Moving,
        ),
        BrowserCommand::GetState { .. } => read(),
        BrowserCommand::Snapshot { max_elements, include_hidden, .. } => {
            let hidden = match include_hidden {
                Some(hidden) => *hidden,
                None => false,
            };
            run(
                snapshot_js(bounded_size(*max_elements), SNAPSHOT_DOM_MAX, hidden),
                Stage::Snapshotting,
            )
        },
        BrowserCommand::Screenshot { full_page, clip, .. } => make(
            "Page.captureScreenshot",
            ask_picture(*full_page, clip),
            Stage::Shooting,
        ),
        BrowserCommand::Select { reference, values, .. } => run(
            select_js(reference.as_str(), values),
            Stage::Choosing,
        ),
        BrowserCommand::Check { reference, checked, .. } => run(
            check_js(reference.as_str(), *checked),
            Stage::Checking,
        ),
        BrowserCommand::ElementInfo { x, y, .. } => run(element_info_js(x, y), Stage::Probing),
        BrowserCommand::Evaluate { expression, .. } => run(
            evaluate_js(expression.as_str()),
            Stage::Evaluating,
        ),
        BrowserCommand::WaitFor { timeout_ms, .. } => wait_on(
            asked,
            Part::Selector,
            later(now_ms, wait_time(*timeout_ms)),
            elapsed_ms,
        ),
        BrowserCommand::GetDialog { .. } => {
            let mut outcome = CommandOutcome::ok_value(Json::Null, elapsed_ms);
            outcome.dialog = match known.dialogs.get(on) {
                Some(dialog) => Some(dialog.clone()),
                None => None,
            };
            Turn::End { outcome, effect: Effect::DialogGone { told: false } }
        },
        BrowserCommand::HandleDialog { accept, prompt_text, .. } => {
            let mut params = object_of("accept", Json::Bool(*accept));
            if let Some(prompt_text) = prompt_text {
                params.insert("promptText", Json::Text(prompt_text.clone()));
            }
            make("Page.handleJavaScriptDialog", params, Stage::Dialog)
        },
        BrowserCommand::NewTab { url } => {
            let url = match url {
                Some(url) => Some(url.clone()),
                None => None,
            };
            Turn::Ask { ask: Ask::Open { url }, stage: Stage::Opening }
        },
        BrowserCommand::List => end(
            CommandOutcome::ok_value(list_tabs(known.registry), elapsed_ms),
        ),
        BrowserCommand::Close { .. } => Turn::Ask { ask: Ask::Shut, stage: Stage::Shutting },
        BrowserCommand::Activate { tab_id } => if known.registry.has_tab(tab_id.as_str()) {
            make("Page.bringToFront", object(), Stage::Fronting)
        } else {
            end(CommandOutcome::ok_value(object_of("activated", Json::Bool(true)), elapsed_ms))
        },
        BrowserCommand::ViewportSet { width, height, .. } => {
            let mut params = tell_size(*width, *height);
            params.insert("deviceScaleFactor", Json::Number(JsonNumber::Unsigned(0)));
            params.insert("mobile", Json::Bool(false));
            make("Emulation.setDeviceMetricsOverride", params, Stage::Sizing)
        },
        BrowserCommand::ViewportReset { .. } => make(
            "Emulation.clearDeviceMetricsOverride",
            object(),
            Stage::Unsizing,
        ),
        BrowserCommand::NetworkList { url_filter, max, .. } => end(
            CommandOutcome::ok_value(
                list_requests(known.network, on, url_filter, *max),
                elapsed_ms,
            ),
        ),
        BrowserCommand::NetworkGetBody { request_id, body_kind, .. } => {
            let wants_sent = match body_kind {
                Some(kind) => str_eq(kind.as_str(), "request"),
                None => false,
            };
            let entry = known.network.entry(on, request_id.as_str());
            body_step(request_id.as_str(), wants_sent, entry, elapsed_ms)
        },
        BrowserCommand::StartScreencast { .. } => make(
            "Page.startScreencast",
            ask_stream(),
            Stage::Streaming,
        ),
        BrowserCommand::StopScreencast { .. } => make(
            "Page.stopScreencast",
            object(),
            Stage::Streaming,
        ),
        _ => match start(asked) {
            Some(turn) => turn,
            None => read(),
        },
    }
}

/// The tab that a command works on: those that open or list tabs work on none.
pub open spec fn works_on(asked: BrowserCommand, registry: RegistryView) -> Result<Seq<char>, Seq<char>> {
    match asked {
        BrowserCommand::NewTab { .. } => Ok(Seq::empty()),
        BrowserCommand::List => Ok(Seq::empty()),
        BrowserCommand::Activate { tab_id } => Ok(tab_id@),
        _ => tabs::resolved(registry, command::named_tab(asked)),
    }
}

/// The tab that comes to the front before a command asks anything, if one does.
pub open spec fn fronted(asked: BrowserCommand, registry: RegistryView) -> Option<Seq<char>> {
    match asked {
        BrowserCommand::Activate { tab_id } => if tabs::knows(registry, tab_id@) {
            Some(tab_id@)
        } else {
            None
        },
        _ => None,
    }
}

/// What a command begins with, on its tab.
pub struct Begun {
    pub tab: String,
    /// The tab that comes to the front at once, whatever its page replies.
    pub front: Option<String>,
    pub turn: Turn,
}

fn bring_forward(asked: &BrowserCommand, registry: &TabRegistry) -> (tab: Option<String>)
    ensures
        text::opt_view(tab) == fronted(*asked, registry@),
{
    match asked {
        BrowserCommand::Activate { tab_id } => if registry.has_tab(tab_id.as_str()) {
            Some(tab_id.clone())
        } else {
            None
        },
        _ => None,
    }
}

fn choose_tab(asked: &BrowserCommand, registry: &TabRegistry) -> (tab: Result<String, String>)
    ensures
        match tab {
            Ok(tab) => works_on(*asked, registry@) == Ok::<Seq<char>, Seq<char>>(tab@),
            Err(why) => works_on(*asked, registry@) == Err::<Seq<char>, Seq<char>>(why@),
        },
{
    match asked {
        BrowserCommand::NewTab { .. } => {
            let none = String::new();
            assert(none@ =~= Seq::empty());
            Ok(none)
        },
        BrowserCommand::List => {
            let none = String::new();
            assert(none@ =~= Seq::empty());
            Ok(none)
        },
        BrowserCommand::Activate { tab_id } => Ok(tab_id.clone()),
        _ => registry.resolve(asked.tab_id_probe()),
    }
}

/// What a command asks first.
pub fn begin(asked: &BrowserCommand, known: &Known, now_ms: u64, elapsed_ms: u64) -> (begun: Begun)
    requires
        works_on(*asked, known.registry@) matches Ok(on) ==> sent_fits(*asked, on, *known),
    ensures
        text::opt_view(begun.front) == fronted(*asked, known.registry@),
        match works_on(*asked, known.registry@) {
            Ok(on) => begun.tab@ == on && begun.turn@ == first_step(
                *asked,
                on,
                *known,
                now_ms,
                elapsed_ms,
            ),
            Err(why) => begun.tab@.len() == 0 && begun.turn@ == engine::ends(
                command::failure("tab_not_found"@, why, elapsed_ms),
            ),
        },
{
    match choose_tab(asked, known.registry) {
        Ok(tab) => {
            let turn = first(asked, tab.as_str(), known, now_ms, elapsed_ms);
            Begun { tab, front: bring_forward(asked, known.registry), turn }
        },
        Err(why) => Begun {
            tab: String::new(),
            front: bring_forward(asked, known.registry),
            turn: end(CommandOutcome::err("tab_not_found", why.as_str(), elapsed_ms)),
        },
    }
}

} // verus!
