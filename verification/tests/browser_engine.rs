use denia::browser::calls::{key_code, Spot};
use denia::browser::cdp::{connect_failure, CdpHandle, Heard};
use denia::browser::command::{BrowserCommand, CommandOutcome, Measure, Point};
use denia::browser::engine::{
    budget_ms, is_allowed_url, parse_scheme, settles_after, starts_with_ref_prefix, timed_out, Ask, Effect,
    Reply, Stage, Turn,
};
use denia::browser::network::NetworkLog;
use denia::browser::replies::{advance, tell_evaluated};
use denia::browser::scripts::{
    evaluate_js, locate_js, paste_text_js, resolve_ref_center_js, select_js, snapshot_js, wait_text_js,
    READY_SCRIPT, STATE_SCRIPT,
};
use denia::browser::steps::{begin, Known};
use denia::browser::tabs::TabRegistry;
use denia::json::{object, object_of, parse, Json, JsonNumber};
use denia::map::TextMap;

fn json(text: &str) -> Json {
    parse(text).expect("the text is JSON")
}

fn measure(n: u64) -> Measure {
    Measure { shown: n.to_string(), value: JsonNumber::Unsigned(n) }
}

fn one_tab() -> TabRegistry {
    let mut registry = TabRegistry::default();
    let id = registry.register("https://a.example".into(), "A".into(), 1);
    registry.set_active(&id);
    registry
}

struct Run {
    command: BrowserCommand,
    tab: String,
    turn: Turn,
}

fn start_with(command: BrowserCommand, log: &NetworkLog) -> Run {
    let registry = one_tab();
    let dialogs = TextMap::new();
    let known = Known { registry: &registry, dialogs: &dialogs, network: log };
    let begun = begin(&command, &known, 1_000, 5);
    Run { command, tab: begun.tab, turn: begun.turn }
}

fn start(command: BrowserCommand) -> Run {
    start_with(command, &NetworkLog::default())
}

impl Run {
    fn script(&self) -> &str {
        match &self.turn {
            Turn::Ask { ask: Ask::Eval { script }, .. } => script,
            _ => panic!("a script is to be run"),
        }
    }

    fn call(&self) -> (&str, &Json) {
        match &self.turn {
            Turn::Ask { ask: Ask::Call(call), .. } => (&call.method, &call.params),
            _ => panic!("a call is to be made"),
        }
    }

    fn pauses(&self) -> bool {
        matches!(&self.turn, Turn::Ask { ask: Ask::Pause { .. }, .. })
    }

    fn reply_at(self, reply: Reply, now_ms: u64) -> Run {
        let Run { command, tab, turn } = self;
        let stage: Stage = match turn {
            Turn::Ask { stage, .. } => stage,
            Turn::End { .. } => panic!("it has ended"),
        };
        let turn = advance(&command, &tab, stage, reply, now_ms, 9);
        Run { command, tab, turn }
    }

    fn reply(self, text: &str) -> Run {
        self.reply_at(Reply::Value(json(text)), 1_000)
    }

    fn fail(self) -> Run {
        self.reply_at(Reply::Failed(CommandOutcome::err("cdp_error", "broken", 2)), 1_000)
    }

    fn ended(self) -> (CommandOutcome, Effect) {
        match self.turn {
            Turn::End { outcome, effect } => (outcome, effect),
            Turn::Ask { .. } => panic!("it goes on"),
        }
    }
}

fn click(reference: Option<&str>, locator: Option<&str>, at: Option<(u64, u64)>) -> BrowserCommand {
    BrowserCommand::Click {
        tab_id: None,
        reference: reference.map(str::to_string),
        locator: locator.map(str::to_string),
        x: at.map(|p| measure(p.0)),
        y: at.map(|p| measure(p.1)),
        button: None,
        double_click: None,
    }
}

#[test]
fn only_pages_of_the_web_are_gone_to() {
    assert_eq!(parse_scheme("https://x"), Some("https".to_string()));
    assert_eq!(parse_scheme("a+b-c.1:x"), Some("a+b-c.1".to_string()));
    assert_eq!(parse_scheme("1http://x"), None);
    assert_eq!(parse_scheme("no colon"), None);
    assert_eq!(parse_scheme(":x"), None);
    assert!(is_allowed_url("http://x"));
    assert!(is_allowed_url("about:blank"));
    assert!(!is_allowed_url("file:///etc/passwd"));
    assert!(!is_allowed_url("javascript:alert(1)"));
    let run = start(BrowserCommand::Navigate { url: "file:///x".into(), tab_id: None });
    let (outcome, _) = run.ended();
    assert_eq!(outcome.error.unwrap().code, "navigation_blocked");
}

#[test]
fn navigation_waits_for_the_page_and_reads_it() {
    let run = start(BrowserCommand::Navigate { url: "https://b.example".into(), tab_id: None });
    assert_eq!(run.tab, "t1");
    assert_eq!(run.call().0, "Page.navigate");
    assert_eq!(run.call().1.get_str("url"), Some("https://b.example"));
    let run = run.reply("{}");
    assert_eq!(run.script(), READY_SCRIPT);
    let run = run.reply(r#"{"state":"loading","url":""}"#);
    assert!(run.pauses());
    let run = run.reply("null");
    assert_eq!(run.script(), READY_SCRIPT);
    let run = run.reply(r#"{"state":"complete","url":"https://b.example/"}"#);
    assert_eq!(run.script(), STATE_SCRIPT);
    let run = run.reply(r#"{"url":"https://b.example/","title":"B"}"#);
    let (outcome, effect) = run.ended();
    assert!(outcome.ok);
    assert_eq!(outcome.elapsed_ms, 9);
    assert_eq!(outcome.state.unwrap().get_str("title"), Some("B"));
    assert!(matches!(effect, Effect::Landed { ref url, .. } if url == "https://b.example/"));
}

#[test]
fn page_that_does_not_load_is_read_when_its_time_is_over() {
    let run = start(BrowserCommand::Navigate { url: "https://b.example".into(), tab_id: None });
    let run = run.reply("{}").reply(r#"{"state":"loading"}"#);
    let run = run.reply_at(Reply::Value(Json::Null), 11_000);
    assert_eq!(run.script(), STATE_SCRIPT);
}

#[test]
fn click_at_a_place_moves_presses_and_releases() {
    let run = start(click(None, None, Some((3, 4))));
    assert_eq!(run.call().1.get_str("type"), Some("mouseMoved"));
    assert_eq!(run.call().1.get("x"), Some(&json("3")));
    let run = run.reply("{}");
    assert_eq!(run.call().1.get_str("type"), Some("mousePressed"));
    assert_eq!(run.call().1.get_str("button"), Some("left"));
    assert_eq!(run.call().1.get("clickCount"), Some(&json("1")));
    let run = run.reply("{}");
    assert_eq!(run.call().1.get_str("type"), Some("mouseReleased"));
    let run = run.reply("{}");
    assert_eq!(run.script(), STATE_SCRIPT);
}

#[test]
fn click_without_a_place_is_a_bad_command() {
    let (outcome, _) = start(click(None, None, None)).ended();
    assert_eq!(outcome.error.unwrap().code, "bad_arguments");
}

#[test]
fn first_failure_ends_a_click() {
    let (outcome, _) = start(click(None, None, Some((1, 1)))).reply("{}").fail().ended();
    assert_eq!(outcome.error.unwrap().message, "broken");
}

#[test]
fn element_that_has_gone_is_looked_for_again() {
    let run = start(click(Some("e7"), None, None));
    assert_eq!(run.script(), resolve_ref_center_js("e7"));
    let run = run.reply(r#"{"found":false,"reason":"stale_ref"}"#);
    assert_eq!(run.script(), snapshot_js(300, 300, false));
    let run = run.reply("{}");
    assert_eq!(run.script(), resolve_ref_center_js("e7"));
    let run = run.reply(r#"{"found":false,"reason":"hidden"}"#);
    assert!(run.pauses());
    let run = run.reply("null").reply("{}");
    let run = run.reply(r#"{"found":true,"cx":10.5,"cy":20}"#);
    assert_eq!(run.call().1.get("x"), Some(&json("10.5")));
    assert_eq!(run.call().1.get("y"), Some(&json("20.0")));
}

#[test]
fn middle_of_an_element_is_sent_in_floating_point() {
    let run = start(click(Some("e7"), None, None));
    let run = run.reply(r#"{"found":true,"cx":9007199254740993,"cy":-9007199254740993}"#);
    assert_eq!(run.call().1.get("x"), Some(&json("9007199254740992.0")));
    assert_eq!(run.call().1.get("y"), Some(&json("-9007199254740992.0")));
    let run = start(click(Some("e7"), None, None));
    let run = run.reply(r#"{"found":true,"cx":18446744073709551615,"cy":-9223372036854775808}"#);
    assert_eq!(run.call().1.get("x"), Some(&json("1.8446744073709552e19")));
    assert_eq!(run.call().1.get("y"), Some(&json("-9.223372036854775808e18")));
    let run = start(click(Some("e7"), None, None));
    let run = run.reply(r#"{"found":true,"cx":9007199254740992,"cy":-7}"#);
    assert_eq!(run.call().1.get("x"), Some(&json("9007199254740992.0")));
    assert_eq!(run.call().1.get("y"), Some(&json("-7.0")));
}

#[test]
fn element_that_stays_away_is_given_up() {
    let run = start(click(Some("e7"), None, None));
    let run = run.reply(r#"{"found":false}"#).reply("{}");
    let run = run.reply_at(Reply::Value(json(r#"{"found":false,"reason":"hidden"}"#)), 2_200);
    let (outcome, _) = run.ended();
    let error = outcome.error.unwrap();
    assert_eq!(error.code, "ref_not_found");
    assert!(error.message.contains("hidden"));
}

#[test]
fn locator_is_turned_into_a_reference() {
    let run = start(click(None, Some("text: 登录"), None));
    assert_eq!(run.script(), locate_js("text: 登录"));
    assert!(run.script().contains("\"登录\""));
    let run = run.reply(r#"{"ok":true,"ref":"l17"}"#);
    assert_eq!(run.script(), resolve_ref_center_js("l17"));
    let (outcome, _) = start(click(None, Some("#x"), None)).reply(r#"{"ok":false}"#).ended();
    assert_eq!(outcome.error.unwrap().code, "locator_not_found");
}

#[test]
fn reference_that_is_none_is_tried_as_a_locator() {
    let run = start(click(Some("#submit"), None, None));
    assert_eq!(run.script(), locate_js("#submit"));
    let run = run.reply(r#"{"ref":"l1"}"#);
    assert_eq!(run.script(), resolve_ref_center_js("l1"));
    let (outcome, _) = run.reply(r#"{"found":false}"#).ended();
    assert!(outcome.error.unwrap().message.contains("#submit"));
    assert!(starts_with_ref_prefix("p3"));
    assert!(!starts_with_ref_prefix("ex"));
    assert!(!starts_with_ref_prefix("e"));
}

#[test]
fn filling_clicks_selects_and_pastes() {
    let command =
        BrowserCommand::Fill { tab_id: None, reference: "e1".into(), value: "new \"text\"".into() };
    let run = start(command).reply(r#"{"found":true,"cx":1,"cy":2}"#);
    let run = run.reply("{}").reply("{}").reply("{}");
    assert_eq!(run.call().1.get("modifiers"), Some(&json("2")));
    let run = run.reply("{}").reply("{}");
    assert_eq!(run.script(), paste_text_js("new \"text\""));
    let run = run.reply(r#"{"ok":true}"#);
    assert_eq!(run.script(), STATE_SCRIPT);
}

#[test]
fn paste_that_fails_is_told() {
    let command = BrowserCommand::Type { tab_id: None, reference: None, text: "x".into() };
    let (outcome, _) = start(command).reply(r#"{"ok":false,"error":"no_focused_input"}"#).ended();
    assert_eq!(outcome.error.unwrap().message, "no_focused_input");
}

#[test]
fn keys_have_names_and_numbers() {
    assert_eq!(key_code("Enter"), Some(("Enter", 13)));
    assert_eq!(key_code(" "), Some(("Space", 32)));
    assert_eq!(key_code("A"), Some(("KeyA", 65)));
    assert_eq!(key_code("q"), None);
    let command = BrowserCommand::Press { tab_id: None, key: "Enter".into(), reference: None };
    let run = start(command);
    assert_eq!(run.call().0, "Input.dispatchKeyEvent");
    assert_eq!(run.call().1.get_str("type"), Some("keyDown"));
    let run = run.reply("{}");
    assert_eq!(run.call().1.get_str("type"), Some("keyUp"));
}

#[test]
fn wheel_turns_one_step_down_or_as_far_as_it_is_told() {
    let command = |delta_y: Option<Measure>| BrowserCommand::Scroll {
        tab_id: None,
        reference: None,
        x: Some(measure(1)),
        y: Some(measure(2)),
        delta_x: None,
        delta_y,
    };
    let run = start(command(None));
    assert_eq!(run.call().1.get("deltaY"), Some(&Json::Number(JsonNumber::Float("360.0".into()))));
    assert_eq!(run.call().1.get("deltaX"), Some(&Json::Number(JsonNumber::Float("0.0".into()))));
    let run = start(command(Some(measure(50))));
    assert_eq!(run.call().1.get("deltaY"), Some(&json("50")));
}

#[test]
fn drag_goes_over_the_places_between() {
    let command = BrowserCommand::Drag {
        tab_id: None,
        from_ref: None,
        to_ref: Some("e2".into()),
        from: Some(Point { x: measure(0), y: measure(0) }),
        to: None,
    };
    let run = start(command);
    assert_eq!(run.script(), resolve_ref_center_js("e2"));
    let run = run.reply(r#"{"found":true,"cx":10,"cy":20}"#);
    assert!(matches!(&run.turn, Turn::Ask { ask: Ask::Between { .. }, .. }));
    let middle = Spot { x: JsonNumber::Unsigned(5), y: JsonNumber::Unsigned(10) };
    let run = run.reply_at(Reply::Spots(vec![middle]), 1_000);
    let run = run.reply("{}").reply("{}");
    assert_eq!(run.call().1.get("x"), Some(&json("5")));
    assert_eq!(run.call().1.get("buttons"), Some(&json("1")));
    let run = run.reply("{}");
    assert_eq!(run.call().1.get_str("type"), Some("mouseReleased"));
    assert_eq!(run.call().1.get("y"), Some(&json("20.0")));
}

#[test]
fn expression_is_told_as_json_where_it_can_be() {
    let command = BrowserCommand::Evaluate { tab_id: None, expression: "1+1".into() };
    let run = start(command);
    assert_eq!(run.script(), evaluate_js("1+1"));
    let (outcome, _) = run.reply(r#"{"ok":true,"kind":"json","data":"{\"a\":[1]}"}"#).ended();
    assert_eq!(outcome.value, Some(json(r#"{"a":[1]}"#)));
    let value = json(r#"{"ok":true,"kind":"str","data":"plain words"}"#);
    let outcome = tell_evaluated(&value, None, 1);
    assert_eq!(outcome.value, Some(Json::text("plain words")));
    let outcome = tell_evaluated(&json(r#"{"ok":false,"message":"ReferenceError"}"#), None, 1);
    assert_eq!(outcome.error.unwrap().message, "ReferenceError");
}

fn wait(selector: Option<&str>, text: Option<&str>, gone: Option<&str>) -> BrowserCommand {
    BrowserCommand::WaitFor {
        tab_id: None,
        selector: selector.map(str::to_string),
        text: text.map(str::to_string),
        text_gone: gone.map(str::to_string),
        timeout_ms: Some(500),
    }
}

#[test]
fn wait_looks_at_one_thing_after_the_other() {
    let run = start(wait(Some("#a"), Some("hi"), Some("bye")));
    assert!(run.script().contains("querySelector(\"#a\")"));
    let run = run.reply(r#"{"hit":true}"#);
    assert_eq!(run.script(), wait_text_js("hi", true));
    let run = run.reply(r#"{"present":true}"#);
    assert_eq!(run.script(), wait_text_js("bye", false));
    let (outcome, _) = run.reply(r#"{"present":false}"#).ended();
    assert_eq!(outcome.value, Some(json(r#"{"waited":true}"#)));
}

#[test]
fn wait_begins_anew_after_a_pause_and_ends_in_time() {
    let run = start(wait(None, Some("hi"), None)).reply(r#"{"present":false}"#);
    assert!(run.pauses());
    let run = run.reply("null");
    assert_eq!(run.script(), wait_text_js("hi", true));
    let (outcome, _) = run.reply_at(Reply::Value(json(r#"{"present":false}"#)), 1_500).ended();
    let error = outcome.error.unwrap();
    assert_eq!(error.code, "timeout");
    assert_eq!(error.message, "等待条件超时(500ms)");
    let (outcome, _) = start(wait(None, None, None)).ended();
    assert!(outcome.ok);
}

#[test]
fn command_has_a_budget() {
    assert_eq!(budget_ms(&wait(None, None, None)), 500);
    assert_eq!(budget_ms(&BrowserCommand::List), 30_000);
    let long = BrowserCommand::WaitFor {
        tab_id: None,
        selector: None,
        text: None,
        text_gone: None,
        timeout_ms: Some(999_999),
    };
    assert_eq!(budget_ms(&long), 60_000);
    assert_eq!(timed_out(&BrowserCommand::List, 1).error.unwrap().message, "浏览器命令超时(30000ms)");
    assert!(settles_after(&click(None, None, None), true));
    assert!(!settles_after(&click(None, None, None), false));
    assert!(!settles_after(&BrowserCommand::List, true));
}

#[test]
fn snapshot_names_its_tab() {
    let command =
        BrowserCommand::Snapshot { tab_id: None, max_elements: Some(5_000), include_hidden: None };
    let run = start(command);
    assert_eq!(run.script(), snapshot_js(1000, 300, false));
    let (outcome, _) = run.reply(r#"{"elements":[]}"#).ended();
    assert_eq!(outcome.snapshot.unwrap().get_str("tabId"), Some("t1"));
}

#[test]
fn picture_without_data_is_a_failure() {
    let command = BrowserCommand::Screenshot { tab_id: None, full_page: Some(true), clip: None };
    let run = start(command);
    assert_eq!(run.call().1.get_bool("captureBeyondViewport"), Some(true));
    let (outcome, _) = run.reply(r#"{"data":""}"#).ended();
    assert!(!outcome.ok);
    let command = BrowserCommand::Screenshot { tab_id: None, full_page: None, clip: None };
    let (outcome, _) = start(command).reply(r#"{"data":"AAAA"}"#).ended();
    assert_eq!(outcome.image.unwrap().base64, "AAAA");
}

#[test]
fn dialog_is_forgotten_whether_or_not_it_was_settled() {
    let command = || BrowserCommand::HandleDialog {
        tab_id: None,
        accept: true,
        prompt_text: Some("yes".into()),
    };
    let run = start(command());
    assert_eq!(run.call().1.get_str("promptText"), Some("yes"));
    let (outcome, effect) = run.reply("{}").ended();
    assert!(outcome.ok);
    assert!(matches!(effect, Effect::DialogGone { told: true }));
    let (outcome, effect) = start(command()).fail().ended();
    assert!(!outcome.ok);
    assert!(matches!(effect, Effect::DialogGone { told: false }));
}

#[test]
fn tabs_are_opened_closed_and_brought_to_the_front() {
    let run = start(BrowserCommand::NewTab { url: None });
    let (outcome, effect) = run.reply_at(Reply::Opened("t2".into()), 1_000).ended();
    assert_eq!(outcome.value.unwrap().get_str("tabId"), Some("t2"));
    assert!(matches!(effect, Effect::Front { ref tab } if tab == "t2"));
    let run = start(BrowserCommand::NewTab { url: None });
    let (outcome, _) = run.reply_at(Reply::NotOpened("no room".into()), 1_000).ended();
    assert_eq!(outcome.error.unwrap().code, "cdp_error");
    let (outcome, _) = start(BrowserCommand::Close { tab_id: None }).reply("null").ended();
    assert_eq!(outcome.value, Some(json(r#"{"closed":true}"#)));
    let (_, effect) = start(BrowserCommand::Activate { tab_id: "t1".into() }).reply("{}").ended();
    assert!(matches!(effect, Effect::Front { .. }));
    let (_, effect) = start(BrowserCommand::Activate { tab_id: "t9".into() }).ended();
    assert!(matches!(effect, Effect::Nothing));
    let (outcome, _) = start(BrowserCommand::Reload { tab_id: Some("t9".into()) }).ended();
    assert_eq!(outcome.error.unwrap().code, "tab_not_found");
    let (outcome, _) = start(BrowserCommand::List).ended();
    assert_eq!(outcome.value.unwrap().get("tabs").unwrap().as_array().unwrap().len(), 1);
}

#[test]
fn going_back_has_a_second_way() {
    let run = start(BrowserCommand::Back { tab_id: None });
    assert_eq!(run.call().0, "Page.navigateBack");
    let run = run.fail();
    assert_eq!(run.call().0, "Page.navigateToHistoryEntry");
    let run = run.fail();
    assert_eq!(run.script(), STATE_SCRIPT);
    let (outcome, _) = run.fail().ended();
    assert!(outcome.ok);
}

#[test]
fn sizes_and_pictures_are_set() {
    let run = start(BrowserCommand::ViewportSet { tab_id: None, width: 800, height: 600 });
    assert_eq!(run.call().1.get("width"), Some(&json("800")));
    let (_, effect) = run.reply("{}").ended();
    assert!(matches!(effect, Effect::Sized { size: Some((800, 600)) }));
    let (_, effect) = start(BrowserCommand::ViewportReset { tab_id: None }).fail().ended();
    assert!(matches!(effect, Effect::Sized { size: None }));
    let (outcome, _) = start(BrowserCommand::StartScreencast { tab_id: None }).reply("{}").ended();
    assert_eq!(outcome.value, Some(json(r#"{"streaming":true}"#)));
    let (outcome, _) = start(BrowserCommand::StopScreencast { tab_id: None }).reply("{}").ended();
    assert_eq!(outcome.value, Some(json(r#"{"streaming":false}"#)));
}

fn body(kind: Option<&str>) -> BrowserCommand {
    BrowserCommand::NetworkGetBody {
        tab_id: None,
        request_id: "r1".into(),
        body_kind: kind.map(str::to_string),
    }
}

#[test]
fn bodies_are_told_and_cut() {
    let mut log = NetworkLog::default();
    let (outcome, _) = start_with(body(None), &log).ended();
    assert_eq!(outcome.error.unwrap().code, "not_found");
    log.record("t1", "r1", json(r#"{"mimeType":"text/html"}"#));
    let (outcome, _) = start_with(body(Some("request")), &log).ended();
    assert_eq!(outcome.error.unwrap().code, "no_post_data");
    let run = start_with(body(None), &log);
    assert_eq!(run.call().0, "Network.getResponseBody");
    let long = "x".repeat(60_001);
    let mut reply = object();
    reply.insert("body", Json::text(&long));
    let (outcome, _) = run.reply_at(Reply::Value(reply), 1_000).ended();
    let value = outcome.value.unwrap();
    assert_eq!(value.get_bool("truncated"), Some(true));
    assert_eq!(value.get_str("body").unwrap().len(), 60_000);
    assert_eq!(value.get_str("mimeType"), Some("text/html"));
    log.record("t1", "r1", object_of("postData", Json::text("a=1")));
    let (outcome, _) = start_with(body(Some("request")), &log).ended();
    assert_eq!(outcome.value.unwrap().get_str("body"), Some("a=1"));
    let command = BrowserCommand::NetworkList { tab_id: None, url_filter: None, max: None };
    let (outcome, _) = start_with(command, &log).ended();
    assert_eq!(outcome.value.unwrap().get("count"), Some(&json("1")));
}

#[test]
fn choices_and_boxes_are_told_apart() {
    let command = BrowserCommand::Select {
        tab_id: None,
        reference: "e1".into(),
        values: vec!["a".to_string(), "b\"".to_string()],
    };
    let run = start(command);
    assert_eq!(run.script(), select_js("e1", &vec!["a".to_string(), "b\"".to_string()]));
    assert!(run.script().contains(r#"var values=["a","b\""];"#));
    let (outcome, _) = run.reply(r#"{"ok":false,"error":"not_select"}"#).ended();
    assert_eq!(outcome.error.unwrap().message, "not_select");
    let command = BrowserCommand::Check { tab_id: None, reference: "e1".into(), checked: None };
    let run = start(command);
    assert!(run.script().contains("var want=null;"));
    assert_eq!(run.reply(r#"{"ok":true}"#).script(), STATE_SCRIPT);
}

#[test]
fn scripts_hold_what_they_are_given() {
    let script = snapshot_js(7, 8, true);
    assert!(script.starts_with("(function(){\nvar MAX=7;var DOM_MAX=8;var INCLUDE_HIDDEN=true;\n"));
    assert!(script.ends_with("})()"));
    assert!(wait_text_js("a\"b", true).contains(r#"var needle="a\"b";"#));
}

#[test]
fn answers_find_their_requests() {
    let mut link = CdpHandle::connect();
    let first = link.send("Page.enable", object());
    assert_eq!(first.id, 1);
    assert_eq!(first.text, r#"{"id":1,"method":"Page.enable","params":{}}"#);
    let second = link.send_with_session("Page.reload", object(), Some("S"));
    assert_eq!(second.text, r#"{"id":2,"method":"Page.reload","params":{},"sessionId":"S"}"#);
    match link.hear(r#"{"id":2,"result":{"ok":1}}"#) {
        Heard::Answer { id, outcome } => {
            assert_eq!(id, 2);
            assert_eq!(outcome, Ok(json(r#"{"ok":1}"#)));
        }
        _ => panic!("it is an answer"),
    }
    assert!(matches!(link.hear(r#"{"id":2,"result":{}}"#), Heard::Nothing));
    match link.hear(r#"{"method":"Page.loaded","params":{"a":1},"sessionId":"S"}"#) {
        Heard::Event(event) => {
            assert_eq!(event.method, "Page.loaded");
            assert_eq!(event.session_id.as_deref(), Some("S"));
        }
        _ => panic!("it is an event"),
    }
    assert!(matches!(link.hear("no json"), Heard::Nothing));
    match link.hear(r#"{"id":1,"error":{"message":"no"}}"#) {
        Heard::Answer { outcome, .. } => assert_eq!(outcome, Err("no".to_string())),
        _ => panic!("it is an answer"),
    }
    let third = link.send("A", object());
    assert!(!link.is_closed());
    assert_eq!(link.expire(third.id, "A"), "cdp_timeout:A");
    let fourth = link.send("B", object());
    assert_eq!(link.disconnect(), vec![fourth.id]);
    assert!(link.is_closed());
    assert_eq!(connect_failure("ws://x", "refused"), "CDP WebSocket 连接失败(ws://x): refused");
}

#[test]
fn activated_tab_comes_to_the_front_at_once() {
    let registry = one_tab();
    let dialogs = TextMap::new();
    let network = NetworkLog::default();
    let known = Known { registry: &registry, dialogs: &dialogs, network: &network };
    let front = |command: BrowserCommand| begin(&command, &known, 1_000, 5).front;
    assert_eq!(front(BrowserCommand::Activate { tab_id: "t1".into() }).as_deref(), Some("t1"));
    assert_eq!(front(BrowserCommand::Activate { tab_id: "t9".into() }), None);
    assert_eq!(front(BrowserCommand::List), None);
}

#[test]
fn command_says_which_tab_it_names() {
    let activate = BrowserCommand::Activate { tab_id: "t2".into() };
    assert_eq!(activate.tab_id_probe(), Some("t2"));
    let reload = BrowserCommand::Reload { tab_id: Some("t3".into()) };
    assert_eq!(reload.tab_id_probe(), Some("t3"));
    assert_eq!(BrowserCommand::Reload { tab_id: None }.tab_id_probe(), None);
    assert_eq!(BrowserCommand::NewTab { url: None }.tab_id_probe(), None);
    assert_eq!(BrowserCommand::List.tab_id_probe(), None);
}
