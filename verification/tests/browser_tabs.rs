use denia::browser::answer::{conclude, describe_failure, finish, frame_event, interrupt, not_running};
use denia::browser::bytes::{cut_text, fits_the_cut};
use denia::browser::command::{BrowserCommand, CommandOutcome, Measure};
use denia::browser::manager::{blank_failure, needs_blank, open_blank, restore_pages, BrowserManager};
use denia::browser::network::NetworkLog;
use denia::browser::page::{plan, BrowserEvent, Desk, FrameViewport, PageReply, PageWork, Plan};
use denia::browser::tabs::TabRegistry;
use denia::browser::target::{
    code_for, error_code, is_text_body, limit_elements, looks_like_missing_browser, parse_button, Button,
};
use denia::browser::traffic::{find_header, on_close, on_dialog, on_load, RequestFacts, Traffic};
use denia::json::{object, object_of, parse, Json, JsonNumber};
use denia::map::TextMap;

fn measure(n: u64) -> Measure {
    Measure { shown: n.to_string(), value: JsonNumber::Unsigned(n) }
}

fn one_tab() -> TabRegistry {
    let mut registry = TabRegistry::default();
    let id = registry.register("https://a.example".into(), "A".into(), 1);
    registry.set_active(&id);
    registry
}

fn planned(command: &BrowserCommand, registry: &TabRegistry) -> Result<Plan, String> {
    let desk = Desk {
        registry,
        dialogs: &TextMap::new(),
        network: &NetworkLog::default(),
        bodies: &TextMap::new(),
        viewport: (1440, 900),
    };
    plan(command, &desk)
}

#[test]
fn tabs_get_ids_that_never_come_back() {
    let mut registry = TabRegistry::default();
    assert_eq!(registry.register("u1".into(), "".into(), 1), "t1");
    assert_eq!(registry.register("u2".into(), "".into(), 1), "t2");
    registry.unregister("t2");
    assert_eq!(registry.register("u3".into(), "".into(), 1), "t3");
    assert!(registry.has_tab("t1"));
    assert!(!registry.has_tab("t2"));
    assert_eq!(registry.len(), 2);
}

#[test]
fn command_works_on_the_tab_that_it_names_or_the_one_in_front() {
    let mut registry = one_tab();
    let _ = registry.register("u2".into(), "".into(), 1);
    assert_eq!(registry.resolve(None), Ok("t1".to_string()));
    assert_eq!(registry.resolve(Some("t2")), Ok("t2".to_string()));
    assert!(registry.resolve(Some("t9")).unwrap_err().contains("t9"));
    assert!(TabRegistry::default().resolve(None).is_err());
    registry.unregister("t1");
    assert_eq!(registry.active_tab().as_deref(), Some("t2"));
}

#[test]
fn pictures_come_from_one_tab() {
    let mut registry = one_tab();
    registry.set_screencast(Some("t1".into()));
    assert!(registry.is_screencast("t1"));
    assert!(!registry.is_screencast("t2"));
    assert_eq!(registry.screencast_tab().as_deref(), Some("t1"));
}

#[test]
fn tabs_are_listed_with_the_one_in_front() {
    let registry = one_tab();
    let list = registry.tab_list();
    let items = list.as_array().unwrap();
    assert_eq!(items.len(), 1);
    assert_eq!(items[0].get_bool("active"), Some(true));
    assert_eq!(items[0].get_str("url"), Some("https://a.example"));
    assert_eq!(registry.tabs()[0].title, "A");
}

#[test]
fn navigation_is_planned_on_its_tab() {
    let registry = one_tab();
    let command = BrowserCommand::Navigate { url: "https://b.example".into(), tab_id: None };
    match planned(&command, &registry) {
        Ok(Plan::Work(PageWork::Goto { tab, url })) => {
            assert_eq!(tab, "t1");
            assert_eq!(url, "https://b.example");
        }
        _ => panic!("the page is to go somewhere"),
    }
}

#[test]
fn click_without_a_place_is_refused() {
    let registry = one_tab();
    let command = BrowserCommand::Click {
        tab_id: None,
        reference: None,
        locator: None,
        x: None,
        y: None,
        button: None,
        double_click: None,
    };
    assert!(planned(&command, &registry).is_err());
    let command = BrowserCommand::Click {
        tab_id: None,
        reference: Some("e6".into()),
        locator: None,
        x: None,
        y: None,
        button: Some("right".into()),
        double_click: Some(true),
    };
    match planned(&command, &registry) {
        Ok(Plan::Work(PageWork::ClickElement { target, button, count, .. })) => {
            assert_eq!(target, "aria-ref=e6");
            assert_eq!(button, Button::Right);
            assert_eq!(count, 2);
        }
        _ => panic!("the element is to be clicked"),
    }
}

#[test]
fn unknown_tab_is_refused() {
    let command = BrowserCommand::Reload { tab_id: Some("t9".into()) };
    assert!(planned(&command, &one_tab()).err().unwrap().contains("t9"));
}

#[test]
fn tabs_are_listed_without_a_page() {
    match planned(&BrowserCommand::List, &one_tab()) {
        Ok(Plan::Answer(outcome)) => {
            assert!(outcome.ok);
            assert_eq!(outcome.value.unwrap().get("tabs").unwrap().as_array().unwrap().len(), 1);
        }
        _ => panic!("no page is needed"),
    }
}

#[test]
fn opened_tab_comes_to_the_front() {
    let mut registry = one_tab();
    let work = PageWork::Open { url: "https://c.example".into() };
    let reply = PageReply::Moved { status: None, url: "https://c.example".into(), title: "C".into() };
    let finished = finish(&work, &reply, &mut registry, 5);
    let outcome = finished.outcome.unwrap();
    assert_eq!(outcome.value.unwrap().get_str("tabId"), Some("t2"));
    assert_eq!(registry.active_tab().as_deref(), Some("t2"));
    assert_eq!(finished.event, Some(BrowserEvent::TabsChanged));
}

#[test]
fn failure_is_told_and_changes_no_tab() {
    let mut registry = one_tab();
    let work = PageWork::Goto { tab: "t1".into(), url: "https://x.example".into() };
    let finished = finish(&work, &PageReply::Failed("Timeout 30000ms".into()), &mut registry, 5);
    let why = finished.outcome.unwrap_err();
    assert_eq!(why, describe_failure(&work, "Timeout 30000ms"));
    assert_eq!(registry.len(), 1);
    let outcome = conclude(Err(why), 7);
    assert_eq!(outcome.error.unwrap().code, "timeout");
    assert_eq!(outcome.elapsed_ms, 7);
}

#[test]
fn picture_is_told_in_base64() {
    let mut registry = one_tab();
    let work = PageWork::Picture { tab: "t1".into(), full_page: false, clip: None };
    let finished = finish(&work, &PageReply::Picture(vec![77, 97, 110, 33]), &mut registry, 5);
    assert_eq!(finished.outcome.unwrap().image.unwrap().base64, "TWFuIQ==");
    let viewport = FrameViewport { width: 10, height: 20 };
    assert_eq!(
        frame_event("t1", &vec![0, 16, 131], Some(viewport)),
        BrowserEvent::Frame { tab_id: "t1".into(), data: "ABCD".into(), viewport: Some(viewport) }
    );
}

#[test]
fn body_that_is_no_text_is_encoded() {
    let mut registry = one_tab();
    let work = PageWork::ReadBody { request_id: "t1-r0".into() };
    let text = PageReply::Body { content_type: "Text/HTML; charset=utf-8".into(), bytes: vec![104, 105] };
    let told = finish(&work, &text, &mut registry, 5).outcome.unwrap().value.unwrap();
    assert_eq!(told.get_str("body"), Some("hi"));
    let broken = PageReply::Body { content_type: "text/plain".into(), bytes: vec![104, 255] };
    let told = finish(&work, &broken, &mut registry, 5).outcome.unwrap().value.unwrap();
    assert_eq!(told.get_str("body"), Some("h\u{fffd}"));
    let binary = PageReply::Body { content_type: "image/png".into(), bytes: vec![255] };
    let told = finish(&work, &binary, &mut registry, 5).outcome.unwrap().value.unwrap();
    assert_eq!(told.get_str("body"), Some("/w=="));
}

#[test]
fn dialog_interrupts_a_command() {
    let outcome = interrupt(Some(("t1".into(), "alert".into(), "hi".into())), 3);
    let dialog = outcome.value.unwrap();
    assert_eq!(dialog.get("dialogOpened").unwrap().get_str("type"), Some("alert"));
    assert!(!interrupt(None, 3).ok);
    assert_eq!(not_running("no browser", 1).error.unwrap().code, "not_running");
}

#[test]
fn failures_are_told_apart() {
    assert_eq!(error_code("Timeout 30000ms exceeded"), "timeout");
    assert_eq!(error_code("操作超时"), "timeout");
    assert_eq!(error_code("Target CLOSED"), "target_closed");
    assert_eq!(error_code("does not exist"), "not_found");
    assert_eq!(error_code("boom"), "command_failed");
    assert_eq!(code_for("timeout", "TIMEOUT"), "timeout");
    assert!(looks_like_missing_browser("Executable doesn't exist at /x"));
    assert!(!looks_like_missing_browser("boom"));
}

#[test]
fn small_things_are_read() {
    assert_eq!(parse_button(None), Button::Left);
    assert_eq!(parse_button(Some("middle")), Button::Middle);
    assert!(is_text_body("application/JSON", false));
    assert!(!is_text_body("image/png", true));
    let (kept, cut) = limit_elements("- a [ref=e1]\n- b [ref=e2]".to_string(), Some(1));
    assert!(cut);
    assert!(kept.contains("e1"));
    assert!(!kept.contains("e2"));
}

#[test]
fn restored_pages_become_tabs() {
    let pages = vec![
        ("about:blank".to_string(), "".to_string()),
        ("https://a.example".to_string(), "A".to_string()),
        ("".to_string(), "".to_string()),
        ("https://b.example".to_string(), "B".to_string()),
    ];
    let restored = restore_pages(&pages, 9);
    assert_eq!(
        restored.ids,
        vec![None, Some("t1".to_string()), None, Some("t2".to_string())]
    );
    assert_eq!(restored.tabs.active_tab().as_deref(), Some("t1"));
    assert!(!needs_blank(&restored.tabs));
    let mut empty = restore_pages(&Vec::new(), 9).tabs;
    assert!(needs_blank(&empty));
    assert_eq!(open_blank(&mut empty, 9), "t1");
    assert_eq!(empty.active_tab().as_deref(), Some("t1"));
    assert!(blank_failure("x").ends_with("x"));
}

#[test]
fn only_its_own_end_ends_a_browser() {
    let mut manager = BrowserManager::new("/home/u");
    assert_eq!(manager.home(), "/home/u");
    assert!(!manager.is_running());
    assert_eq!(manager.snapshot_state().get_bool("running"), Some(false));
    let first = manager.next_generation();
    let second = manager.next_generation();
    assert_ne!(first, second);
    assert_eq!(manager.started(second, one_tab()), BrowserEvent::TabsChanged);
    assert_eq!(manager.ended(first), None);
    assert!(manager.is_running());
    assert_eq!(manager.ended(second), Some(BrowserEvent::Exited));
    assert!(!manager.is_running());
    assert_eq!(manager.request_visual_mode(), BrowserEvent::VisualModeRequested);
}

#[test]
fn state_tells_the_dialogs() {
    let mut manager = BrowserManager::new("/home/u");
    let _ = manager.started(1, one_tab());
    let event = on_dialog(&mut manager.dialogs, "t1", "confirm", "sure?");
    assert_eq!(
        event,
        BrowserEvent::DialogOpened {
            tab_id: "t1".into(),
            kind: "confirm".into(),
            message: "sure?".into()
        }
    );
    let state = manager.snapshot_state();
    assert_eq!(state.get_bool("running"), Some(true));
    assert_eq!(state.get_str("activeTabId"), Some("t1"));
    let dialogs = state.get("dialogs").unwrap().as_array().unwrap();
    assert_eq!(dialogs[0].get("dialog").unwrap().get_str("message"), Some("sure?"));
    assert!(manager.peek_dialog("t1").is_some());
    assert!(manager.take_dialog("t1").is_some());
    assert!(manager.take_dialog("t1").is_none());
    let _ = on_dialog(&mut manager.dialogs, "t1", "alert", "x");
    manager.clear_dialog("t1");
    assert_eq!(manager.peek_dialog("t1"), None);
    assert_eq!(
        on_close(&mut manager.dialogs, "t1"),
        BrowserEvent::DialogClosed { tab_id: "t1".into() }
    );
    assert!(matches!(on_load("t1"), BrowserEvent::Navigated { .. }));
}

fn facts(url: &str) -> RequestFacts {
    RequestFacts {
        url: url.into(),
        method: "GET".into(),
        resource_type: "document".into(),
        post_data: None,
        headers: object(),
        at_ms: 5,
    }
}

#[test]
fn answer_is_joined_to_its_request() {
    let mut manager = BrowserManager::new("/home/u");
    let id = manager.traffic.on_request("t1", facts("https://a.example"), &mut manager.network);
    assert_eq!(id, "t1-r0");
    let headers = vec![("Content-Type".to_string(), "text/html".to_string())];
    let arrived = manager
        .traffic
        .on_response("t1", "https://a.example", 200, &headers, &mut manager.network)
        .expect("the request is known");
    assert_eq!(arrived.request_id, "t1-r0");
    assert!(!arrived.gave_up_others);
    let entry = manager.network_entry("t1", "t1-r0").unwrap();
    assert_eq!(entry.get("status").unwrap().as_u64(), Some(200));
    assert_eq!(entry.get_str("contentType"), Some("text/html"));
    assert_eq!(entry.get_str("method"), Some("GET"));
    assert_eq!(manager.traffic.bodies().get("t1-r0").map(|s| s.as_str()), Some("text/html"));
    assert!(manager
        .traffic
        .on_response("t1", "https://other.example", 200, &headers, &mut manager.network)
        .is_none());
    assert_eq!(manager.network_list("t1", Some("a.example"), 10).len(), 1);
    assert_eq!(manager.network_list("t1", Some("b.example"), 10).len(), 0);
    manager.network_clear("t1");
    assert_eq!(manager.network_list("t1", None, 10).len(), 0);
}

#[test]
fn bodies_are_given_up_when_they_are_too_many() {
    let mut traffic = Traffic::default();
    let mut log = NetworkLog::default();
    let mut gave_up = false;
    for i in 0..402 {
        let url = format!("https://a.example/{i}");
        let _ = traffic.on_request("t1", facts(&url), &mut log);
        gave_up = traffic.on_response("t1", &url, 200, &Vec::new(), &mut log).unwrap().gave_up_others;
    }
    assert!(gave_up);
    assert_eq!(traffic.bodies().len(), 1);
    assert_eq!(log.list("t1", None, 1000).len(), 200);
}

#[test]
fn header_is_found_whatever_its_case() {
    let headers = vec![
        ("X".to_string(), "1".to_string()),
        ("CONTENT-type".to_string(), "a/b".to_string()),
        ("content-type".to_string(), "c/d".to_string()),
    ];
    assert_eq!(find_header(&headers, "content-type"), "a/b");
    assert_eq!(find_header(&headers, "absent"), "");
}

#[test]
fn text_is_cut_between_characters_only() {
    assert_eq!(cut_text("héllo", 10), ("héllo".to_string(), false));
    assert!(!fits_the_cut("héllo", 2));
    assert!(fits_the_cut("héllo", 3));
    assert_eq!(cut_text("héllo", 3), ("hé".to_string(), true));
}

#[test]
fn outcomes_are_made() {
    let done = CommandOutcome::ok_value(object_of("a", Json::Bool(true)), 4);
    assert!(done.ok);
    assert_eq!(done.elapsed_ms, 4);
    let failed = CommandOutcome::err("code", "why", 5);
    assert!(!failed.ok);
    assert_eq!(failed.error.unwrap().message, "why");
    assert!(CommandOutcome::ok_dialog(Json::Null, 1).dialog.is_some());
}

#[test]
fn map_keeps_one_value_for_a_key() {
    let mut map: TextMap<u32> = TextMap::new();
    map.insert("a", 1);
    map.insert("b", 2);
    map.insert("a", 3);
    assert_eq!(map.len(), 2);
    assert_eq!(map.get("a"), Some(&3));
    assert_eq!(map.remove("a"), Some(3));
    assert_eq!(map.get("a"), None);
    assert_eq!(map.entries().len(), 1);
}

#[test]
fn numbers_are_handed_through() {
    assert_eq!(measure(5).json(), parse("5").unwrap());
    let float = Measure { shown: "1.5".into(), value: JsonNumber::Float("1.5".into()) };
    assert_eq!(float.json().to_text(), "1.5");
}
