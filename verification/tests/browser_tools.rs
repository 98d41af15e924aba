use denia::browser::inspect::{
    breakpoint_set, choose_hit, debug_eval, gone_on, part_is_there, plan_breakpoint, removal_call, resume,
    source_call, source_failure, source_target, step, tell_eval, tell_source, BreakpointMove, Search,
};
use denia::browser::launch::{
    after_failure, artifacts_failure, default_profile_dir, download_failure, driver_failure,
    find_registry_value, is_fresh, launch_arguments, locate_browser_executable, look_for_port, orphan_script,
    port_file, profile_failure, read_registry_default_string, registry_key, second_failure, start_failure,
    usual_places, websocket_url, LaunchMove, LaunchSpec, Place, PortMove,
};
use denia::browser::page::BrowserEvent;
use denia::browser::recon::{not_running_error, ReconStore, SearchMatch};
use denia::browser::remote::{remote_object_text, remote_object_value, stack_location};
use denia::json::{parse, Json};

fn json(text: &str) -> Json {
    parse(text).expect("the text is JSON")
}

#[test]
fn browser_is_started_from_the_home_of_its_user() {
    let spec = LaunchSpec::new("/home/u");
    assert_eq!(spec.profile_dir, "/home/u/browser/profile");
    assert_eq!(spec.artifacts_dir, "/home/u/browser/artifacts");
    assert!(spec.headless);
    assert_eq!(spec.viewport, (1440, 900));
    assert!(spec.args.is_empty());
    assert_eq!(default_profile_dir("/home/u"), "/home/u/browser/profile");
    assert_eq!(port_file("/p"), "/p/DevToolsActivePort");
    let spec = LaunchSpec::new("/home/u/");
    assert_eq!(spec.profile_dir, "/home/u/browser/profile");
    assert_eq!(spec.artifacts_dir, "/home/u/browser/artifacts");
    assert_eq!(default_profile_dir("/"), "/browser/profile");
    assert_eq!(port_file("/p/"), "/p/DevToolsActivePort");
    let spec = LaunchSpec::new("");
    assert_eq!(spec.profile_dir, "browser/profile");
    assert_eq!(spec.artifacts_dir, "browser/artifacts");
    assert_eq!(default_profile_dir("//server/u"), "//server/u/browser/profile");
    assert_eq!(port_file(""), "DevToolsActivePort");
}

#[test]
fn missing_browser_is_fetched_once() {
    assert!(matches!(after_failure("Browser Not Installed"), LaunchMove::Download));
    assert!(matches!(after_failure("crashed"), LaunchMove::Fail(why) if why == "crashed"));
    assert_eq!(driver_failure("x"), "启动 Playwright driver 失败: x");
    assert_eq!(download_failure("x"), "下载 Playwright 浏览器失败: x");
    assert_eq!(second_failure("x"), "浏览器安装后仍无法启动: x");
    assert_eq!(profile_failure("x"), "创建浏览器 profile 目录失败: x");
    assert_eq!(artifacts_failure("x"), "创建浏览器产物目录失败: x");
    assert_eq!(start_failure("chrome", "x"), "启动浏览器失败(chrome): x");
}

#[test]
fn registry_is_read() {
    let printed = "\r\nHKEY\\App Paths\\chrome.exe\r\n    (默认)    REG_SZ    C:\\x\\chrome.exe\r\n";
    assert_eq!(find_registry_value(printed).as_deref(), Some("C:\\x\\chrome.exe"));
    assert_eq!(find_registry_value("REG_SZ   \nother"), None);
    assert_eq!(
        read_registry_default_string(&b"a REG_SZ b\xff".to_vec()).as_deref(),
        Some("b\u{fffd}")
    );
    assert!(registry_key("chrome.exe").ends_with("\\App Paths\\chrome.exe"));
}

fn place(path: &str, is_file: bool) -> Place {
    Place { path: path.into(), is_file }
}

#[test]
fn browser_is_looked_for_in_order() {
    let usual = |flags: [bool; 4]| -> Vec<Place> {
        usual_places().iter().zip(flags).map(|(path, flag)| place(path, flag)).collect()
    };
    let found = |chrome: Option<Place>, edge: Option<Place>, flags: [bool; 4]| {
        locate_browser_executable(&chrome, &edge, &usual(flags))
    };
    assert_eq!(
        found(Some(place("C", true)), Some(place("E", true)), [true; 4]).as_deref(),
        Some("C")
    );
    assert!(found(Some(place("C", false)), Some(place("E", true)), [false, false, true, true])
        .unwrap()
        .contains("(x86)\\Microsoft\\Edge"));
    assert_eq!(found(None, Some(place("E", true)), [false; 4]).as_deref(), Some("E"));
    assert_eq!(found(None, Some(place("E", false)), [false; 4]), None);
}

#[test]
fn port_is_read_from_its_file() {
    assert_eq!(
        websocket_url("9222\n/devtools/browser/abc\n").as_deref(),
        Some("ws://127.0.0.1:9222/devtools/browser/abc")
    );
    assert_eq!(websocket_url(" 9222 ").as_deref(), Some("ws://127.0.0.1:9222/devtools/browser"));
    assert_eq!(websocket_url("\n/x"), None);
    assert_eq!(websocket_url(""), None);
    assert!(is_fresh(None, Some(1)));
    assert!(is_fresh(Some(1), Some(2)));
    assert!(!is_fresh(Some(2), Some(2)));
    assert!(!is_fresh(None, None));
    assert!(matches!(look_for_port(false, Some("9\n/p"), Some("exit 1")), PortMove::Ready(_)));
    assert!(matches!(look_for_port(false, None, Some("exit 1")), PortMove::Exited(_)));
    assert!(matches!(look_for_port(false, Some("\n"), None), PortMove::Wait));
    assert!(matches!(look_for_port(true, Some("9\n/p"), None), PortMove::GiveUp(_)));
}

#[test]
fn browser_is_started_with_its_profile() {
    let words = launch_arguments("C:\\p");
    assert_eq!(words[2], "--user-data-dir=C:\\p");
    assert_eq!(words.len(), 14);
    assert!(orphan_script("C:\\p").contains("'*C:\\\\p*'"));
}

#[test]
fn values_are_read_and_used() {
    assert_eq!(remote_object_text(&json(r#"{"value":"a"}"#)), "a");
    assert_eq!(remote_object_text(&json(r#"{"value":null}"#)), "null");
    assert_eq!(remote_object_text(&json(r#"{"value":5,"description":"5"}"#)), "5");
    assert_eq!(remote_object_text(&json(r#"{"subtype":"error"}"#)), "[Error]");
    assert_eq!(
        remote_object_text(&json(
            r#"{"subtype":"map","preview":{"properties":[{"name":"a","value":"1"},{"name":"b"},{"x":1}]}}"#
        )),
        "{a: 1, b: ?}"
    );
    assert_eq!(remote_object_text(&json("{}")), "[值]");
    assert_eq!(remote_object_value(&json(r#"{"value":[1]}"#)), json("[1]"));
    assert_eq!(remote_object_value(&json(r#"{"type":"undefined"}"#)), json(r#"{"kind":"undefined"}"#));
    assert_eq!(
        remote_object_value(&json(r#"{"type":"function","description":"f"}"#)),
        json(r#"{"kind":"function","description":"f"}"#)
    );
    assert_eq!(
        remote_object_value(&json(r#"{"subtype":"node","description":"div"}"#)),
        json(r#"{"kind":"node","description":"div","preview":null}"#)
    );
    assert_eq!(
        stack_location(Some(&json(r#"{"callFrames":[{"url":"u","lineNumber":4}]}"#))),
        ("u".to_string(), 4)
    );
    assert_eq!(stack_location(None), (String::new(), 0));
}

fn with_script(store: &mut ReconStore, id: &str, url: &str, length: u64) {
    let params = json(&format!(r#"{{"scriptId":"{id}","url":"{url}","length":{length}}}"#));
    assert_eq!(store.on_event("t1", "Debugger.scriptParsed", &params, None, 1), None);
}

#[test]
fn scripts_are_kept_once_and_only_the_latest() {
    let mut store = ReconStore::new();
    with_script(&mut store, "1", "a.js", 10);
    with_script(&mut store, "1", "again.js", 10);
    assert_eq!(store.scripts("t1", None).len(), 1);
    assert_eq!(store.script_url("t1", "1"), "a.js");
    for i in 0..305 {
        with_script(&mut store, &format!("s{i}"), "b.js", 10);
    }
    let scripts = store.scripts("t1", None);
    assert_eq!(scripts.len(), 300);
    assert_eq!(scripts[299].script_id, "s304");
    assert_eq!(store.scripts("t1", Some("a.js")).len(), 0);
    assert_eq!(store.scripts("t2", None).len(), 0);
}

#[test]
fn stop_is_kept_and_told() {
    let mut store = ReconStore::new();
    with_script(&mut store, "7", "a.js", 10);
    let params = json(
        r#"{"reason":"breakpoint","hitBreakpoints":["b1",5],
            "callFrames":[{"callFrameId":"f0","functionName":"",
              "location":{"scriptId":"7","lineNumber":3,"columnNumber":2},
              "scopeChain":[{"type":"local"},{},{"type":"global"}]},
             {"callFrameId":"f1","functionName":"g","location":{"scriptId":"8"}}]}"#,
    );
    let event = store.on_event("t1", "Debugger.paused", &params, None, 42);
    assert!(matches!(
        event,
        Some(BrowserEvent::DebuggerPaused { ref tab_id, ref frames, .. })
            if tab_id == "t1" && frames.len() == 2
    ));
    let paused = store.paused_info().as_ref().unwrap();
    assert_eq!(paused.reason, "breakpoint");
    assert_eq!(paused.hit_breakpoints, vec!["b1".to_string()]);
    assert_eq!(paused.at_ms, 42);
    assert_eq!(paused.frames[0].function_name, "(匿名)");
    assert_eq!(paused.frames[0].url, "a.js");
    assert_eq!(paused.frames[0].scope_names, vec!["local".to_string(), "global".to_string()]);
    assert_eq!(paused.frames[1].url, "(未知脚本)");
    assert!(store.is_paused(Some("t1")));
    assert!(!store.is_paused(Some("t2")));
    assert!(store.is_paused(None));
    let asked = debug_eval(&store, "t1", 1, "x").unwrap();
    assert_eq!(asked.params.get_str("callFrameId"), Some("f1"));
    assert!(debug_eval(&store, "t1", 9, "x").unwrap_err().contains("共 2 帧"));
    assert!(debug_eval(&store, "t2", 0, "x").is_err());
    assert_eq!(step(&store, "t1", "into").unwrap().method, "Debugger.stepInto");
    assert!(step(&store, "t1", "sideways").is_err());
    assert!(step(&store, "t2", "over").is_err());
    assert_eq!(resume(&store, "t1").unwrap().method, "Debugger.resume");
    assert_eq!(
        store.on_event("t1", "Debugger.resumed", &json("{}"), None, 50),
        Some(BrowserEvent::DebuggerResumed { tab_id: "t1".into() })
    );
    assert!(store.paused_tab().is_none());
    assert!(debug_eval(&store, "t1", 0, "x").is_err());
    assert!(resume(&store, "t1").is_err());
    gone_on(&mut store);
    assert!(!store.is_paused(None));
}

#[test]
fn console_keeps_the_latest_messages() {
    let mut store = ReconStore::new();
    let params = json(
        r#"{"type":"warn","args":[{"value":"a"},{"value":"b"}],
            "stackTrace":{"callFrames":[{"url":"u.js","lineNumber":2}]}}"#,
    );
    let _ = store.on_event("t1", "Runtime.consoleAPICalled", &params, Some(7), 1);
    let thrown = json(r#"{"exceptionDetails":{"text":"Uncaught","url":"v.js","lineNumber":1}}"#);
    let _ = store.on_event("t1", "Runtime.exceptionThrown", &thrown, None, 9);
    let list = store.console_list("t1", 10);
    assert_eq!(list.len(), 2);
    assert_eq!((list[0].text.as_str(), list[0].seq, list[0].at_ms), ("a b", 1, 7));
    assert_eq!((list[0].url.as_str(), list[0].line), ("u.js", 2));
    assert_eq!((list[1].text.as_str(), list[1].level.as_str(), list[1].at_ms), ("Uncaught", "error", 9));
    assert_eq!(store.console_list("t1", 0).len(), 1);
    let _ = store.on_event("t1", "Runtime.exceptionThrown", &json("{}"), None, 9);
    let _ = store.on_event("t1", "Runtime.consoleAPICalled", &json("{}"), None, 9);
    assert_eq!(store.console_list("t1", 1)[0].text, "(无参数)");
    store.clear("t1");
    assert!(store.console_list("t1", 5).is_empty());
    assert!(not_running_error("检索").contains("检索"));
}

#[test]
fn search_leaves_out_large_scripts_and_stops_when_it_has_enough() {
    let mut store = ReconStore::new();
    with_script(&mut store, "1", "big.js", 2_000_000);
    with_script(&mut store, "2", "a.js", 10);
    with_script(&mut store, "3", "b.js", 10);
    assert!(Search::new("", false, true, 2, store.scripts("t1", None)).is_err());
    let mut search = Search::new("needle", false, true, 2, store.scripts("t1", None)).ok().unwrap();
    let asked = search.next().unwrap();
    assert_eq!(asked.params.get_str("scriptId"), Some("2"));
    assert_eq!(asked.params.get_bool("caseSensitive"), Some(true));
    assert_eq!(search.skipped, 1);
    let reply = json(r#"{"result":[{"lineNumber":1,"lineContent":"x"},{"lineNumber":2},{"lineNumber":3}]}"#);
    assert_eq!(search.hear(Ok(&reply)), Ok(()));
    assert_eq!(search.matches.len(), 2);
    assert!(search.next().is_none());
    let mut search = Search::new("needle", true, false, 9, store.scripts("t1", None)).ok().unwrap();
    let _ = search.next();
    assert_eq!(search.hear(Err("gone")).unwrap_err(), "检索 a.js(2) 失败: gone");
    assert_eq!(search.hear(Ok(&json("{}"))), Ok(()));
    assert_eq!(search.next().unwrap().params.get_str("scriptId"), Some("3"));
    assert_eq!(search.hear(Ok(&json("{}"))), Ok(()));
    assert!(search.next().is_none());
}

#[test]
fn part_of_a_script_is_told() {
    let mut store = ReconStore::new();
    with_script(&mut store, "2", "https://x/a.js", 10);
    let target = source_target(&store, "t1", None, Some("a.js")).ok().unwrap();
    assert_eq!(target.script_id, "2");
    assert_eq!(source_call(&target).params.get_str("scriptId"), Some("2"));
    assert!(source_target(&store, "t1", None, Some("c.js")).is_err());
    assert!(source_target(&store, "t1", None, None).is_err());
    let by_id = source_target(&store, "t1", Some("2"), None).ok().unwrap();
    let reply = json(r#"{"scriptSource":"l0\nl1\nl2\nl3"}"#);
    assert!(part_is_there(&reply, Some(1), Some(2)));
    let told = tell_source(&store, "t1", &by_id, &reply, Some(1), Some(2));
    assert_eq!(told.get_str("source"), Some("l1\nl2"));
    assert_eq!(told.get_str("url"), Some("https://x/a.js"));
    assert_eq!(told.get("endLine").unwrap().as_u64(), Some(3));
    assert_eq!(told.get("totalLines").unwrap().as_u64(), Some(4));
    let all = tell_source(&store, "t1", &target, &reply, Some(-3), None);
    assert_eq!(all.get_str("source"), Some("l0\nl1\nl2\nl3"));
    assert_eq!(all.get_str("url"), Some("a.js"));
    assert!(!part_is_there(&reply, Some(5), None));
    let empty = tell_source(&store, "t1", &target, &reply, Some(3), Some(1));
    assert_eq!(empty.get_str("source"), Some(""));
    assert_eq!(source_failure("x"), "取源码失败: x");
}

fn hit(url: &str, line_number: i64) -> SearchMatch {
    SearchMatch {
        script_id: "2".into(),
        url: url.into(),
        line_number,
        line_content: String::new(),
    }
}

#[test]
fn breakpoint_is_set_once_and_outlives_its_tab() {
    let mut store = ReconStore::new();
    let matches = vec![hit("a.js", 3), hit("", 4)];
    assert_eq!(choose_hit(&matches, "q", 0), Ok(0));
    assert_eq!(choose_hit(&matches, "q", 1), Ok(0));
    assert!(choose_hit(&matches, "q", 2).unwrap_err().contains("无 URL"));
    assert_eq!(choose_hit(&matches, "q", 3).unwrap_err(), "检索「q」无第 3 个命中");
    match plan_breakpoint(&store, &matches[0], Some("  ")) {
        BreakpointMove::Ask(asked) => {
            assert_eq!(asked.method, "Debugger.setBreakpointByUrl");
            assert!(asked.params.get("condition").is_none());
        }
        BreakpointMove::Known(_) => panic!("there is none yet"),
    }
    let reply = json(r#"{"breakpointId":"b1"}"#);
    let set = breakpoint_set(&mut store, &matches[0], Some("x > 1"), Ok(&reply)).ok().unwrap();
    assert_eq!(set.breakpoint_id, "b1");
    assert!(matches!(plan_breakpoint(&store, &matches[0], None), BreakpointMove::Known(known)
        if known.condition.as_deref() == Some("x > 1")));
    assert_eq!(
        breakpoint_set(&mut store, &hit("c.js", 9), None, Err("no")).err().unwrap(),
        "设断点失败(c.js:9): no"
    );
    store.clear("t1");
    assert_eq!(store.list_breakpoints("t1").len(), 1);
    assert!(store.remove_breakpoint("b1"));
    assert!(!store.remove_breakpoint("b1"));
    assert_eq!(removal_call("b1").params.get_str("breakpointId"), Some("b1"));
    store.clear_all();
    assert!(store.list_breakpoints("t1").is_empty());
}

#[test]
fn thrown_values_are_told() {
    assert_eq!(tell_eval(Ok(&json(r#"{"result":{"value":2}}"#))), Ok(json("2")));
    assert_eq!(
        tell_eval(Ok(&json(r#"{"exceptionDetails":{"exception":{"description":"TypeError"}}}"#))),
        Err("TypeError".to_string())
    );
    assert_eq!(
        tell_eval(Ok(&json(r#"{"exceptionDetails":{}}"#))),
        Err("表达式抛异常".to_string())
    );
    assert_eq!(tell_eval(Err("gone")), Err("帧内求值失败: gone".to_string()));
}

#[test]
fn scripts_and_messages_stay_in_order() {
    let mut store = ReconStore::new();
    for i in 0..310 {
        with_script(&mut store, &format!("s{}", i % 305), if i % 2 == 0 { "a.js" } else { "b.js" }, 10);
        let _ = store.on_event("t1", "Runtime.consoleAPICalled", &json("{}"), None, 9);
        let _ = store.on_event("t2", "Runtime.consoleAPICalled", &json("{}"), None, 9);
    }
    let scripts = store.scripts("t1", None);
    assert_eq!(scripts.len(), 300);
    for (i, script) in scripts.iter().enumerate() {
        assert!(scripts[i + 1..].iter().all(|other| other.script_id != script.script_id));
    }
    let some: Vec<String> = scripts
        .iter()
        .filter(|script| script.url.contains("a.js"))
        .map(|script| script.script_id.clone())
        .collect();
    let found: Vec<String> =
        store.scripts("t1", Some("a.js")).iter().map(|script| script.script_id.clone()).collect();
    assert_eq!(found, some);
    let all = store.console_list("t1", 300);
    assert_eq!(all.len(), 300);
    assert!((1..all.len()).all(|i| all[i - 1].seq < all[i].seq));
    assert_eq!(store.console_list("t1", 0)[0].seq, all[299].seq);
}
