use denia::agent::exec::memory_anchored;
use denia::agent::instructions::{
    extract_body, is_skill_name, reminder_text, render_skill_catalog, restore_injected_text, skill_gesture,
    touched_path, SKILL_CATALOG_PREFIX, WORKSPACE_PREFIX,
};
use denia::agent::rescue::{
    detect_fake_names, fake_tool_call_feedback, fake_tool_call_names, raw_calls, rescue_fake_tool_calls,
    rescue_from_blocks,
};
use denia::agent::runtime_context::RuntimeContextProjection;
use denia::json::{object, parse};
use denia::message::ToolCallRef;
use denia::session::{SessionEnvelope, SessionEvent};
use denia::stream::ContentBlock;

#[test]
fn rescue_parses_tag_blocks_into_calls() {
    let text = "\n<tool_call>\n<function=edit>\n<parameter=path>\nsrc/lib.rs\n</parameter>\n<parameter=old_string>\n{\"a\": 1}\n</parameter>\n</function>\n</tool_call>\n<tool_call>\n<function=bash>\n<parameter=command>\nGet-ChildItem\n</parameter>\n</function>\n</tool_call>";
    let calls = rescue_fake_tool_calls(text).expect("blocks must parse");
    assert_eq!(calls.len(), 2);
    assert_eq!(calls[0].name, "edit");
    assert_eq!(calls[0].arguments.get_str("path"), Some("src/lib.rs"));
    assert_eq!(calls[0].arguments.get("old_string"), parse(r#"{"a": 1}"#).as_ref());
    assert_eq!(calls[1].name, "bash");
    assert_eq!(calls[1].arguments.get_str("command"), Some("Get-ChildItem"));
    let upper = rescue_fake_tool_calls(
        "<TOOL_CALL><FUNCTION=Echo><PARAMETER=text>x</PARAMETER></FUNCTION></TOOL_CALL>",
    )
    .expect("upper-case tags must parse");
    assert_eq!(upper[0].name, "echo");
    assert!(rescue_fake_tool_calls("普通文本,没有工具标签").is_none());
    assert!(
        rescue_fake_tool_calls("<tool_call><function=bash><parameter=command>x</tool_call>").is_none()
    );
    let bare = rescue_fake_tool_calls("<tool_call><function=baseline></tool_call>")
        .expect("bare call must parse");
    assert_eq!(bare[0].arguments, object());
}

#[test]
fn fake_tool_call_names_detects_tags() {
    let text = "先看目录\n<tool_call>\n<function=bash>\n<parameter=command>\nGet-ChildItem\n</parameter>\n</function>\n</tool_call>\n<tool_call>\n<function=read_file>\n</function>\n</tool_call>";
    assert_eq!(fake_tool_call_names(text), vec!["bash".to_string(), "read_file".to_string()]);
    assert_eq!(fake_tool_call_names("<TOOL_CALL><FUNCTION=Echo>"), vec!["echo".to_string()]);
    assert!(fake_tool_call_names("普通文本,没有工具标签").is_empty());
    assert!(fake_tool_call_names("提到了 <tool_call> 但没函数").is_empty());
    assert_eq!(
        fake_tool_call_names(
            "<tool_call><function=bash></tool_call><tool_call><function=bash></tool_call>"
        ),
        vec!["bash".to_string()]
    );
    assert!(fake_tool_call_names("<tool_call><function=></tool_call>").is_empty());
}

#[test]
fn rescue_from_blocks_requires_all_blocks_parse() {
    let good = ContentBlock::Text {
        text: "<tool_call><function=echo><parameter=text>x</parameter></function></tool_call>".into(),
    };
    let bad = ContentBlock::Text {
        text: "<tool_call><function=bash><parameter=command>ls</tool_call>".into(),
    };
    assert!(rescue_from_blocks(&vec![good.clone()]).is_some());
    assert!(rescue_from_blocks(&vec![good, bad]).is_none());
    assert!(rescue_from_blocks(&vec![ContentBlock::Text { text: "普通".into() }]).is_none());
}

#[test]
fn fake_calls_are_named_in_what_is_fed_back() {
    let blocks = vec![ContentBlock::Text { text: "<tool_call><function=bash></tool_call>".into() }];
    let names = detect_fake_names(&blocks);
    assert_eq!(names, vec!["bash".to_string()]);
    assert!(fake_tool_call_feedback(&names).contains("bash"));
    let raw = raw_calls("<tool_call><function=a><parameter=b>1</parameter></tool_call>").unwrap();
    assert_eq!(raw[0].name, "a");
    assert_eq!(raw[0].parameters, vec![("b".to_string(), "1".to_string())]);
}

fn said(text: &str, injected: bool) -> SessionEnvelope {
    SessionEnvelope {
        seq: 1,
        time: 1,
        event: SessionEvent::UserMessage {
            text: text.into(),
            injected,
            channel: None,
            images: Vec::new(),
        },
    }
}

#[test]
fn restore_finds_last_channel_message_only() {
    let events = vec![
        said("<system-reminder>\n工作区指令:旧\nx", true),
        said("普通用户消息", false),
        said("<system-reminder>\n工作区指令:新\nx", true),
        said("<system-reminder>\n技能目录:目录\nx", true),
    ];
    let restored = restore_injected_text(&events, WORKSPACE_PREFIX).unwrap();
    assert!(restored.contains("新"));
    assert!(restore_injected_text(&events, SKILL_CATALOG_PREFIX).unwrap().contains("目录"));
    assert_eq!(restore_injected_text(&events, "<system-reminder>\n无此通道:"), None);
}

#[test]
fn catalog_rendering_switches_on_content_change_not_visibility() {
    let entries = vec![("review".to_string(), "审查代码".to_string())];
    let empty: Vec<(String, String)> = Vec::new();
    assert_eq!(render_skill_catalog(&empty, None), None);
    let first = render_skill_catalog(&entries, None).unwrap();
    assert!(first.contains("本会话可用的技能如下"));
    assert!(first.contains("- `review`: 审查代码"));
    assert!(!first.contains("取代"));
    assert_eq!(render_skill_catalog(&entries, Some(&first)), None);
    let changed = vec![("review".to_string(), "新描述".to_string())];
    let replaced = render_skill_catalog(&changed, Some(&first)).unwrap();
    assert!(replaced.contains("取代之前发布的技能目录"));
    let emptied = render_skill_catalog(&empty, Some(&first)).unwrap();
    assert!(emptied.contains("当前没有可用的技能"));
    assert_eq!(render_skill_catalog(&empty, Some(&emptied)), None);
}

#[test]
fn reminder_is_opened_again() {
    let entries = vec![("review".to_string(), "审查代码".to_string())];
    let message = render_skill_catalog(&entries, None).unwrap();
    assert!(extract_body(&message).starts_with("<available_skills>\n- `review`: 审查代码\n"));
    assert!(reminder_text(&message).unwrap().starts_with("技能目录:"));
    assert_eq!(reminder_text("no reminder"), None);
}

#[test]
fn gesture_only_accepts_kebab_case_first_line() {
    assert_eq!(skill_gesture("/review\n帮我审查"), Some("review".into()));
    assert_eq!(skill_gesture("/review"), Some("review".into()));
    assert_eq!(skill_gesture(" /review "), Some("review".into()));
    assert_eq!(skill_gesture("/Review"), None);
    assert_eq!(skill_gesture("/a b"), None);
    assert_eq!(skill_gesture("/"), None);
    assert_eq!(skill_gesture("普通消息"), None);
    assert_eq!(skill_gesture(""), None);
}

#[test]
fn skill_name_has_parts_and_single_hyphens() {
    assert!(is_skill_name("a-b-1"));
    assert!(!is_skill_name("a--b"));
    assert!(!is_skill_name("-a"));
    assert!(!is_skill_name("a-"));
}

#[test]
fn touched_path_resolves_relative_and_rejects_empty() {
    let cwd = "/work";
    assert_eq!(
        touched_path(cwd, r#"{"path":"src/main.rs"}"#),
        Some("/work/src/main.rs".to_string())
    );
    assert_eq!(touched_path(cwd, r#"{"path":"/abs/x.txt"}"#), Some("/abs/x.txt".to_string()));
    assert_eq!(touched_path(cwd, r#"{"path":"  "}"#), None);
    assert_eq!(touched_path(cwd, "不是 JSON"), None);
}

fn call(name: &str, arguments: &str) -> ToolCallRef {
    ToolCallRef { id: "c1".into(), name: name.into(), arguments: arguments.into() }
}

const ROOT: &str = "/home/u/.denia/memories/x/memory";

#[test]
fn anchored_only_for_memory_root_paths_of_path_tools() {
    let cwd = "/ws";
    let root = Some(ROOT);
    for name in ["write_file", "edit", "read_file", "ls", "glob", "grep"] {
        assert!(
            memory_anchored(
                cwd,
                &call(name, r#"{"path":"/home/u/.denia/memories/x/memory/a.md"}"#),
                root
            ),
            "{name} 锚定记忆目录应豁免沙箱"
        );
    }
    assert!(!memory_anchored(cwd, &call("write_file", r#"{"path":"/ws/a.md"}"#), root));
    assert!(!memory_anchored(cwd, &call("read_file", r#"{"path":"/etc/passwd"}"#), root));
    assert!(!memory_anchored(cwd, &call("grep", r#"{"pattern":"x"}"#), root));
    assert!(!memory_anchored(cwd, &call("bash", r#"{"command":"echo hi"}"#), root));
    assert!(!memory_anchored(
        cwd,
        &call("write_file", r#"{"path":"/home/u/.denia/memories/x/memory/a.md"}"#),
        None
    ));
    assert!(memory_anchored(ROOT, &call("read_file", r#"{"path":"MEMORY.md"}"#), root));
}

const RUNTIME_CONTEXT_HEADER: &str = "[runtime context]";

#[test]
fn projects_changed_runtime_context_only_once() {
    let mut projection = RuntimeContextProjection::default();
    let current = format!("{RUNTIME_CONTEXT_HEADER}\n\nMode: read-only.");
    let first = projection.project(&current, "cleared").unwrap();
    assert!(first.starts_with(RUNTIME_CONTEXT_HEADER));
    assert!(projection.project(&current, "cleared").is_none());
}

#[test]
fn restore_reads_last_injected_runtime_snapshot() {
    let snapshot = format!("{RUNTIME_CONTEXT_HEADER}\n\nMode: on.");
    let events = vec![said(&snapshot, true)];
    let mut projection = RuntimeContextProjection::restore(&events, &[true]);
    assert_eq!(projection.project(&snapshot, "cleared"), None);
    assert_eq!(projection.project("", "cleared"), Some("cleared".to_string()));
}
