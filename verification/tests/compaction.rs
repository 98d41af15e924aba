use denia::agent::compact::{
    build_summary_messages, format_summary, pressure_parts, select_keep_start, should_compact, strip_images,
    truncate_head, CompactionSettings, ContextPressure, CUSTOM_MARK, SUMMARY_PROMPT,
};
use denia::agent::microcompact::{
    already_cleared, default_compactable_tools, plan, rough_tokens, tool_name_for, MicrocompactDecision,
    MicrocompactSettings, MicrocompactTrigger, CLEARED_PLACEHOLDER,
};
use denia::history::{derive_surface, SurfaceMessage};
use denia::message::{ChatMessage, ImageData, ToolCallRef};
use denia::session::{SessionEnvelope, SessionEvent};
use denia::stream::ContentBlock;

fn envelope(seq: u64, event: SessionEvent) -> SessionEnvelope {
    SessionEnvelope { seq, time: 1_700_000_000_000 + seq, event }
}

fn user(text: &str, images: Vec<ImageData>) -> SessionEvent {
    SessionEvent::UserMessage { text: text.into(), injected: false, channel: None, images }
}

fn assistant(turn: u32, blocks: Vec<ContentBlock>) -> SessionEvent {
    SessionEvent::AssistantMessage {
        turn,
        step: 1,
        blocks,
        usage: None,
        interrupted: false,
        source_event_seqs: Vec::new(),
    }
}

fn tiny() -> CompactionSettings {
    CompactionSettings {
        compact_enabled: true,
        min_keep_tokens: 100,
        max_keep_tokens: 9_000,
        min_text_messages: 2,
        summary_max_tokens: 1_000,
        max_attempts: 3,
    }
}

const COMPACT_RATIO: f64 = 0.9;

fn reached(pressure: &ContextPressure) -> bool {
    match pressure_parts(pressure) {
        Some((used, window)) => used as f64 / window as f64 >= COMPACT_RATIO,
        None => false,
    }
}

fn pressure(window: u64, projected: u64) -> ContextPressure {
    ContextPressure {
        context_window: Some(window),
        pressure_tokens: Some(projected),
        projected_tokens: Some(projected),
    }
}

fn gate(pressure: &ContextPressure, settings: &CompactionSettings) -> bool {
    should_compact(pressure, settings, reached(pressure))
}

fn tokens(surface: &[SurfaceMessage]) -> Vec<u64> {
    surface.iter().map(|item| rough_tokens(&item.message.content)).collect()
}

#[test]
fn compact_gate_is_pressure_driven() {
    let settings = tiny();
    assert!(!gate(&pressure(100_000, 50_000), &settings));
    assert!(gate(&pressure(100_000, 95_000), &settings));
    assert!(!gate(&pressure(0, 95_000), &settings));
    let no_anchor = ContextPressure {
        context_window: Some(100_000),
        pressure_tokens: None,
        projected_tokens: None,
    };
    assert!(!gate(&no_anchor, &settings));
}

#[test]
fn compaction_that_is_off_is_never_due() {
    let settings = CompactionSettings { compact_enabled: false, ..tiny() };
    assert!(!gate(&pressure(100_000, 99_000), &settings));
}

#[test]
fn keep_window_skips_when_not_enough_history() {
    let settings = tiny();
    let events = vec![envelope(1, user("hi", Vec::new()))];
    let surface = derive_surface(&events);
    assert_eq!(select_keep_start(&surface, &tokens(&surface), &settings), None);
}

#[test]
fn keep_window_prefers_recent_and_keeps_tool_pairs() {
    let settings = tiny();
    let events = vec![
        envelope(1, user("early request", Vec::new())),
        envelope(2, assistant(1, vec![ContentBlock::Text { text: "let me check".into() }])),
        envelope(
            3,
            assistant(
                2,
                vec![ContentBlock::ToolCall {
                    id: "call_9".into(),
                    name: "bash".into(),
                    arguments: "{}".into(),
                }],
            ),
        ),
        envelope(
            4,
            SessionEvent::ToolResult {
                turn: 2,
                step: 1,
                call_id: "call_9".into(),
                content: "ok".repeat(1_000),
                is_error: false,
                error: None,
                error_identity: None,
                meta: None,
                truncation: None,
                replaces: None,
            },
        ),
        envelope(5, user("now do the fix", Vec::new())),
    ];
    let surface = derive_surface(&events);
    let start = select_keep_start(&surface, &tokens(&surface), &settings).expect("should find a window");
    assert!(start <= 1, "keep start must include the tool pair, got {start}");
}

#[test]
fn format_summary_strips_analysis_and_wraps() {
    let raw = "some preamble\n<analysis>\nscratch\n</analysis>\n<summary>\n1. Primary Request and Intent: abc\n</summary>\ntail";
    let formatted = format_summary(raw);
    assert!(!formatted.contains("<analysis>"));
    assert!(!formatted.contains("scratch"));
    assert!(formatted.contains("Summary:"));
    assert!(formatted.contains("1. Primary Request and Intent: abc"));
    assert!(!formatted.contains("tail"));
}

#[test]
fn format_summary_passthrough_without_tags() {
    assert_eq!(format_summary("plain summary"), "plain summary");
}

#[test]
fn summary_without_tags_keeps_its_lines() {
    assert_eq!(format_summary("a\n\n\nb\n"), "a\n\n\nb\n");
    assert_eq!(format_summary(" <summary> open\n\n\n"), " <summary> open\n\n\n");
    assert_eq!(format_summary("<analysis>x</analysis>\na\n\n\nb\n"), "a\n\nb");
    assert_eq!(format_summary("<summary>\na\n\n\nb\n</summary>"), "Summary:\na\n\nb");
}

#[test]
fn build_summary_messages_strips_images_and_appends_prompt() {
    let images = vec![ImageData { mime: "image/png".into(), data: "AAAA".into(), path: None }];
    let events = vec![envelope(1, user("look", images))];
    let surface = derive_surface(&events);
    let messages = build_summary_messages(&surface, "");
    assert_eq!(messages.len(), 2);
    assert!(messages[0].images.is_empty());
    assert!(messages[0].content.contains("[image]"));
    assert!(messages[1].content.contains("Primary Request and Intent"));
}

#[test]
fn stripped_message_has_no_images() {
    let mut message = ChatMessage::user_with_images(
        "look",
        vec![ImageData { mime: "image/png".into(), data: "AAAA".into(), path: None }],
    );
    strip_images(&mut message);
    assert!(message.images.is_empty());
    assert!(message.content.starts_with("look"));
    assert!(message.content.contains("[image]"));
    let mut plain = ChatMessage::user("no picture");
    strip_images(&mut plain);
    assert_eq!(plain.content, "no picture");
}

#[test]
fn truncated_head_gets_shorter() {
    let messages: Vec<ChatMessage> = (0..10).map(|i| ChatMessage::user(&format!("m{i}"))).collect();
    let kept = truncate_head(&messages);
    assert!(kept.len() < messages.len());
    assert_eq!(kept.last().map(|m| m.content.clone()), Some("m9".to_string()));
}

fn surface_with_rounds(rounds: usize, payload: &str) -> Vec<SurfaceMessage> {
    let mut surface = Vec::new();
    let mut seq = 1u64;
    for round in 0..rounds {
        let call_id = format!("call_{round}");
        surface.push(SurfaceMessage {
            seq,
            is_error: false,
            message: ChatMessage::assistant(
                &format!("第 {round} 轮"),
                None,
                vec![ToolCallRef {
                    id: call_id.clone(),
                    name: "read_file".into(),
                    arguments: format!(r#"{{"path":"f{round}.rs"}}"#),
                }],
            ),
        });
        seq += 1;
        surface.push(SurfaceMessage {
            seq,
            message: ChatMessage::tool_result(&call_id, payload),
            is_error: false,
        });
        seq += 1;
    }
    surface
}

fn settings() -> MicrocompactSettings {
    MicrocompactSettings { min_savings: 0, ..Default::default() }
}

fn keeping_one() -> MicrocompactSettings {
    MicrocompactSettings { keep_recent_groups: 1, min_savings: 0, ..Default::default() }
}

#[test]
fn keeps_recent_groups_and_clears_older() {
    let surface = surface_with_rounds(10, &"x".repeat(2000));
    let decision = plan(&surface, &settings(), None, Some(1000), Some(500));
    match decision {
        MicrocompactDecision::Applied { cleared, kept, trigger, .. } => {
            assert_eq!(trigger, MicrocompactTrigger::TokenPressure);
            assert_eq!(cleared.len(), 5, "10 组保留 5 组,清 5 组");
            assert_eq!(kept.len(), 5);
            assert_eq!(cleared[0], "call_0");
            assert_eq!(kept[4], "call_9");
        }
        other => panic!("应当触发清理,实际 {other:?}"),
    }
}

#[test]
fn not_triggered_without_pressure() {
    let surface = surface_with_rounds(10, "small");
    let decision = plan(&surface, &settings(), None, Some(10), Some(500));
    assert_eq!(decision, MicrocompactDecision::NotTriggered("not_triggered"));
}

#[test]
fn idle_triggers_cleanup() {
    let surface = surface_with_rounds(10, &"x".repeat(2000));
    let decision = plan(&surface, &settings(), Some(120), None, None);
    assert!(matches!(
        decision,
        MicrocompactDecision::Applied { trigger: MicrocompactTrigger::TimeBased, .. }
    ));
}

#[test]
fn disabled_never_clears() {
    let surface = surface_with_rounds(10, &"x".repeat(2000));
    let cfg = MicrocompactSettings { enabled: false, ..settings() };
    assert_eq!(
        plan(&surface, &cfg, Some(999), Some(9999), Some(1)),
        MicrocompactDecision::NotTriggered("disabled")
    );
}

#[test]
fn error_results_are_preserved() {
    let mut surface = surface_with_rounds(3, &"x".repeat(2000));
    surface[1].is_error = true;
    match plan(&surface, &keeping_one(), None, Some(1000), Some(500)) {
        MicrocompactDecision::Applied { cleared, .. } => {
            assert!(!cleared.contains(&"call_0".to_string()), "错误结果不得被清理");
        }
        other => panic!("应当触发,实际 {other:?}"),
    }
}

#[test]
fn already_cleared_is_idempotent() {
    let mut surface = surface_with_rounds(3, &"x".repeat(2000));
    surface[1].message.content = CLEARED_PLACEHOLDER.to_string();
    match plan(&surface, &keeping_one(), None, Some(1000), Some(500)) {
        MicrocompactDecision::Applied { cleared, .. } => {
            assert!(!cleared.contains(&"call_0".to_string()));
        }
        other => panic!("应当触发,实际 {other:?}"),
    }
    assert!(already_cleared(CLEARED_PLACEHOLDER));
    assert!(!already_cleared("something else"));
}

#[test]
fn multimodal_results_are_preserved() {
    let mut surface = surface_with_rounds(3, &"x".repeat(2000));
    surface[1].message.images =
        vec![ImageData { mime: "image/png".into(), data: "AAAA".into(), path: None }];
    match plan(&surface, &keeping_one(), None, Some(1000), Some(500)) {
        MicrocompactDecision::Applied { cleared, .. } => {
            assert!(!cleared.contains(&"call_0".to_string()), "带图结果不得清理");
        }
        other => panic!("应当触发,实际 {other:?}"),
    }
}

#[test]
fn below_min_savings_skips_cleanup() {
    let surface = surface_with_rounds(10, "tiny");
    let cfg = MicrocompactSettings::default();
    assert_eq!(
        plan(&surface, &cfg, None, Some(1000), Some(500)),
        MicrocompactDecision::NotTriggered("below_min_savings")
    );
}

#[test]
fn non_compactable_tool_is_skipped() {
    let surface = vec![
        SurfaceMessage {
            seq: 1,
            message: ChatMessage::assistant(
                "t",
                None,
                vec![ToolCallRef {
                    id: "c1".into(),
                    name: "todo_write".into(),
                    arguments: "{}".into(),
                }],
            ),
            is_error: false,
        },
        SurfaceMessage {
            seq: 2,
            message: ChatMessage::tool_result("c1", &"x".repeat(5000)),
            is_error: false,
        },
    ];
    assert_eq!(
        plan(&surface, &keeping_one(), None, Some(9999), Some(1)),
        MicrocompactDecision::NotTriggered("no_candidates")
    );
    assert_eq!(tool_name_for(&surface, "c1"), Some("todo_write"));
    assert_eq!(tool_name_for(&surface, "c2"), None);
    assert!(!default_compactable_tools().contains(&"todo_write".to_string()));
}

#[test]
fn keeps_recent_when_fewer_groups_than_keep() {
    let surface = surface_with_rounds(3, &"x".repeat(2000));
    let decision = plan(&surface, &settings(), None, Some(9999), Some(1));
    assert_eq!(decision, MicrocompactDecision::NotTriggered("nothing_to_clear"));
}

#[test]
fn cleared_seqs_are_reported_for_replaces() {
    let surface = surface_with_rounds(4, &"x".repeat(2000));
    match plan(&surface, &keeping_one(), None, Some(9999), Some(1)) {
        MicrocompactDecision::Applied { cleared_seqs, .. } => {
            assert_eq!(cleared_seqs, vec![2, 4, 6]);
        }
        other => panic!("应当触发,实际 {other:?}"),
    }
}

#[test]
fn instructions_of_the_user_stand_in_their_place() {
    let messages = build_summary_messages(&[], "keep the file names");
    assert_eq!(messages.len(), 1);
    assert_eq!(messages[0].content, SUMMARY_PROMPT.replace(CUSTOM_MARK, "keep the file names"));
    assert!(!messages[0].content.contains(CUSTOM_MARK));
}
