use denia::agent::assembly::{AssembledSection, PromptAssembly, SectionAudience};
use denia::agent::compact::{CompactOutcome, CompactionSettings, ContextPressure};
use denia::agent::driver::{AskGrants, McpLoads};
use denia::agent::exec::{
    append_call, ask_about, classify, classify_call, command_argument, commit_result, decide_for, is_confined,
    reject_before_dispatch, settle_approval, settle_run, shell_command, storage_output, ActionClass, ApprovalMove,
    Decision, PathFacts, ToolOutput,
};
use denia::agent::injections::{
    last_injected_channel, refresh_background_injections, render_goal_block, Background, InjectionBaselines,
    GOAL_CHANNEL, GOAL_CLEARED_TEXT, WORKSPACE_CHANNEL,
};
use denia::agent::input::{
    image_kind_label, image_kind_summary, image_paths_list, prepare_turn_input, summarize_labels,
};
use denia::agent::log::{append_failure, close_aborted, flush_failure, injected_message};
use denia::agent::loop_guard::LoopGuard;
use denia::agent::pool::{CallPool, CallVerdict, ParallelSettings, PoolMove};
use denia::agent::request::{
    after_wait, attempt_failure, build_header_snapshot, compaction_due, compaction_threshold_tokens, conclude_attempt,
    log_request_headers, restore_request, same_header, settle_compaction, Attempt, AttemptEnd, Backoff,
    CompactionResult, RequestLog, RequestOutcome,
};
use denia::agent::step::{assemble_step, RuntimeTools, StepInputs};
use denia::agent::turn::{
    after_answer, close_unassembled, extract_system_update, gesture_message, last_request_header_system,
    restore_system_update, settle_system, should_log_system_prompt, turn_step_next, StepMove,
    SYSTEM_UPDATE_CHANNEL,
};
use denia::codes;
use denia::error::LlmFailure;
use denia::json::{object, parse};
use denia::message::{ImageData, ToolCallRef};
use denia::session::{
    AbortCause, ApprovalOutcome, GoalState, GoalStatus, PermissionMode, PlanReviewDecision, SessionEnvelope,
    SessionEvent, SubagentDescriptor, TruncationInfo, TurnEndReason,
};
use denia::stream::{BlockType, ContentBlock, FinishReason, ModelSelection, StreamChunk, TokenUsage};
use denia::tool::ToolSchema;

fn envelope(seq: u64, event: SessionEvent) -> SessionEnvelope {
    SessionEnvelope { seq, time: 1_700_000_000_000 + seq, event }
}

fn text(text: &str) -> ContentBlock {
    ContentBlock::Text { text: text.into() }
}

fn tool(id: &str, name: &str, arguments: &str) -> ContentBlock {
    ContentBlock::ToolCall { id: id.into(), name: name.into(), arguments: arguments.into() }
}

fn call(id: &str, name: &str, arguments: &str) -> ToolCallRef {
    ToolCallRef { id: id.into(), name: name.into(), arguments: arguments.into() }
}

fn selection() -> ModelSelection {
    ModelSelection { provider: "p".into(), model: "m".into(), reasoning_effort: None }
}

#[test]
fn plain_answer_completes_the_turn() {
    let mut guard = LoopGuard::new();
    let mut feedback: u32 = 0;
    let mut events = Vec::new();
    let next = after_answer(
        1,
        1,
        &vec![text("hello")],
        &Some(FinishReason::Stop),
        &mut guard,
        &mut feedback,
        &mut events,
    );
    assert!(matches!(next, StepMove::End { reason: TurnEndReason::Completed }));
    assert_eq!(
        events,
        vec![
            SessionEvent::StepEnd { turn: 1, step: 1 },
            SessionEvent::TurnEnd { turn: 1, reason: TurnEndReason::Completed },
        ]
    );
}

#[test]
fn answer_with_calls_runs_them() {
    let mut guard = LoopGuard::new();
    let mut feedback: u32 = 0;
    let mut events = Vec::new();
    let blocks = vec![text("let me see"), tool("c1", "bash", "{}"), tool("c2", "ls", "{}")];
    let next = after_answer(1, 1, &blocks, &None, &mut guard, &mut feedback, &mut events);
    match next {
        StepMove::Run { calls } => {
            assert_eq!(calls, vec![call("c1", "bash", "{}"), call("c2", "ls", "{}")]);
        }
        _ => panic!("the calls are to be run"),
    }
    assert!(events.is_empty());
}

#[test]
fn call_written_as_text_is_run_under_a_new_id() {
    let mut guard = LoopGuard::new();
    let mut feedback: u32 = 0;
    let mut events = Vec::new();
    let blocks = vec![text(
        "<tool_call><function=echo><parameter=text>x</parameter></function></tool_call>",
    )];
    match after_answer(1, 1, &blocks, &None, &mut guard, &mut feedback, &mut events) {
        StepMove::Run { calls } => {
            assert_eq!(calls.len(), 1);
            assert_eq!(calls[0].name, "echo");
            assert_eq!(calls[0].arguments, r#"{"text":"x"}"#);
            assert_eq!(calls[0].id.len(), 36);
        }
        _ => panic!("the call is to be run"),
    }
}

#[test]
fn broken_call_is_fed_back_until_the_quota_is_spent() {
    let mut guard = LoopGuard::new();
    let mut feedback: u32 = 0;
    for round in 0..2 {
        let mut events = Vec::new();
        let blocks = vec![text(&format!(
            "try {round} <tool_call><function=bash><parameter=command>ls</tool_call>"
        ))];
        let next = after_answer(1, round + 1, &blocks, &None, &mut guard, &mut feedback, &mut events);
        assert!(matches!(next, StepMove::Again));
        assert_eq!(events.len(), 2);
    }
    assert_eq!(feedback, 2);
    let mut events = Vec::new();
    let blocks = vec![text("last <tool_call><function=bash><parameter=command>ls</tool_call>")];
    let next = after_answer(1, 3, &blocks, &None, &mut guard, &mut feedback, &mut events);
    assert!(matches!(next, StepMove::End { reason: TurnEndReason::Completed }));
}

#[test]
fn fourth_equal_answer_ends_the_turn() {
    let mut guard = LoopGuard::new();
    let mut feedback: u32 = 0;
    let mut events = Vec::new();
    for step in 1..4 {
        let _ = after_answer(1, step, &vec![tool("c", "ls", "{}")], &None, &mut guard, &mut feedback, &mut events);
    }
    assert_eq!(events.len(), 1, "the third is warned about");
    let next =
        after_answer(1, 4, &vec![tool("c", "ls", "{}")], &None, &mut guard, &mut feedback, &mut events);
    assert!(matches!(next, StepMove::End { reason: TurnEndReason::LoopDetected { repeats: 4 } }));
}

#[test]
fn answer_that_is_too_long_ends_the_turn() {
    let mut guard = LoopGuard::new();
    let mut feedback: u32 = 0;
    let mut events = Vec::new();
    let next = after_answer(
        2,
        1,
        &vec![text("...")],
        &Some(FinishReason::MaxTokens),
        &mut guard,
        &mut feedback,
        &mut events,
    );
    assert!(matches!(next, StepMove::End { reason: TurnEndReason::MaxTokens }));
}

fn retry() -> Backoff {
    Backoff { retryable: true, max_retries: 2, delay_ms: 500 }
}

fn no_retry() -> Backoff {
    Backoff { retryable: false, max_retries: 2, delay_ms: 500 }
}

fn streamed(blocks: Vec<ContentBlock>, finish: Option<FinishReason>) -> Attempt {
    let mut attempt = Attempt::new();
    let mut seq = 10;
    for (index, block) in blocks.into_iter().enumerate() {
        let index = index as u32;
        attempt.take(StreamChunk::BlockStart { index, block_type: BlockType::Text }, seq);
        attempt.take(StreamChunk::BlockEnd { index, block }, seq + 1);
        seq += 2;
    }
    attempt.take(
        StreamChunk::Usage {
            usage: TokenUsage {
                input_tokens: 3,
                output_tokens: 2,
                cache_read_tokens: None,
                reasoning_tokens: None,
            },
        },
        seq,
    );
    if let Some(reason) = finish {
        attempt.take(StreamChunk::Finish { reason }, seq + 1);
    }
    attempt
}

#[test]
fn finished_stream_becomes_an_answer() {
    let attempt = streamed(vec![text("a"), text("b")], Some(FinishReason::Stop));
    let (mut retries, mut feedback) = (0u32, 0u32);
    let mut events = Vec::new();
    let end = conclude_attempt(
        1, 1, attempt, None, false, false, &retry(), &mut retries, &mut feedback, &mut events,
    );
    match end {
        AttemptEnd::Done(RequestOutcome::Step { blocks, finish }) => {
            assert_eq!(blocks, vec![text("a"), text("b")]);
            assert_eq!(finish, Some(FinishReason::Stop));
        }
        _ => panic!("the step goes on"),
    }
    assert!(matches!(
        events[0],
        SessionEvent::AssistantMessage { interrupted: false, usage: Some(_), .. }
    ));
}

#[test]
fn retryable_failure_is_tried_again_and_then_told() {
    let failure = LlmFailure::new(codes::TIMEOUT, "overloaded");
    let (mut retries, mut feedback) = (0u32, 0u32);
    let mut events = Vec::new();
    for round in 1..3u32 {
        let end = conclude_attempt(
            1,
            1,
            Attempt::new(),
            Some(failure.clone()),
            false,
            false,
            &retry(),
            &mut retries,
            &mut feedback,
            &mut events,
        );
        assert!(matches!(end, AttemptEnd::Wait { delay_ms: 500, .. }));
        assert_eq!(retries, round);
    }
    assert!(matches!(events[1], SessionEvent::RetryAttempt { attempt: 2, delay_ms: 500, .. }));
    let end = conclude_attempt(
        1,
        1,
        Attempt::new(),
        Some(failure),
        false,
        false,
        &retry(),
        &mut retries,
        &mut feedback,
        &mut events,
    );
    match end {
        AttemptEnd::Done(RequestOutcome::TurnEnded(TurnEndReason::Error { failure })) => {
            assert_eq!(failure.code, codes::TIMEOUT);
            assert!(failure.message.contains("已自动重试 2 次"));
        }
        _ => panic!("the turn ends"),
    }
}

#[test]
fn failure_that_the_model_can_mend_is_fed_back() {
    let (mut retries, mut feedback) = (0u32, 0u32);
    let mut events = Vec::new();
    let end = conclude_attempt(
        1,
        1,
        Attempt::new(),
        Some(LlmFailure::new(codes::INVALID_REQUEST, "bad arguments")),
        false,
        false,
        &no_retry(),
        &mut retries,
        &mut feedback,
        &mut events,
    );
    assert!(matches!(end, AttemptEnd::Done(RequestOutcome::RestartStep)));
    assert_eq!(feedback, 1);
    assert!(matches!(
        &events[1],
        SessionEvent::UserMessage { injected: true, channel: Some(channel), .. } if channel == "feedback"
    ));
}

#[test]
fn failure_that_only_the_provider_can_mend_ends_the_turn() {
    let (mut retries, mut feedback) = (0u32, 0u32);
    let mut events = Vec::new();
    let attempt =
        streamed(vec![], Some(FinishReason::Error { failure: LlmFailure::new(codes::AUTH, "no key") }));
    let end = conclude_attempt(
        1, 1, attempt, None, false, false, &no_retry(), &mut retries, &mut feedback, &mut events,
    );
    assert!(matches!(
        end,
        AttemptEnd::Done(RequestOutcome::TurnEnded(TurnEndReason::Error { .. }))
    ));
    assert_eq!(feedback, 0);
}

#[test]
fn cancelled_stream_keeps_what_came() {
    let (mut retries, mut feedback) = (0u32, 0u32);
    let mut events = Vec::new();
    let end = conclude_attempt(
        1,
        1,
        streamed(vec![text("half")], None),
        None,
        true,
        true,
        &retry(),
        &mut retries,
        &mut feedback,
        &mut events,
    );
    assert!(matches!(
        end,
        AttemptEnd::Done(RequestOutcome::TurnEnded(TurnEndReason::Aborted {
            cause: Some(AbortCause::User)
        }))
    ));
    assert!(matches!(events[0], SessionEvent::AssistantMessage { interrupted: true, .. }));
    assert_eq!(events.len(), 3);
}

#[test]
fn wait_goes_on_unless_it_is_cancelled() {
    let mut events = Vec::new();
    assert!(after_wait(1, 1, Attempt::new(), false, &mut events).is_none());
    assert!(events.is_empty());
    assert!(after_wait(1, 1, Attempt::new(), true, &mut events).is_some());
}

fn schema(name: &str) -> ToolSchema {
    ToolSchema { name: name.into(), description: "d".into(), parameters: object() }
}

#[test]
fn equal_request_is_logged_once() {
    let mut log = RequestLog { last_header: None, has_request_header: false, last_context: None };
    let tools = vec![schema("bash")];
    let mut events = Vec::new();
    log_request_headers(&mut log, 1, 1, &selection(), "system", &tools, Some(1000), &mut events);
    assert_eq!(events.len(), 2);
    log_request_headers(&mut log, 1, 2, &selection(), "system", &tools, Some(1000), &mut events);
    assert_eq!(events.len(), 2, "nothing has changed");
    log_request_headers(&mut log, 1, 3, &selection(), "other", &tools, Some(1000), &mut events);
    assert_eq!(events.len(), 3);
    let a = build_header_snapshot(&selection(), "system", &tools);
    assert!(same_header(&a, &build_header_snapshot(&selection(), "system", &tools)));
    assert!(!same_header(&a, &build_header_snapshot(&selection(), "other", &tools)));
}

#[test]
fn last_request_is_read_back() {
    let header = build_header_snapshot(&selection(), "system", &vec![schema("bash")]);
    let events = vec![
        envelope(1, SessionEvent::TurnStart { turn: 3 }),
        envelope(
            2,
            SessionEvent::RequestHeader {
                turn: 3,
                step: 1,
                header,
                reason: denia::session::RequestHeaderReason::Initial,
                starts_series: true,
            },
        ),
    ];
    let request = restore_request(&events, true).unwrap();
    assert_eq!(request.framed_system, "system");
    assert_eq!(request.selection, selection());
    assert_eq!(request.tools.len(), 1);
    assert_eq!(last_request_header_system(&events).as_deref(), Some("system"));
    assert!(restore_request(&[], true).is_err());
    assert!(restore_request(&events, false).is_err());
}

#[test]
fn compaction_is_given_up_after_failures() {
    let pressure = ContextPressure {
        context_window: Some(100),
        pressure_tokens: Some(95),
        projected_tokens: Some(95),
    };
    let settings = CompactionSettings::default();
    assert!(compaction_due(&pressure, &settings, true, 0));
    assert!(!compaction_due(&pressure, &settings, true, settings.max_attempts));
    let mut failures: u32 = 0;
    let mut events = Vec::new();
    settle_compaction(1, 1, CompactionResult::Failed, &mut failures, &mut events);
    assert_eq!(failures, 1);
    settle_compaction(
        1,
        1,
        CompactionResult::Done(CompactOutcome {
            summary: "s".into(),
            replaces_from: 1,
            replaces_to: 2,
            keep_from: 3,
            pre_tokens: 10,
            post_tokens: 1,
        }),
        &mut failures,
        &mut events,
    );
    assert_eq!(failures, 0);
    assert!(matches!(events.last(), Some(SessionEvent::CompactionSummary { .. })));
    let _ = compaction_threshold_tokens(&pressure, &settings);
}

#[test]
fn calls_run_side_by_side_and_are_answered_in_order() {
    let mut pool = CallPool::new(3, &ParallelSettings { max_parallel_tool_calls: 2 });
    let mut answered = Vec::new();
    loop {
        let _ = pool.wants();
        match pool.advance(CallVerdict::Allow) {
            PoolMove::Start(_) => {}
            PoolMove::Collect(at) | PoolMove::Refuse(at) | PoolMove::Ask(at) => answered.push(at),
            PoolMove::Finished => break,
        }
    }
    assert_eq!(answered, vec![0, 1, 2]);
}

#[test]
fn call_that_is_asked_about_runs_alone() {
    let mut pool = CallPool::new(2, &ParallelSettings::default());
    assert_eq!(pool.wants(), Some(0));
    assert_eq!(pool.advance(CallVerdict::Allow), PoolMove::Start(0));
    assert_eq!(pool.advance(CallVerdict::Ask), PoolMove::Collect(0));
    assert_eq!(pool.advance(CallVerdict::Ask), PoolMove::Ask(1));
    assert_eq!(pool.advance(CallVerdict::Ask), PoolMove::Finished);
}

#[test]
fn unknown_tool_is_answered_with_an_error() {
    let output = reject_before_dispatch(None, false, "nope").expect("it is refused");
    assert!(output.is_error);
    assert!(output.content.contains("nope"));
    assert!(reject_before_dispatch(None, true, "bash").is_none());
    let allowed = vec!["ls".to_string()];
    assert!(reject_before_dispatch(Some(&allowed), true, "bash").is_some());
    assert!(reject_before_dispatch(Some(&allowed), true, "ls").is_none());
}

#[test]
fn calls_are_classed_by_what_they_do() {
    let inside = PathFacts { in_memory: false, is_markdown: false, in_workspace: true };
    let outside = PathFacts { in_memory: false, is_markdown: false, in_workspace: false };
    let note = PathFacts { in_memory: true, is_markdown: true, in_workspace: false };
    assert_eq!(classify("write_file", Some(inside), true, true), ActionClass::WriteInside);
    assert_eq!(classify("write_file", Some(outside), false, true), ActionClass::WriteOutside);
    assert_eq!(classify("write_file", Some(note), true, true), ActionClass::MemoryWrite);
    assert_eq!(classify("read_file", Some(outside), true, true), ActionClass::Read);
    assert_eq!(classify("exit_plan", None, true, true), ActionClass::PlanSubmit);
    assert_eq!(classify("bash", None, true, true), ActionClass::BashWrite);
    assert_eq!(
        classify_call(
            "/ws",
            &call("c", "write_file", r#"{"path":"a.txt"}"#),
            true,
            Some("/home/u/memory"),
            true
        ),
        ActionClass::WriteInside
    );
    assert_eq!(
        classify_call(
            "/ws",
            &call("c", "write_file", r#"{"path":"/home/u/memory/a.md"}"#),
            true,
            Some("/home/u/memory"),
            true
        ),
        ActionClass::MemoryWrite
    );
}

#[test]
fn subagent_writes_nothing_but_notes() {
    let denied = decide_for(ActionClass::WriteInside, "write_file", true, None, Decision::Allow);
    assert!(matches!(denied, Decision::Deny(_)));
    assert_eq!(
        decide_for(ActionClass::MemoryWrite, "write_file", true, None, Decision::Allow),
        Decision::Allow
    );
    assert!(matches!(
        decide_for(ActionClass::MemoryWrite, "write_file", false, Some(".git/hooks"), Decision::Allow),
        Decision::Deny(_)
    ));
    assert_eq!(
        decide_for(ActionClass::Read, "read_file", true, None, Decision::Ask),
        Decision::Ask
    );
}

#[test]
fn sandbox_confines_unless_the_mode_or_the_path_frees() {
    assert!(is_confined(PermissionMode::AutoEdit, true, false));
    assert!(!is_confined(PermissionMode::AutoEdit, true, true));
}

#[test]
fn shell_command_is_read_from_its_arguments() {
    assert_eq!(shell_command(r#"{"command":"ls -l"}"#), "ls -l");
    assert_eq!(shell_command("no json"), "");
    assert_eq!(command_argument(&parse(r#"{"command":"x"}"#)), "x");
}

#[test]
fn result_that_was_cut_says_so() {
    let mut touched = Vec::new();
    let event = commit_result(
        1,
        2,
        &call("c1", "read_file", r#"{"path":"src/a.rs"}"#),
        false,
        "text".into(),
        Some(TruncationInfo { total_chars: 100, shown_chars: 4 }),
        "/ws",
        &mut touched,
    );
    match event {
        SessionEvent::ToolResult { call_id, is_error, truncation, .. } => {
            assert_eq!(call_id, "c1");
            assert!(!is_error);
            assert_eq!(truncation, Some(TruncationInfo { total_chars: 100, shown_chars: 4 }));
        }
        _ => panic!("it is a result"),
    }
    assert_eq!(touched, vec!["/ws/src/a.rs".to_string()]);
    assert!(matches!(
        append_call(1, 2, &call("c1", "bash", "{}")),
        SessionEvent::ToolCall { turn: 1, step: 2, .. }
    ));
}

fn approved(execute_mode: Option<PermissionMode>) -> PlanReviewDecision {
    PlanReviewDecision {
        outcome: ApprovalOutcome::AllowedOnce,
        execute_mode,
        selection: None,
        vision_supported: None,
        feedback: None,
    }
}

#[test]
fn approval_is_asked_and_settled() {
    let asked = ask_about(&call("c1", "bash", "{}"), false, None, true).expect("it is asked");
    assert_eq!(asked.request_id.len(), 36);
    assert!(matches!(asked.event, SessionEvent::ApprovalAsked { .. }));
    assert!(ask_about(&call("c1", "bash", "{}"), true, None, true).is_err());
    assert!(ask_about(&call("c1", "bash", "{}"), false, None, false).is_err());
    let mut selection = selection();
    let mut vision = false;
    let mut events = Vec::new();
    let next = settle_approval(
        &call("c1", "bash", "{}"),
        "r1",
        &approved(None),
        PermissionMode::AutoEdit,
        &mut selection,
        &mut vision,
        &mut events,
    );
    assert!(matches!(next, ApprovalMove::Run));
    let mut refused = approved(None);
    refused.outcome = ApprovalOutcome::Rejected;
    let next = settle_approval(
        &call("c1", "bash", "{}"),
        "r1",
        &refused,
        PermissionMode::AutoEdit,
        &mut selection,
        &mut vision,
        &mut events,
    );
    assert!(matches!(next, ApprovalMove::Answer(ToolOutput { is_error: true, .. })));
}

#[test]
fn outputs_are_plain_or_errors() {
    assert!(!ToolOutput::text("a").is_error);
    assert!(ToolOutput::error("a").is_error);
    assert!(storage_output(&append_failure("disk full")).is_error);
    assert_eq!(append_failure("x").code, codes::STORAGE);
    assert_eq!(flush_failure("x").code, codes::STORAGE);
}

#[test]
fn grants_last_as_long_as_their_session() {
    let mut grants = AskGrants::default();
    grants.grant_ask_class("s1", ActionClass::BashWrite);
    assert!(grants.ask_granted("s1", ActionClass::BashWrite));
    assert!(!grants.ask_granted("s1", ActionClass::WriteOutside));
    assert!(!grants.ask_granted("s2", ActionClass::BashWrite));
    grants.clear_ask_grants("s1");
    assert!(!grants.ask_granted("s1", ActionClass::BashWrite));
    let mut loads = McpLoads::default();
    loads.load_mcp_tool("s1", "srv__tool");
    assert!(loads.mcp_loaded("s1", "srv__tool"));
    loads.clear_mcp_loads("s1");
    assert!(!loads.mcp_loaded("s1", "srv__tool"));
}

#[test]
fn images_are_counted_by_their_kinds() {
    assert_eq!(image_kind_label("image/png"), "PNG");
    assert_eq!(image_kind_label("image/avif"), "AVIF");
    assert_eq!(image_kind_label("straße"), "STRASSE");
    let images = vec![
        ImageData { mime: "image/png".into(), data: "A".into(), path: Some("/a.png".into()) },
        ImageData { mime: "image/png".into(), data: "B".into(), path: None },
        ImageData { mime: "image/gif".into(), data: "C".into(), path: None },
    ];
    let summary = image_kind_summary(&images);
    assert!(summary.contains("PNG"));
    assert!(summary.contains("GIF"));
    assert!(image_paths_list(&images).contains("/a.png"));
    assert_eq!(
        summarize_labels(&vec!["PNG".to_string(), "PNG".to_string(), "GIF".to_string()]),
        summary
    );
}

#[test]
fn turn_begins_with_what_the_user_said() {
    let events = prepare_turn_input(2, "hi", Vec::new(), &vec!["/f.txt".to_string()], &Vec::new());
    assert_eq!(events.len(), 3);
    assert!(matches!(
        &events[0],
        SessionEvent::UserMessage { injected: true, text, .. } if text.contains("/f.txt")
    ));
    assert!(matches!(
        &events[1],
        SessionEvent::UserMessage { injected: false, text, .. } if text == "hi"
    ));
    assert_eq!(events[2], SessionEvent::TurnStart { turn: 2 });
}

#[test]
fn cancelled_turn_is_closed() {
    let mut events = Vec::new();
    let reason = close_aborted(1, 2, &mut events);
    assert_eq!(reason, TurnEndReason::Aborted { cause: Some(AbortCause::User) });
    assert_eq!(events[0], SessionEvent::StepEnd { turn: 1, step: 2 });
    let mut events = Vec::new();
    let reason = close_unassembled(1, 1, "no prompt", &mut events);
    assert!(matches!(reason, TurnEndReason::Error { .. }));
    assert_eq!(events.len(), 2);
}

#[test]
fn steps_go_on_from_the_log() {
    let events = vec![
        envelope(1, SessionEvent::TurnStart { turn: 1 }),
        envelope(2, SessionEvent::StepStart { turn: 1, step: 1 }),
        envelope(3, SessionEvent::StepEnd { turn: 1, step: 1 }),
    ];
    assert_eq!(turn_step_next(&events, 1), 2);
    assert_eq!(turn_step_next(&events, 2), 1);
}

#[test]
fn system_prompt_stays_and_changes_are_told_once() {
    let frozen = Some("first".to_string());
    let mut told = None;
    let mut events = Vec::new();
    assert_eq!(settle_system(&frozen, &mut told, "second".into(), &mut events), "first");
    assert_eq!(events.len(), 1);
    let _ = settle_system(&frozen, &mut told, "second".into(), &mut events);
    assert_eq!(events.len(), 1, "it is told once");
    let log: Vec<SessionEnvelope> =
        events.into_iter().enumerate().map(|(i, event)| envelope(i as u64, event)).collect();
    assert_eq!(restore_system_update(&log).as_deref(), Some("second"));
    assert_eq!(
        last_injected_channel(&log, SYSTEM_UPDATE_CHANNEL).and_then(|m| extract_system_update(&m)),
        Some("second".to_string())
    );
    assert!(should_log_system_prompt(None, 1, "x"));
    assert!(!should_log_system_prompt(Some("x"), 2, "x"));
}

#[test]
fn skill_is_handed_over_as_a_message() {
    let event = gesture_message("review", "/skills/review", "body");
    assert!(matches!(
        event,
        SessionEvent::UserMessage { injected: true, ref text, .. }
            if text.contains("review") && text.contains("body")
    ));
    assert!(matches!(
        injected_message("c", "t".into()),
        SessionEvent::UserMessage { injected: true, channel: Some(_), .. }
    ));
}

fn background(goal: Option<GoalState>) -> Background {
    Background {
        workspace: Some("rules".into()),
        capabilities: Ok(vec!["bash".to_string()]),
        allowed_tools: None,
        skills: None,
        goal,
        goal_tokens_used: 5,
    }
}

fn goal() -> GoalState {
    GoalState {
        objective: "ship".into(),
        status: GoalStatus::Active,
        token_budget: Some(100),
        blocked_reason: None,
        base_tokens: 0,
        rounds_started: 1,
        created_at: 1,
        updated_at: 1,
    }
}

#[test]
fn background_is_told_when_it_changes() {
    let mut baselines = InjectionBaselines::restore(&[]);
    let first = refresh_background_injections(background(Some(goal())), &mut baselines);
    assert!(first.iter().any(|injection| injection.channel == GOAL_CHANNEL));
    assert!(first.iter().any(|injection| injection.channel == WORKSPACE_CHANNEL));
    let second = refresh_background_injections(background(Some(goal())), &mut baselines);
    assert!(second.is_empty());
    let third = refresh_background_injections(background(None), &mut baselines);
    assert!(third.iter().any(|injection| injection.text.contains(GOAL_CLEARED_TEXT)));
    let block = render_goal_block(&goal(), 5);
    assert!(block.contains("ship"));
    assert!(block.contains("预算用量:5/100 tokens"));
}

fn sections() -> PromptAssembly {
    PromptAssembly {
        sections: vec![AssembledSection {
            name: "tool:bash".into(),
            text: "bash".into(),
            audience: SectionAudience::Model,
        }],
        contexts: Vec::new(),
        tools: vec![schema("bash"), schema("write_file"), schema("read_file")],
        variables: Vec::new(),
    }
}

#[test]
fn read_only_session_is_offered_no_tool_that_writes() {
    let mut assembly = sections();
    let inputs = StepInputs {
        runtime: None,
        preset: None,
        subagent: None,
        mode: PermissionMode::ReadOnly,
        memory_section: None,
    };
    assemble_step(&mut assembly, &inputs);
    let names: Vec<&str> = assembly.tools.iter().map(|tool| tool.name.as_str()).collect();
    assert!(!names.contains(&"write_file"));
    assert!(names.contains(&"read_file"));
}

#[test]
fn subagent_is_offered_only_its_tools() {
    let mut assembly = sections();
    let inputs = StepInputs {
        runtime: Some(RuntimeTools { shell: None, schemas: vec![schema("mcp__x")] }),
        preset: None,
        subagent: Some(SubagentDescriptor {
            label: "helper".into(),
            depth: 1,
            mode: "fresh".into(),
            selection: selection(),
            persona: None,
            allowed_tools: Some(vec!["read_file".to_string()]),
        }),
        mode: PermissionMode::Full,
        memory_section: None,
    };
    assemble_step(&mut assembly, &inputs);
    let names: Vec<&str> = assembly.tools.iter().map(|tool| tool.name.as_str()).collect();
    assert_eq!(names, vec!["read_file"]);
}

#[test]
fn run_that_was_cut_short_is_told() {
    let done = || Some(ToolOutput::text("ok"));
    assert_eq!(settle_run(false, true, done()), ToolOutput::text("ok"));
    assert_eq!(settle_run(true, true, done()), ToolOutput::error("工具调用在派发前已被中断"));
    assert_eq!(settle_run(false, false, done()), ToolOutput::error("unknown tool"));
    assert_eq!(settle_run(false, true, None), ToolOutput::error("工具执行被中断"));
}

#[test]
fn writes_are_told_apart_by_where_they_go() {
    let write = |path: &str| ToolCallRef {
        id: "c".into(),
        name: "write_file".into(),
        arguments: format!(r#"{{"path":"{path}"}}"#),
    };
    let class = |path: &str| classify_call("/ws", &write(path), false, Some("/mem"), false);
    assert_eq!(class("a.rs"), ActionClass::WriteInside);
    assert_eq!(class("/ws/a/b.rs"), ActionClass::WriteInside);
    assert_eq!(class("/wsx/a.rs"), ActionClass::WriteOutside);
    assert_eq!(class("/mem/note.md"), ActionClass::MemoryWrite);
    assert_eq!(class("/mem/.md"), ActionClass::WriteOutside);
    assert_eq!(class("/mem/note.txt"), ActionClass::WriteOutside);
    let noted = |cwd: &str, path: &str| classify_call(cwd, &write(path), false, Some("/ws/mem"), false);
    assert_eq!(noted("/ws", "mem/note.md"), ActionClass::MemoryWrite);
    assert_eq!(noted("/ws/", "mem/note.md"), ActionClass::MemoryWrite);
    assert_eq!(noted("/ws", "memo/note.md"), ActionClass::WriteInside);
    assert_eq!(noted("/ws/", "a.md"), ActionClass::WriteInside);
}

#[test]
fn refused_call_is_answered_behind_those_that_run() {
    let mut pool = CallPool::new(3, &ParallelSettings::default());
    assert_eq!(pool.advance(CallVerdict::Allow), PoolMove::Start(0));
    assert_eq!(pool.advance(CallVerdict::Refuse), PoolMove::Collect(0));
    assert_eq!(pool.advance(CallVerdict::Refuse), PoolMove::Refuse(1));
    assert_eq!(pool.advance(CallVerdict::Allow), PoolMove::Start(2));
    assert_eq!(pool.advance(CallVerdict::Allow), PoolMove::Collect(2));
    assert_eq!(pool.advance(CallVerdict::Allow), PoolMove::Finished);
}

#[test]
fn message_of_the_user_has_no_channel() {
    let events = prepare_turn_input(1, "hi", Vec::new(), &vec!["a.txt".to_string()], &Vec::new());
    assert!(matches!(&events[0], SessionEvent::UserMessage { channel: Some(channel), .. } if channel == "file-notice"));
    assert!(matches!(&events[1], SessionEvent::UserMessage { injected: false, channel: None, .. }));
}

#[test]
fn failure_of_the_stream_comes_before_that_of_its_end() {
    let stream = LlmFailure::new(codes::TIMEOUT, "stream");
    let end = Some(FinishReason::Error { failure: LlmFailure::new(codes::AUTH, "end") });
    assert_eq!(attempt_failure(&end, Some(stream)).unwrap().message, "stream");
    assert_eq!(attempt_failure(&end, None).unwrap().message, "end");
    assert!(attempt_failure(&Some(FinishReason::MaxTokens), None).is_none());
}
