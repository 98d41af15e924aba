use denia::history::{calls_of_blocks, derive_messages, derive_surface, text_of_blocks, INTERRUPTED_TOOL_RESULT};
use denia::message::{ChatMessage, ChatRole, ImageData};
use denia::session::{
    apply_goal_op, fork_cut_index, ApprovalPolicy, GoalOp, GoalState, GoalStatus, PermissionMode,
    SessionEnvelope, SessionEvent, TurnEndReason,
};
use denia::stream::{ContentBlock, TokenUsage};

fn envelope(seq: u64, event: SessionEvent) -> SessionEnvelope {
    SessionEnvelope { seq, time: 1_700_000_000_000 + seq, event }
}

fn two_turn_log() -> Vec<SessionEnvelope> {
    let mut events = vec![
        envelope(1, SessionEvent::TurnStart { turn: 1 }),
        envelope(
            2,
            SessionEvent::UserMessage {
                text: "first".into(),
                injected: false,
                images: Vec::new(),
                channel: None,
            },
        ),
        envelope(
            3,
            SessionEvent::AssistantMessage {
                turn: 1,
                step: 1,
                blocks: vec![ContentBlock::Text { text: "hi".into() }],
                usage: None,
                interrupted: false,
                source_event_seqs: Vec::new(),
            },
        ),
        envelope(
            4,
            SessionEvent::TurnEnd {
                turn: 1,
                reason: TurnEndReason::Completed,
            },
        ),
        envelope(5, SessionEvent::TurnStart { turn: 2 }),
        envelope(
            6,
            SessionEvent::UserMessage {
                text: "second".into(),
                injected: false,
                images: Vec::new(),
                channel: None,
            },
        ),
        envelope(
            7,
            SessionEvent::AssistantMessage {
                turn: 2,
                step: 1,
                blocks: vec![ContentBlock::Text {
                    text: "done".into(),
                }],
                usage: None,
                interrupted: false,
                source_event_seqs: Vec::new(),
            },
        ),
        envelope(
            8,
            SessionEvent::TurnEnd {
                turn: 2,
                reason: TurnEndReason::Completed,
            },
        ),
    ];
    for (index, envelope) in events.iter_mut().enumerate() {
        envelope.seq = index as u64 + 1;
    }
    events
}

#[test]
fn derive_messages_merges_tool_time_images_into_tool_result() {
    let events = vec![
        envelope(
            1,
            SessionEvent::UserMessage {
                text: "去截图".into(),
                injected: false,
                images: Vec::new(),
                channel: None,
            },
        ),
        envelope(
            2,
            SessionEvent::AssistantMessage {
                turn: 1,
                step: 1,
                blocks: vec![ContentBlock::ToolCall {
                    id: "c1".into(),
                    name: "browser".into(),
                    arguments: "{}".into(),
                }],
                usage: None,
                interrupted: false,
                source_event_seqs: Vec::new(),
            },
        ),
        envelope(
            3,
            SessionEvent::UserMessage {
                text: "[harness] 浏览器截图已注入".into(),
                injected: true,
                images: vec![ImageData {
                    mime: "image/png".into(),
                    data: "AAAA".into(),
                    path: None,
                }],
                channel: None,
            },
        ),
        envelope(
            4,
            SessionEvent::ToolResult {
                turn: 1,
                step: 1,
                call_id: "c1".into(),
                content: "ok".into(),
                is_error: false,
                error: None,
                error_identity: None,
                meta: None,
                replaces: None,
                truncation: None,
            },
        ),
    ];
    let messages = derive_messages(&events);
    assert_eq!(messages.len(), 3, "{messages:?}");
    assert_eq!(messages[2].role, ChatRole::Tool);
    assert_eq!(
        messages[2].images.len(),
        1,
        "截图应并入 tool-result: {messages:?}"
    );
    assert!(messages[2].content.contains("截图"));
}

#[test]
fn derive_projects_user_assistant_and_tool() {
    let events = vec![
        envelope(1, SessionEvent::TurnStart { turn: 1 }),
        envelope(
            2,
            SessionEvent::UserMessage {
                text: "hi".into(),
                injected: false,
                images: Vec::new(),
                channel: None,
            },
        ),
        envelope(3, SessionEvent::StepStart { turn: 1, step: 1 }),
        envelope(
            4,
            SessionEvent::AssistantMessage {
                turn: 1,
                step: 1,
                blocks: vec![
                    ContentBlock::Reasoning { text: "hmm".into() },
                    ContentBlock::Text {
                        text: "running".into(),
                    },
                    ContentBlock::ToolCall {
                        id: "c1".into(),
                        name: "bash".into(),
                        arguments: "{}".into(),
                    },
                ],
                usage: None,
                interrupted: false,
                source_event_seqs: vec![4],
            },
        ),
        envelope(
            5,
            SessionEvent::ToolCall {
                turn: 1,
                step: 1,
                call_id: "c1".into(),
                name: "bash".into(),
                arguments: "{}".into(),
            },
        ),
        envelope(
            6,
            SessionEvent::ToolResult {
                turn: 1,
                step: 1,
                call_id: "c1".into(),
                content: "exit code: 0".into(),
                is_error: false,
                error: None,
                error_identity: None,
                meta: None,
                replaces: None,
                truncation: None,
            },
        ),
        envelope(
            7,
            SessionEvent::AssistantMessage {
                turn: 1,
                step: 2,
                blocks: vec![ContentBlock::Text {
                    text: "done".into(),
                }],
                usage: Some(TokenUsage {
                    input_tokens: 1,
                    output_tokens: 1,
                    cache_read_tokens: None,
                    reasoning_tokens: None,
                }),
                interrupted: false,
                source_event_seqs: Vec::new(),
            },
        ),
        envelope(
            8,
            SessionEvent::TurnEnd {
                turn: 1,
                reason: TurnEndReason::Completed,
            },
        ),
    ];
    let messages = derive_messages(&events);
    assert_eq!(messages.len(), 4);
    assert_eq!(messages[0], ChatMessage::user("hi"));
    let assistant = &messages[1];
    assert_eq!(assistant.content, "running");
    assert_eq!(assistant.reasoning_content.as_deref(), None);
    assert_eq!(assistant.tool_calls.len(), 1);
    assert_eq!(messages[2], ChatMessage::tool_result("c1", "exit code: 0"));
    assert_eq!(messages[3].content, "done");
}

#[test]
fn derive_folds_tool_result_replacement() {
    let events = vec![
        envelope(1, SessionEvent::TurnStart { turn: 1 }),
        envelope(
            2,
            SessionEvent::UserMessage {
                text: "hi".into(),
                injected: false,
                images: Vec::new(),
                channel: None,
            },
        ),
        envelope(
            3,
            SessionEvent::AssistantMessage {
                turn: 1,
                step: 1,
                blocks: vec![ContentBlock::ToolCall {
                    id: "c1".into(),
                    name: "bash".into(),
                    arguments: "{}".into(),
                }],
                usage: None,
                interrupted: false,
                source_event_seqs: Vec::new(),
            },
        ),
        envelope(
            4,
            SessionEvent::ToolResult {
                turn: 1,
                step: 1,
                call_id: "c1".into(),
                content: "x".repeat(100),
                is_error: false,
                error: None,
                error_identity: None,
                meta: None,
                replaces: None,
                truncation: None,
            },
        ),
        envelope(
            5,
            SessionEvent::ToolResult {
                turn: 1,
                step: 1,
                call_id: "c1".into(),
                content: "pruned".into(),
                is_error: false,
                error: None,
                error_identity: None,
                meta: None,
                replaces: Some(4),
                truncation: None,
            },
        ),
        envelope(
            6,
            SessionEvent::TurnEnd {
                turn: 1,
                reason: TurnEndReason::Completed,
            },
        ),
    ];
    let messages = derive_messages(&events);
    assert_eq!(messages.len(), 3);
    assert_eq!(messages[0], ChatMessage::user("hi"));
    assert_eq!(messages[1].tool_calls.len(), 1);
    assert_eq!(messages[2], ChatMessage::tool_result("c1", "pruned"));
    assert!(!messages[2].content.contains("xxx"));
}

#[test]
fn derive_skips_empty_assistant_and_synthesizes_missing_results() {
    let events = vec![
        envelope(
            1,
            SessionEvent::UserMessage {
                text: "go".into(),
                injected: false,
                images: Vec::new(),
                channel: None,
            },
        ),
        envelope(
            2,
            SessionEvent::AssistantMessage {
                turn: 1,
                step: 1,
                blocks: vec![],
                usage: Some(TokenUsage::default()),
                interrupted: false,
                source_event_seqs: Vec::new(),
            },
        ),
        envelope(
            3,
            SessionEvent::AssistantMessage {
                turn: 1,
                step: 2,
                blocks: vec![ContentBlock::ToolCall {
                    id: "cX".into(),
                    name: "bash".into(),
                    arguments: "{}".into(),
                }],
                usage: None,
                interrupted: true,
                source_event_seqs: Vec::new(),
            },
        ),
    ];
    let messages = derive_messages(&events);
    assert_eq!(messages.len(), 3);
    assert_eq!(messages[1].tool_calls[0].id, "cX");
    assert_eq!(
        messages[2],
        ChatMessage::tool_result("cX", INTERRUPTED_TOOL_RESULT)
    );
}

#[test]
fn goal_op_state_machine_and_round_trip() {
    let base = |status| GoalState {
        objective: "修完回归".into(),
        status,
        token_budget: None,
        blocked_reason: None,
        base_tokens: 100,
        rounds_started: 2,
        created_at: 1,
        updated_at: 1,
    };
    assert_eq!(
        apply_goal_op(None, &GoalOp::SetGoal { objective: "x".into(), token_budget: Some(5) }, 7, 42)
            .unwrap()
            .objective,
        "x"
    );
    let seeded = apply_goal_op(None, &GoalOp::SetGoal { objective: "x".into(), token_budget: Some(5) }, 7, 42).unwrap();
    assert_eq!(seeded.base_tokens, 42);
    assert_eq!(seeded.status, GoalStatus::Active);
    assert_eq!(
        apply_goal_op(Some(seeded.clone()), &GoalOp::SetGoal { objective: "y".into(), token_budget: None }, 8, 9)
            .unwrap()
            .objective,
        "x",
        "已有目标时 Set 忽略"
    );
    assert_eq!(
        apply_goal_op(Some(base(GoalStatus::Active)), &GoalOp::Round, 3, 0).unwrap().rounds_started,
        3
    );
    assert_eq!(
        apply_goal_op(Some(base(GoalStatus::Active)), &GoalOp::Pause, 3, 0).unwrap().status,
        GoalStatus::Paused
    );
    assert_eq!(
        apply_goal_op(Some(base(GoalStatus::Paused)), &GoalOp::Resume, 3, 0).unwrap().status,
        GoalStatus::Active
    );
    assert_eq!(
        apply_goal_op(Some(base(GoalStatus::BudgetLimited)), &GoalOp::Resume, 3, 0).unwrap().status,
        GoalStatus::BudgetLimited,
        "预算耗尽状态 resume 拒绝"
    );
    let edited = apply_goal_op(
        Some(base(GoalStatus::Blocked)),
        &GoalOp::Edit { objective: Some("新目标".into()), token_budget: Some(10) },
        4,
        0,
    )
    .unwrap();
    assert_eq!((edited.status, edited.objective.as_str(), edited.token_budget),
        (GoalStatus::Active, "新目标", Some(10)));
    assert_eq!(
        apply_goal_op(Some(base(GoalStatus::Paused)), &GoalOp::Edit { objective: None, token_budget: None }, 4, 0)
            .unwrap()
            .status,
        GoalStatus::Paused,
        "暂停中编辑保持暂停"
    );
    assert_eq!(
        apply_goal_op(Some(base(GoalStatus::Complete)), &GoalOp::Edit { objective: Some("z".into()), token_budget: None }, 4, 0)
            .unwrap()
            .objective,
        "修完回归",
        "complete 终态忽略编辑"
    );
    assert_eq!(
        apply_goal_op(Some(base(GoalStatus::Paused)), &GoalOp::BudgetLimit, 5, 0).unwrap().status,
        GoalStatus::Paused
    );
    assert_eq!(
        apply_goal_op(Some(base(GoalStatus::Active)), &GoalOp::BudgetLimit, 5, 0).unwrap().status,
        GoalStatus::BudgetLimited
    );
    assert_eq!(apply_goal_op(Some(base(GoalStatus::Active)), &GoalOp::Clear, 6, 0), None);
    assert_eq!(apply_goal_op(None, &GoalOp::Clear, 6, 0), None);
}

#[test]
fn fork_cut_without_anchor_ends_on_last_completed_turn() {
    let events = two_turn_log();
    assert_eq!(fork_cut_index(&events, None), Some(8));
}

#[test]
fn fork_cut_anchor_clamps_forward_to_turn_end() {
    let events = two_turn_log();
    assert_eq!(fork_cut_index(&events, Some(2)), Some(4));
    assert_eq!(fork_cut_index(&events, Some(1)), Some(4));
    assert_eq!(fork_cut_index(&events, Some(4)), Some(4));
    assert_eq!(fork_cut_index(&events, Some(5)), Some(8));
}

#[test]
fn fork_cut_anchor_beyond_end_falls_back_to_last_turn_end() {
    let events = two_turn_log();
    assert_eq!(fork_cut_index(&events, Some(99)), Some(8));
}

#[test]
fn fork_cut_excludes_next_turn_prelude() {
    let mut events = two_turn_log();
    events.insert(
        4,
        envelope(
            0,
            SessionEvent::UserMessage {
                text: "next turn prompt".into(),
                injected: false,
                images: Vec::new(),
                channel: None,
            },
        ),
    );
    for (index, envelope) in events.iter_mut().enumerate() {
        envelope.seq = index as u64 + 1;
    }
    assert_eq!(fork_cut_index(&events, Some(1)), Some(4));
    assert_eq!(fork_cut_index(&events, None), Some(9));
}

#[test]
fn fork_cut_without_any_completed_turn_is_unavailable() {
    let events = vec![
        envelope(1, SessionEvent::TurnStart { turn: 1 }),
        envelope(
            2,
            SessionEvent::UserMessage {
                text: "hi".into(),
                injected: false,
                images: Vec::new(),
                channel: None,
            },
        ),
    ];
    assert_eq!(fork_cut_index(&events, None), None);
    assert_eq!(fork_cut_index(&events, Some(2)), None);
    assert_eq!(fork_cut_index(&events, Some(99)), None);
    assert_eq!(fork_cut_index(&[], None), None);
}

#[test]
fn derive_folds_compaction_summary_into_keep_window_order() {
    let events = vec![
        envelope(
            1,
            SessionEvent::UserMessage {
                text: "old request".into(),
                injected: false,
                images: Vec::new(),
                channel: None,
            },
        ),
        envelope(
            2,
            SessionEvent::AssistantMessage {
                turn: 1,
                step: 1,
                blocks: vec![ContentBlock::Text {
                    text: "old work".into(),
                }],
                usage: None,
                interrupted: false,
                source_event_seqs: Vec::new(),
            },
        ),
        envelope(
            3,
            SessionEvent::CompactionSummary {
                turn: 1,
                step: 2,
                summary: "previous work summarized".into(),
                replaces_from: 1,
                replaces_to: 2,
                keep_from: 4,
                pre_tokens: 100,
                post_tokens: 10,
            },
        ),
        envelope(
            4,
            SessionEvent::UserMessage {
                text: "now this".into(),
                injected: false,
                images: Vec::new(),
                channel: None,
            },
        ),
        envelope(
            5,
            SessionEvent::AssistantMessage {
                turn: 1,
                step: 3,
                blocks: vec![ContentBlock::Text {
                    text: "fresh reply".into(),
                }],
                usage: None,
                interrupted: false,
                source_event_seqs: Vec::new(),
            },
        ),
    ];
    let messages = derive_messages(&events);
    assert_eq!(messages.len(), 3);
    assert!(messages[0].content.contains("previous work summarized"));
    assert_eq!(messages[1].content, "now this");
    assert_eq!(messages[2].content, "fresh reply");
}

#[test]
fn goal_that_is_complete_takes_only_its_end() {
    let goal = apply_goal_op(
        None,
        &GoalOp::SetGoal { objective: "x".into(), token_budget: None },
        1,
        0,
    );
    let complete = apply_goal_op(goal, &GoalOp::Complete, 2, 0);
    assert_eq!(complete.as_ref().map(|goal| goal.status), Some(GoalStatus::Complete));
    let paused = apply_goal_op(complete, &GoalOp::Pause, 3, 0);
    assert_eq!(paused.as_ref().map(|goal| goal.status), Some(GoalStatus::Complete));
    assert_eq!(apply_goal_op(paused, &GoalOp::Clear, 4, 0), None);
}

#[test]
fn goal_that_is_blocked_says_why() {
    let goal = apply_goal_op(
        None,
        &GoalOp::SetGoal { objective: "x".into(), token_budget: None },
        1,
        0,
    );
    let blocked = apply_goal_op(goal, &GoalOp::Block { reason: "卡住了".into() }, 2, 0).unwrap();
    assert_eq!(blocked.status, GoalStatus::Blocked);
    assert_eq!(blocked.blocked_reason.as_deref(), Some("卡住了"));
}

#[test]
fn blocks_are_read_apart() {
    let blocks = vec![
        ContentBlock::Reasoning { text: "hmm".into() },
        ContentBlock::Text { text: "a".into() },
        ContentBlock::ToolCall { id: "c1".into(), name: "bash".into(), arguments: "{}".into() },
        ContentBlock::Text { text: "b".into() },
    ];
    assert_eq!(text_of_blocks(&blocks), "ab");
    let calls = calls_of_blocks(&blocks);
    assert_eq!(calls.len(), 1);
    assert_eq!(calls[0].id, "c1");
}

#[test]
fn surface_keeps_the_numbers_of_its_events() {
    let events = vec![
        envelope(7, SessionEvent::UserMessage {
            text: "hi".into(),
            injected: false,
            channel: None,
            images: Vec::new(),
        }),
    ];
    let surface = derive_surface(&events);
    assert_eq!(surface.len(), 1);
    assert_eq!(surface[0].seq, 7);
    assert!(!surface[0].is_error);
    assert_eq!(surface[0].message.role, ChatRole::User);
}

#[test]
fn modes_are_read_back_from_their_names() {
    for mode in [
        PermissionMode::ReadOnly,
        PermissionMode::AutoEdit,
        PermissionMode::Plan,
        PermissionMode::Full,
    ] {
        assert_eq!(PermissionMode::parse(mode.as_str()), Some(mode));
    }
    assert_eq!(PermissionMode::parse("nothing"), None);
    assert!(PermissionMode::Full.is_full());
    assert!(PermissionMode::ReadOnly.is_read_only());
    assert_eq!(ApprovalPolicy::Ask.as_str(), "ask");
    assert_eq!(ApprovalPolicy::Never.as_str(), "never");
}
