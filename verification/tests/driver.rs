use std::collections::VecDeque;

use denia::agent::compact::{CompactionSettings, ContextPressure};
use denia::agent::course::{Act, Course, Happened, StepPrompt};
use denia::agent::exec::{append_call, commit_result, reject_before_dispatch, ToolOutput};
use denia::agent::input::prepare_turn_input;
use denia::agent::loop_guard::LoopGuard;
use denia::agent::pool::{CallPool, CallVerdict, ParallelSettings, PoolMove};
use denia::agent::request::{attempt_failure, Attempt, Backoff};
use denia::codes;
use denia::error::LlmFailure;
use denia::history::derive_messages;
use denia::json::{object_of, Json};
use denia::message::{ChatRole, ToolCallRef};
use denia::session::{
    AbortCause, RequestHeaderReason, SessionEnvelope, SessionEvent, TurnEndReason,
};
use denia::stream::{
    BlockType, ContentBlock, FinishReason, ModelSelection, StreamChunk, TokenUsage,
};
use denia::tool::ToolSchema;

/// What the model does when it is asked.
enum Script {
    Chunks(Vec<StreamChunk>),
    Fail(LlmFailure),
    /// The stream breaks off behind the chunks.
    ChunksThenFail(Vec<StreamChunk>, LlmFailure),
    /// The stream says nothing until the user cancels.
    Pending,
}

struct Session {
    log: Vec<SessionEnvelope>,
    scripts: VecDeque<Script>,
}

impl Session {
    fn new(scripts: Vec<Script>) -> Session {
        Session { log: Vec::new(), scripts: VecDeque::from(scripts) }
    }

    fn append(&mut self, event: SessionEvent) -> u64 {
        let seq = self.log.len() as u64 + 1;
        self.log.push(SessionEnvelope { seq, time: 0, event });
        seq
    }

    fn run_turn(&mut self, prompt: &str) -> TurnEndReason {
        for event in prepare_turn_input(1, prompt, Vec::new(), &Vec::new(), &Vec::new()) {
            self.append(event);
        }
        let is_snapshot = vec![false; self.log.len()];
        let guard = LoopGuard::new();
        let mut course = Course::open(1, &self.log, &is_snapshot, None, None, 0, guard);
        let mut act = Act::Gather;
        loop {
            let happened = match act {
                Act::Gather => Happened::Gathered { background: None },
                Act::Assemble { .. } => Happened::Assembled {
                    prompt: step_prompt(),
                    selection: selection(),
                    context_window: Some(100_000),
                },
                Act::Weigh { .. } => Happened::Weighed {
                    pressure: ContextPressure {
                        context_window: Some(100_000),
                        pressure_tokens: None,
                        projected_tokens: None,
                    },
                    settings: CompactionSettings::default(),
                    reached: false,
                },
                Act::Compact => panic!("nothing calls for a compaction"),
                Act::Request => self.request(),
                Act::Pause { .. } => Happened::Paused { cancelled: false },
                Act::Run { step, calls } => {
                    self.execute_calls(step, &calls);
                    Happened::Ran
                }
                Act::End { reason } => return reason,
            };
            let mut events = Vec::new();
            act = course.advance(happened, &self.log, &mut events);
            for event in events {
                self.append(event);
            }
        }
    }

    fn request(&mut self) -> Happened {
        let (chunks, stream_error, interrupted) = match self.scripts.pop_front() {
            Some(Script::Fail(failure)) => return Happened::Refused { failure },
            Some(Script::Chunks(chunks)) => (chunks, None, false),
            Some(Script::ChunksThenFail(chunks, failure)) => (chunks, Some(failure), false),
            Some(Script::Pending) => (Vec::new(), None, true),
            None => (Vec::new(), None, false),
        };
        let mut attempt = Attempt::new();
        for chunk in chunks {
            let event = SessionEvent::AssistantChunk { turn: 1, step: 1, chunk: chunk.clone() };
            let seq = self.append(event);
            attempt.take(chunk, seq);
        }
        let failure = attempt_failure(&attempt.finish, stream_error.clone());
        let retryable = failure.is_some_and(|failure| {
            failure.code == codes::EMPTY_RESPONSE || failure.code == codes::STREAM_CLOSED
        });
        Happened::Streamed {
            attempt,
            stream_error,
            interrupted,
            cancelled: interrupted,
            backoff: Backoff { retryable, max_retries: 5, delay_ms: 500 },
        }
    }

    fn execute_calls(&mut self, step: u32, calls: &[ToolCallRef]) {
        let mut pool = CallPool::new(calls.len(), &ParallelSettings::default());
        let mut touched = Vec::new();
        loop {
            let refusal = pool.wants().and_then(|at| {
                let known = calls[at].name == "echo";
                reject_before_dispatch(None, known, &calls[at].name)
            });
            let verdict = if refusal.is_some() { CallVerdict::Refuse } else { CallVerdict::Allow };
            let (at, output) = match pool.advance(verdict) {
                PoolMove::Start(at) => {
                    self.append(append_call(1, step, &calls[at]));
                    continue;
                }
                PoolMove::Refuse(at) => {
                    self.append(append_call(1, step, &calls[at]));
                    (at, refusal.unwrap())
                }
                PoolMove::Collect(at) => {
                    (at, ToolOutput::text(&format!("echo:{}", calls[at].arguments)))
                }
                PoolMove::Ask(_) => panic!("nothing is asked"),
                PoolMove::Finished => return,
            };
            let event = commit_result(
                1,
                step,
                &calls[at],
                output.is_error,
                output.content,
                None,
                "/ws",
                &mut touched,
            );
            self.append(event);
        }
    }

    fn injected(&self) -> Vec<String> {
        self.log
            .iter()
            .filter_map(|envelope| match &envelope.event {
                SessionEvent::UserMessage { text, injected: true, .. } => Some(text.clone()),
                _ => None,
            })
            .collect()
    }

    fn called(&self) -> Vec<String> {
        self.log
            .iter()
            .filter_map(|envelope| match &envelope.event {
                SessionEvent::ToolCall { call_id, .. } => Some(call_id.clone()),
                _ => None,
            })
            .collect()
    }

    fn answered(&self) -> Vec<String> {
        self.log
            .iter()
            .filter_map(|envelope| match &envelope.event {
                SessionEvent::ToolResult { call_id, .. } => Some(call_id.clone()),
                _ => None,
            })
            .collect()
    }

    fn first_result(&self) -> (String, bool) {
        self.log
            .iter()
            .find_map(|envelope| match &envelope.event {
                SessionEvent::ToolResult { content, is_error, .. } => {
                    Some((content.clone(), *is_error))
                }
                _ => None,
            })
            .expect("a call was answered")
    }

    fn retries(&self) -> Vec<String> {
        self.log
            .iter()
            .filter_map(|envelope| match &envelope.event {
                SessionEvent::RetryAttempt { code, .. } => Some(code.clone()),
                _ => None,
            })
            .collect()
    }

    fn is_balanced(&self) -> bool {
        let starts = self
            .log
            .iter()
            .filter(|envelope| matches!(envelope.event, SessionEvent::StepStart { .. }))
            .count();
        let ends = self
            .log
            .iter()
            .filter(|envelope| matches!(envelope.event, SessionEvent::StepEnd { .. }))
            .count();
        starts == ends
    }
}

fn step_prompt() -> StepPrompt {
    StepPrompt {
        context: String::new(),
        cleared: String::new(),
        for_user: "你是由 denia 驱动的助手".into(),
        for_model: "你是由 denia 驱动的助手".into(),
        tools: vec![ToolSchema {
            name: "echo".into(),
            description: "echoes".into(),
            parameters: object_of("type", Json::text("object")),
        }],
    }
}

fn selection() -> ModelSelection {
    ModelSelection { provider: "mock".into(), model: "mock-1".into(), reasoning_effort: None }
}

fn text_script(text: &str) -> Vec<StreamChunk> {
    vec![
        StreamChunk::BlockStart { index: 0, block_type: BlockType::Text },
        StreamChunk::TextDelta { index: 0, text: text.to_string() },
        StreamChunk::BlockEnd { index: 0, block: ContentBlock::Text { text: text.to_string() } },
        StreamChunk::Usage {
            usage: TokenUsage {
                input_tokens: 5,
                output_tokens: 2,
                cache_read_tokens: None,
                reasoning_tokens: None,
            },
        },
        StreamChunk::Finish { reason: FinishReason::Stop },
    ]
}

fn call_chunks(index: u32, id: &str, name: &str, arguments: &str) -> Vec<StreamChunk> {
    vec![
        StreamChunk::ToolCallDelta {
            index,
            id: id.to_string(),
            name: Some(name.to_string()),
            arguments_delta: arguments.to_string(),
        },
        StreamChunk::BlockEnd {
            index,
            block: ContentBlock::ToolCall {
                id: id.to_string(),
                name: name.to_string(),
                arguments: arguments.to_string(),
            },
        },
    ]
}

fn calls_script(calls: &[(&str, &str, &str)]) -> Vec<StreamChunk> {
    let mut chunks = vec![StreamChunk::BlockStart { index: 0, block_type: BlockType::ToolCall }];
    for (index, (id, name, arguments)) in calls.iter().enumerate() {
        chunks.extend(call_chunks(index as u32, id, name, arguments));
    }
    chunks.push(StreamChunk::Finish { reason: FinishReason::ToolCalls });
    chunks
}

fn tool_script() -> Vec<StreamChunk> {
    calls_script(&[("call_1", "echo", "{\"text\":\"hi\"}")])
}

fn mixed_script(text: &str, call_id: &str, arg: &str) -> Vec<StreamChunk> {
    let mut chunks = vec![
        StreamChunk::BlockStart { index: 0, block_type: BlockType::Text },
        StreamChunk::TextDelta { index: 0, text: text.to_string() },
        StreamChunk::BlockEnd { index: 0, block: ContentBlock::Text { text: text.to_string() } },
        StreamChunk::BlockStart { index: 1, block_type: BlockType::ToolCall },
    ];
    chunks.extend(call_chunks(1, call_id, "echo", &format!(r#"{{"text":"{arg}"}}"#)));
    chunks.push(StreamChunk::Finish { reason: FinishReason::ToolCalls });
    chunks
}

#[test]
fn plain_text_turn_completes() {
    let mut session = Session::new(vec![Script::Chunks(text_script("done!"))]);
    assert_eq!(session.run_turn("hello"), TurnEndReason::Completed);
    let kinds: Vec<&str> = session
        .log
        .iter()
        .map(|envelope| match &envelope.event {
            SessionEvent::UserMessage { .. } => "user",
            SessionEvent::TurnStart { .. } => "turn-start",
            SessionEvent::StepStart { .. } => "step-start",
            SessionEvent::SystemPrompt { .. } => "system-prompt",
            SessionEvent::AssistantMessage { .. } => "assistant",
            SessionEvent::StepEnd { .. } => "step-end",
            SessionEvent::TurnEnd { .. } => "turn-end",
            _ => "chunk",
        })
        .filter(|kind| *kind != "chunk")
        .collect();
    assert_eq!(
        kinds,
        vec![
            "user",
            "turn-start",
            "step-start",
            "system-prompt",
            "assistant",
            "step-end",
            "turn-end"
        ]
    );
    let messages = derive_messages(&session.log);
    assert_eq!(messages.len(), 2);
    assert_eq!(messages[1].content, "done!");
}

#[test]
fn tool_call_continues_to_second_step() {
    let mut session = Session::new(vec![
        Script::Chunks(tool_script()),
        Script::Chunks(text_script("after tool")),
    ]);
    assert_eq!(session.run_turn("use the tool"), TurnEndReason::Completed);
    let flat: Vec<String> = session
        .log
        .iter()
        .map(|envelope| match &envelope.event {
            SessionEvent::ToolCall { .. } => "call".to_string(),
            SessionEvent::ToolResult { is_error, .. } => format!("result:{is_error}"),
            SessionEvent::StepStart { step, .. } => format!("step:{step}"),
            _ => "-".to_string(),
        })
        .collect();
    let call_pos = flat.iter().position(|kind| kind == "call").unwrap();
    let result_pos = flat.iter().position(|kind| kind == "result:false").unwrap();
    assert!(call_pos < result_pos);
    assert!(flat.iter().any(|kind| kind == "step:2"));
    let messages = derive_messages(&session.log);
    assert!(messages.iter().any(|message| message.role == ChatRole::Tool));
}

#[test]
fn parallel_tool_calls_emit_one_result_each_in_order() {
    let mut session = Session::new(vec![
        Script::Chunks(calls_script(&[
            ("call_a", "echo", "{\"text\":\"call_a\"}"),
            ("call_b", "echo", "{\"text\":\"call_b\"}"),
            ("call_c", "echo", "{\"text\":\"call_c\"}"),
        ])),
        Script::Chunks(text_script("done")),
    ]);
    assert_eq!(session.run_turn("parallel"), TurnEndReason::Completed);
    assert_eq!(session.called(), vec!["call_a", "call_b", "call_c"]);
    assert_eq!(session.answered(), vec!["call_a", "call_b", "call_c"]);
}

#[test]
fn refused_call_waits_for_those_before_it() {
    let mut session = Session::new(vec![
        Script::Chunks(calls_script(&[
            ("call_a", "echo", "{\"text\":\"call_a\"}"),
            ("call_b", "nope", "{}"),
            ("call_c", "echo", "{\"text\":\"call_c\"}"),
        ])),
        Script::Chunks(text_script("done")),
    ]);
    assert_eq!(session.run_turn("go"), TurnEndReason::Completed);
    assert_eq!(session.called(), vec!["call_a", "call_b", "call_c"]);
    assert_eq!(session.answered(), vec!["call_a", "call_b", "call_c"]);
}

#[test]
fn unknown_tool_yields_error_result_and_continues() {
    let mut session = Session::new(vec![
        Script::Chunks(calls_script(&[("call_x", "nope", "{}")])),
        Script::Chunks(text_script("ok")),
    ]);
    assert_eq!(session.run_turn("go"), TurnEndReason::Completed);
    let (content, is_error) = session.first_result();
    assert!(is_error);
    assert!(content.contains("unknown tool: nope"));
}

#[test]
fn pending_stream_cancel_aborts() {
    let mut session = Session::new(vec![Script::Pending]);
    assert_eq!(
        session.run_turn("go"),
        TurnEndReason::Aborted { cause: Some(AbortCause::User) }
    );
    let has_interrupted = session.log.iter().any(|envelope| {
        matches!(&envelope.event, SessionEvent::AssistantMessage { interrupted: true, .. })
    });
    assert!(has_interrupted);
}

#[test]
fn text_rendered_call_is_rescued_and_executed() {
    let fake = "我先看一下\n\n<tool_call>\n<function=echo>\n<parameter=text>\nhello\n</parameter>\n</function>\n</tool_call>";
    let mut session = Session::new(vec![
        Script::Chunks(text_script(fake)),
        Script::Chunks(text_script("done")),
    ]);
    assert_eq!(session.run_turn("分析项目"), TurnEndReason::Completed);
    let (content, is_error) = session.first_result();
    assert!(!is_error);
    assert!(content.contains("hello"));
    let messages = derive_messages(&session.log);
    assert!(messages.iter().any(|message| message.role == ChatRole::Tool));
    assert!(session.injected().is_empty());
}

#[test]
fn rescued_unknown_tool_yields_error_result() {
    let fake = "<tool_call>\n<function=nope>\n<parameter=text>\nx\n</parameter>\n</function>\n</tool_call>";
    let mut session = Session::new(vec![
        Script::Chunks(text_script(fake)),
        Script::Chunks(text_script("ok")),
    ]);
    assert_eq!(session.run_turn("go"), TurnEndReason::Completed);
    let (content, is_error) = session.first_result();
    assert!(is_error);
    assert!(content.contains("unknown tool: nope"));
}

#[test]
fn text_fake_tool_call_is_fed_back_and_recovered() {
    let fake = "我先看一下\n\n<tool_call>\n<function=echo>\n<parameter=text>\nhi\n</tool_call>";
    let mut session = Session::new(vec![
        Script::Chunks(text_script(fake)),
        Script::Chunks(tool_script()),
        Script::Chunks(text_script("done")),
    ]);
    assert_eq!(session.run_turn("优化模型选择框"), TurnEndReason::Completed);
    let injected = session.injected();
    assert_eq!(injected.len(), 1);
    assert!(injected[0].contains("原生 tool_calls"));
    assert!(injected[0].contains("echo()"));
    let has_call = session
        .log
        .iter()
        .any(|envelope| matches!(&envelope.event, SessionEvent::ToolCall { name, .. } if name == "echo"));
    assert!(has_call);
}

#[test]
fn request_failure_is_fed_back_for_self_correction() {
    let mut session = Session::new(vec![
        Script::Fail(LlmFailure::new("MALFORMED_RESPONSE", "bad payload")),
        Script::Chunks(text_script("fixed")),
    ]);
    assert_eq!(session.run_turn("go"), TurnEndReason::Completed);
    let injected = session.injected();
    assert_eq!(injected.len(), 1);
    assert!(injected[0].contains("MALFORMED_RESPONSE"));
}

#[test]
fn provider_failure_terminates_without_feedback_waste() {
    let mut session = Session::new(vec![Script::Fail(LlmFailure::new("AUTH", "bad key"))]);
    match session.run_turn("go") {
        TurnEndReason::Error { failure } => {
            assert_eq!(failure.code, "AUTH");
            assert!(failure.message.contains("认证失败"), "{}", failure.message);
            assert!(failure.message.contains("凭据"), "{}", failure.message);
            assert!(failure.message.contains("bad key"), "{}", failure.message);
        }
        other => panic!("the turn ends with the failure, not with {other:?}"),
    }
    assert!(session.injected().is_empty());
    assert!(session.is_balanced());
}

#[test]
fn finish_error_is_not_swallowed_as_completed() {
    let empty = vec![StreamChunk::Finish {
        reason: FinishReason::Error {
            failure: LlmFailure::new(codes::EMPTY_RESPONSE, "empty response"),
        },
    }];
    let mut session =
        Session::new(vec![Script::Chunks(empty), Script::Chunks(text_script("recovered"))]);
    assert_eq!(session.run_turn("go"), TurnEndReason::Completed);
    assert_eq!(session.retries(), vec!["EMPTY_RESPONSE".to_string()]);
}

#[test]
fn stream_closed_with_partial_output_retries_and_recovers() {
    let mut session = Session::new(vec![
        Script::ChunksThenFail(
            vec![
                StreamChunk::BlockStart { index: 0, block_type: BlockType::Text },
                StreamChunk::TextDelta { index: 0, text: "partial".to_string() },
            ],
            LlmFailure::new(codes::STREAM_CLOSED, "stream ended before the [DONE] marker"),
        ),
        Script::Chunks(text_script("recovered")),
    ]);
    assert_eq!(session.run_turn("go"), TurnEndReason::Completed);
    assert_eq!(session.retries(), vec!["STREAM_CLOSED".to_string()]);
    let seqs = session
        .log
        .iter()
        .find_map(|envelope| match &envelope.event {
            SessionEvent::AssistantMessage { interrupted: false, source_event_seqs, .. } => {
                Some(source_event_seqs.clone())
            }
            _ => None,
        })
        .expect("the answer is logged");
    assert_eq!(seqs.len(), 5);
}

#[test]
fn request_header_and_context_are_logged() {
    let mut session = Session::new(vec![Script::Chunks(text_script("hi"))]);
    assert_eq!(session.run_turn("go"), TurnEndReason::Completed);
    let (header, reason) = session
        .log
        .iter()
        .find_map(|envelope| match &envelope.event {
            SessionEvent::RequestHeader { header, reason, .. } => Some((header, reason)),
            _ => None,
        })
        .expect("the header is logged");
    assert_eq!(*reason, RequestHeaderReason::Initial);
    assert_eq!(header.config.provider, "mock");
    assert_eq!(header.config.model, "mock-1");
    assert!(header.system.as_deref().unwrap_or("").contains("你是由 denia 驱动的"));
    assert!(!header.tools.is_empty());
    let headers = session
        .log
        .iter()
        .filter(|envelope| matches!(envelope.event, SessionEvent::RequestHeader { .. }))
        .count();
    assert_eq!(headers, 1);
    let (provider, model, window) = session
        .log
        .iter()
        .find_map(|envelope| match &envelope.event {
            SessionEvent::RequestContext { provider, model, context_window, .. } => {
                Some((provider, model, context_window))
            }
            _ => None,
        })
        .expect("the context is logged");
    assert_eq!(provider, "mock");
    assert_eq!(model, "mock-1");
    assert_eq!(*window, Some(100_000));
    let seqs = session
        .log
        .iter()
        .find_map(|envelope| match &envelope.event {
            SessionEvent::AssistantMessage { source_event_seqs, .. } => Some(source_event_seqs),
            _ => None,
        })
        .expect("the answer is logged");
    let chunks: Vec<u64> = session
        .log
        .iter()
        .filter(|envelope| matches!(envelope.event, SessionEvent::AssistantChunk { .. }))
        .map(|envelope| envelope.seq)
        .collect();
    assert_eq!(seqs.len(), 5);
    assert_eq!(*seqs, chunks);
}

#[test]
fn identical_text_fourth_time_forces_loop_abort() {
    let mut session = Session::new(vec![
        Script::Chunks(mixed_script("我在重复", "c1", "a")),
        Script::Chunks(mixed_script("我在重复", "c2", "b")),
        Script::Chunks(mixed_script("我在重复", "c3", "c")),
        Script::Chunks(mixed_script("我在重复", "c4", "d")),
    ]);
    assert_eq!(session.run_turn("go"), TurnEndReason::LoopDetected { repeats: 4 });
    let answers = session
        .log
        .iter()
        .filter(|envelope| matches!(envelope.event, SessionEvent::AssistantMessage { .. }))
        .count();
    assert_eq!(answers, 4);
    assert_eq!(session.called().len(), 3);
    let ended = session
        .log
        .iter()
        .find_map(|envelope| match &envelope.event {
            SessionEvent::TurnEnd { reason, .. } => Some(reason.clone()),
            _ => None,
        })
        .expect("the turn has ended");
    assert_eq!(ended, TurnEndReason::LoopDetected { repeats: 4 });
    assert!(session.is_balanced());
}

#[test]
fn identical_tool_calls_fourth_time_forces_loop_abort() {
    let mut session = Session::new(vec![
        Script::Chunks(tool_script()),
        Script::Chunks(tool_script()),
        Script::Chunks(tool_script()),
        Script::Chunks(tool_script()),
    ]);
    assert_eq!(session.run_turn("go"), TurnEndReason::LoopDetected { repeats: 4 });
    assert_eq!(session.called().len(), 3);
}

#[test]
fn varying_output_does_not_trigger_loop_guard() {
    let mut session = Session::new(vec![
        Script::Chunks(text_script("第一")),
        Script::Chunks(text_script("第二")),
        Script::Chunks(text_script("第三")),
    ]);
    assert_eq!(session.run_turn("go"), TurnEndReason::Completed);
}

#[test]
fn identical_text_streak_resets_after_variation() {
    let mut session = Session::new(vec![
        Script::Chunks(text_script("同")),
        Script::Chunks(text_script("同")),
        Script::Chunks(text_script("不同")),
        Script::Chunks(text_script("同")),
        Script::Chunks(text_script("同")),
        Script::Chunks(text_script("收尾")),
    ]);
    assert_eq!(session.run_turn("go"), TurnEndReason::Completed);
}

#[test]
fn feedback_injection_carries_channel() {
    let mut session = Session::new(vec![
        Script::Fail(LlmFailure::new("MALFORMED_RESPONSE", "bad payload")),
        Script::Chunks(text_script("fixed")),
    ]);
    let _ = session.run_turn("go");
    let has_feedback_channel = session.log.iter().any(|envelope| match &envelope.event {
        SessionEvent::UserMessage { injected: true, channel, .. } => {
            channel.as_deref() == Some("feedback")
        }
        _ => false,
    });
    assert!(has_feedback_channel);
}
