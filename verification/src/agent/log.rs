//! What a turn writes into the log, and when the log is in balance.
use vstd::prelude::*;
use vstd::string::*;

use crate::codes;
use crate::error;
use crate::error::{FailureView, LlmFailure};
use crate::message;
use crate::message::{ImageData, ImageView};
use crate::session::{
    AbortCause, ApprovalOutcome, PermissionMode, RequestHeaderReason, RequestHeaderSnapshot,
    SessionEvent, TruncationInfo, TurnEndReason,
};
use crate::stream::{ContentBlock, TokenUsage};
use crate::text;
use crate::text::cat3;
use crate::tool;
use crate::tool::ToolView;

verus! {

/// Why a turn ended.
pub enum ReasonView {
    Completed,
    Aborted { cause: Option<AbortCause> },
    MaxTokens,
    Error { failure: FailureView },
    LoopDetected { repeats: u32 },
    Interrupted,
}

impl View for TurnEndReason {
    type V = ReasonView;

    open spec fn view(&self) -> ReasonView {
        match *self {
            TurnEndReason::Completed => ReasonView::Completed,
            TurnEndReason::Aborted { cause } => ReasonView::Aborted { cause },
            TurnEndReason::MaxTokens => ReasonView::MaxTokens,
            TurnEndReason::Error { failure } => ReasonView::Error { failure: failure@ },
            TurnEndReason::LoopDetected { repeats } => ReasonView::LoopDetected { repeats },
            TurnEndReason::Interrupted => ReasonView::Interrupted,
        }
    }
}

/// How a request calls the model.
pub struct HeaderView {
    pub provider: Seq<char>,
    pub model: Seq<char>,
    pub reasoning_effort: Option<Seq<char>>,
    pub temperature: Option<Seq<char>>,
    pub max_tokens: Option<u64>,
    pub stop: Seq<Seq<char>>,
    pub system: Option<Seq<char>>,
    pub tools: Seq<ToolView>,
}

impl View for RequestHeaderSnapshot {
    type V = HeaderView;

    open spec fn view(&self) -> HeaderView {
        HeaderView {
            provider: self.config.provider@,
            model: self.config.model@,
            reasoning_effort: text::opt_view(self.config.reasoning_effort),
            temperature: text::opt_view(self.config.temperature),
            max_tokens: self.config.max_tokens,
            stop: text::views(self.config.stop@),
            system: text::opt_view(self.system),
            tools: tool::tool_views(self.tools@),
        }
    }
}

/// What an event says, for the events that a turn writes.
#[verifier::ext_equal]
pub enum EventView {
    TurnStart { turn: u32 },
    TurnEnd { turn: u32, reason: ReasonView },
    StepStart { turn: u32, step: u32 },
    StepEnd { turn: u32, step: u32 },
    /// A message of the user.
    Asked { text: Seq<char>, channel: Option<Seq<char>>, images: Seq<ImageView> },
    /// A message of the harness.
    Injected { text: Seq<char>, channel: Option<Seq<char>>, images: Seq<ImageView> },
    SystemPrompt { turn: u32, step: u32, text: Seq<char> },
    Answer {
        turn: u32,
        step: u32,
        blocks: Seq<ContentBlock>,
        usage: Option<TokenUsage>,
        interrupted: bool,
        sources: Seq<u64>,
    },
    ToolCall { turn: u32, step: u32, call_id: Seq<char>, name: Seq<char>, arguments: Seq<char> },
    ToolResult {
        turn: u32,
        step: u32,
        call_id: Seq<char>,
        content: Seq<char>,
        is_error: bool,
        truncation: Option<TruncationInfo>,
    },
    Summary {
        turn: u32,
        step: u32,
        summary: Seq<char>,
        replaces_from: u64,
        replaces_to: u64,
        keep_from: u64,
        pre_tokens: u64,
        post_tokens: u64,
    },
    Mode { mode: PermissionMode },
    ApprovalAsked {
        request_id: Seq<char>,
        call_id: Seq<char>,
        tool: Seq<char>,
        args_preview: Seq<char>,
        reason: Option<Seq<char>>,
    },
    ApprovalDecided { request_id: Seq<char>, outcome: ApprovalOutcome },
    Header {
        turn: u32,
        step: u32,
        header: HeaderView,
        reason: RequestHeaderReason,
        starts_series: bool,
    },
    Context {
        turn: u32,
        step: u32,
        provider: Seq<char>,
        model: Seq<char>,
        context_window: Option<u64>,
    },
    Retry {
        turn: u32,
        step: u32,
        attempt: u32,
        code: Seq<char>,
        message: Seq<char>,
        delay_ms: u64,
    },
    /// Any other event.
    Other,
}

impl View for SessionEvent {
    type V = EventView;

    open spec fn view(&self) -> EventView {
        match *self {
            SessionEvent::TurnStart { turn } => EventView::TurnStart { turn },
            SessionEvent::TurnEnd { turn, reason } => EventView::TurnEnd { turn, reason: reason@ },
            SessionEvent::StepStart { turn, step } => EventView::StepStart { turn, step },
            SessionEvent::StepEnd { turn, step } => EventView::StepEnd { turn, step },
            SessionEvent::UserMessage { text, injected, channel, images } => if injected {
                EventView::Injected {
                    text: text@,
                    channel: text::opt_view(channel),
                    images: message::image_views(images@),
                }
            } else {
                EventView::Asked {
                    text: text@,
                    channel: text::opt_view(channel),
                    images: message::image_views(images@),
                }
            },
            SessionEvent::SystemPrompt { turn, step, text } => EventView::SystemPrompt {
                turn,
                step,
                text: text@,
            },
            SessionEvent::AssistantMessage {
                turn,
                step,
                blocks,
                usage,
                interrupted,
                source_event_seqs,
            } => EventView::Answer {
                turn,
                step,
                blocks: blocks@,
                usage,
                interrupted,
                sources: source_event_seqs@,
            },
            SessionEvent::ToolCall { turn, step, call_id, name, arguments } => EventView::ToolCall {
                turn,
                step,
                call_id: call_id@,
                name: name@,
                arguments: arguments@,
            },
            SessionEvent::ToolResult {
                turn,
                step,
                call_id,
                content,
                is_error,
                error: None,
                error_identity: None,
                meta: None,
                truncation,
                replaces: None,
            } => EventView::ToolResult {
                turn,
                step,
                call_id: call_id@,
                content: content@,
                is_error,
                truncation,
            },
            SessionEvent::CompactionSummary {
                turn,
                step,
                summary,
                replaces_from,
                replaces_to,
                keep_from,
                pre_tokens,
                post_tokens,
            } => EventView::Summary {
                turn,
                step,
                summary: summary@,
                replaces_from,
                replaces_to,
                keep_from,
                pre_tokens,
                post_tokens,
            },
            SessionEvent::PermissionMode { mode } => EventView::Mode { mode },
            SessionEvent::ApprovalAsked { request_id, call_id, tool, args_preview, reason } =>
                EventView::ApprovalAsked {
                request_id: request_id@,
                call_id: call_id@,
                tool: tool@,
                args_preview: args_preview@,
                reason: text::opt_view(reason),
            },
            SessionEvent::ApprovalDecided { request_id, outcome } => EventView::ApprovalDecided {
                request_id: request_id@,
                outcome,
            },
            SessionEvent::RequestHeader { turn, step, header, reason, starts_series } =>
                EventView::Header { turn, step, header: header@, reason, starts_series },
            SessionEvent::RequestContext { turn, step, provider, model, context_window } =>
                EventView::Context {
                turn,
                step,
                provider: provider@,
                model: model@,
                context_window,
            },
            SessionEvent::RetryAttempt { turn, step, attempt, code, message, delay_ms } =>
                EventView::Retry { turn, step, attempt, code: code@, message: message@, delay_ms },
            _ => EventView::Other,
        }
    }
}

/// The views of a list of events.
pub open spec fn event_views(events: Seq<SessionEvent>) -> Seq<EventView> {
    events.map_values(|event: SessionEvent| event@)
}

/// A message of the harness on a channel.
pub open spec fn injection(channel: Seq<char>, text: Seq<char>) -> EventView {
    EventView::Injected { text, channel: Some(channel), images: Seq::empty() }
}

/// Adds an event to a list.
pub fn note(events: &mut Vec<SessionEvent>, event: SessionEvent)
    ensures
        event_views(final(events)@) == event_views(old(events)@).push(event@),
{
    assert(event_views(events@.push(event)) =~= event_views(events@).push(event@));
    events.push(event);
}

/// No events.
pub fn none() -> (events: Vec<SessionEvent>)
    ensures
        event_views(events@) == Seq::<EventView>::empty(),
{
    let events: Vec<SessionEvent> = Vec::new();
    assert(event_views(events@) =~= Seq::empty());
    events
}

/// A message of the harness on a channel.
pub fn injected_message(channel: &str, text: String) -> (event: SessionEvent)
    ensures
        event@ == injection(channel@, text@),
{
    let images: Vec<ImageData> = Vec::new();
    assert(message::image_views(images@) =~= Seq::empty());
    SessionEvent::UserMessage { text, injected: true, channel: Some(channel.to_owned()), images }
}

/// What the log says of the turn that was written last.
pub enum LogState {
    /// No turn is open.
    Closed,
    /// A turn is open, and no step of it.
    Turn { turn: u32 },
    /// A step is open.
    Step { turn: u32, step: u32 },
}

/// The state of the log after one more event; `None` where the event is out of place.
pub open spec fn state_after(state: LogState, event: EventView) -> Option<LogState> {
    match event {
        EventView::TurnStart { turn } => if state is Closed {
            Some(LogState::Turn { turn })
        } else {
            None
        },
        EventView::StepStart { turn, step } => if state == (LogState::Turn { turn }) {
            Some(LogState::Step { turn, step })
        } else {
            None
        },
        EventView::StepEnd { turn, step } => if state == (LogState::Step { turn, step }) {
            Some(LogState::Turn { turn })
        } else {
            None
        },
        EventView::TurnEnd { turn, .. } => if state == (LogState::Turn { turn }) {
            Some(LogState::Closed)
        } else {
            None
        },
        _ => Some(state),
    }
}

/// The state of the log after more events; `None` where one of them is out of place.
pub open spec fn state_after_all(state: LogState, events: Seq<EventView>) -> Option<LogState>
    decreases events.len(),
{
    if events.len() == 0 {
        Some(state)
    } else {
        match state_after_all(state, events.drop_last()) {
            Some(state) => state_after(state, events.last()),
            None => None,
        }
    }
}

/// How a turn that the user cancelled is closed.
pub open spec fn aborted_closing(turn: u32, step: u32) -> Seq<EventView> {
    seq![
        EventView::StepEnd { turn, step },
        EventView::TurnEnd { turn, reason: user_abort() },
    ]
}

/// That the user cancelled.
pub open spec fn user_abort() -> ReasonView {
    ReasonView::Aborted { cause: Some(AbortCause::User) }
}

/// Closes a turn that the user cancelled.
pub fn close_aborted(turn: u32, step: u32, events: &mut Vec<SessionEvent>) -> (reason: TurnEndReason)
    ensures
        reason@ == user_abort(),
        event_views(final(events)@) == event_views(old(events)@) + aborted_closing(turn, step),
{
    let ghost before = event_views(events@);
    note(events, SessionEvent::StepEnd { turn, step });
    note(
        events,
        SessionEvent::TurnEnd {
            turn,
            reason: TurnEndReason::Aborted { cause: Some(AbortCause::User) },
        },
    );
    assert(event_views(events@) =~= before + aborted_closing(turn, step));
    TurnEndReason::Aborted { cause: Some(AbortCause::User) }
}

/// What is said when the log cannot be written.
pub fn append_failure(error: &str) -> (failure: LlmFailure)
    ensures
        failure@ == error::plain_failure(
            codes::STORAGE@,
            "会话日志写入失败:"@ + error@ + "。磁盘可能已满或目录不可写。"@,
        ),
{
    let message = cat3("会话日志写入失败:", error, "。磁盘可能已满或目录不可写。");
    LlmFailure::new(codes::STORAGE, message.as_str())
}

/// What is said when the log cannot be brought to disk before a request; the request is not made.
pub fn flush_failure(error: &str) -> (failure: LlmFailure)
    ensures
        failure@ == error::plain_failure(
            codes::STORAGE@,
            "会话日志刷盘失败:"@ + error@ + "。请求未派发,避免崩溃后请求上下文不完整。"@,
        ),
{
    let message = cat3(
        "会话日志刷盘失败:",
        error,
        "。请求未派发,避免崩溃后请求上下文不完整。",
    );
    LlmFailure::new(codes::STORAGE, message.as_str())
}

} // verus!
