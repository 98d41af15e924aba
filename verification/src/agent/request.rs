//! One request to the model: what is logged of it, what its stream gives, and what becomes of a
//! failure.
use vstd::prelude::*;
use vstd::string::*;

use crate::agent::compact::{should_compact, CompactOutcome, CompactionSettings, ContextPressure};
use crate::agent::compact;
use crate::agent::errors;
use crate::agent::errors::{feedback_eligible, feedback_text, summarize_failure, MAX_FEEDBACK};
use crate::agent::log;
use crate::agent::log::{
    close_aborted, injected_message, note, EventView, HeaderView, LogState, ReasonView,
};
use crate::codes;
use crate::error;
use crate::error::{FailureView, LlmFailure};
use crate::session::{
    RequestHeaderReason, RequestHeaderSnapshot, SessionEnvelope, SessionEvent, TurnEndReason,
};
use crate::stream::{
    ContentBlock, FinishReason, LlmCallConfig, ModelSelection, StreamChunk, TokenUsage,
};
use crate::text;
use crate::text::str_eq;
use crate::tool;
use crate::tool::{ToolSchema, ToolView};

verus! {

/// The header of a request for a model, with a system prompt and tools.
pub open spec fn header_of(
    selection: ModelSelection,
    system: Seq<char>,
    tools: Seq<ToolView>,
) -> HeaderView {
    HeaderView {
        provider: selection.provider@,
        model: selection.model@,
        reasoning_effort: text::opt_view(selection.reasoning_effort),
        temperature: None,
        max_tokens: None,
        stop: Seq::empty(),
        system: Some(system),
        tools,
    }
}

/// Copies a list of tools.
fn copy_tools(tools: &[ToolSchema]) -> (copy: Vec<ToolSchema>)
    ensures
        tool::tool_views(copy@) == tool::tool_views(tools@),
{
    let ghost all = tool::tool_views(tools@);
    let mut copy: Vec<ToolSchema> = Vec::new();
    let mut i: usize = 0;
    while i < tools.len()
        invariant
            i <= tools@.len(),
            all == tool::tool_views(tools@),
            tool::tool_views(copy@) =~= all.take(i as int),
        decreases tools@.len() - i,
    {
        let schema = tools[i].clone();
        assert(tool::tool_views(copy@.push(schema)) =~= tool::tool_views(copy@).push(schema@));
        copy.push(schema);
        assert(all.take(i + 1) =~= all.take(i as int).push(all[i as int]));
        i += 1;
    }
    assert(all.take(all.len() as int) =~= all);
    copy
}

/// The header of a request.
pub fn build_header_snapshot(
    selection: &ModelSelection,
    framed_system: &str,
    tools: &[ToolSchema],
) -> (header: RequestHeaderSnapshot)
    ensures
        header@ == header_of(*selection, framed_system@, tool::tool_views(tools@)),
{
    let stop: Vec<String> = Vec::new();
    assert(text::views(stop@) =~= Seq::empty());
    RequestHeaderSnapshot {
        config: LlmCallConfig {
            provider: selection.provider.clone(),
            model: selection.model.clone(),
            reasoning_effort: selection.reasoning_effort.clone(),
            temperature: None,
            max_tokens: None,
            stop,
        },
        system: Some(framed_system.to_owned()),
        tools: copy_tools(tools),
    }
}

fn same_option(a: &Option<String>, b: &Option<String>) -> (yes: bool)
    ensures
        yes == (text::opt_view(*a) == text::opt_view(*b)),
{
    match (a, b) {
        (Some(a), Some(b)) => str_eq(a.as_str(), b.as_str()),
        (None, None) => true,
        _ => false,
    }
}

fn same_texts(a: &Vec<String>, b: &Vec<String>) -> (yes: bool)
    ensures
        yes == (text::views(a@) == text::views(b@)),
{
    let ghost (left, right) = (text::views(a@), text::views(b@));
    if a.len() != b.len() {
        assert(left.len() != right.len());
        return false;
    }
    let mut i: usize = 0;
    while i < a.len()
        invariant
            i <= a@.len() == b@.len(),
            left == text::views(a@),
            right == text::views(b@),
            forall|j: int| 0 <= j < i ==> left[j] == right[j],
        decreases a@.len() - i,
    {
        if !str_eq(a[i].as_str(), b[i].as_str()) {
            assert(left[i as int] != right[i as int]);
            return false;
        }
        i += 1;
    }
    assert(left =~= right);
    true
}

fn same_tools(a: &Vec<ToolSchema>, b: &Vec<ToolSchema>) -> (yes: bool)
    ensures
        yes == (tool::tool_views(a@) == tool::tool_views(b@)),
{
    let ghost (left, right) = (tool::tool_views(a@), tool::tool_views(b@));
    if a.len() != b.len() {
        assert(left.len() != right.len());
        return false;
    }
    let mut i: usize = 0;
    while i < a.len()
        invariant
            i <= a@.len() == b@.len(),
            left == tool::tool_views(a@),
            right == tool::tool_views(b@),
            forall|j: int| 0 <= j < i ==> left[j] == right[j],
        decreases a@.len() - i,
    {
        let same = str_eq(a[i].name.as_str(), b[i].name.as_str()) && str_eq(
            a[i].description.as_str(),
            b[i].description.as_str(),
        ) && a[i].parameters.same(&b[i].parameters);
        if !same {
            assert(left[i as int] != right[i as int]);
            return false;
        }
        i += 1;
    }
    assert(left =~= right);
    true
}

/// Whether two headers say the same.
pub fn same_header(a: &RequestHeaderSnapshot, b: &RequestHeaderSnapshot) -> (yes: bool)
    ensures
        yes == (a@ == b@),
{
    str_eq(a.config.provider.as_str(), b.config.provider.as_str()) && str_eq(
        a.config.model.as_str(),
        b.config.model.as_str(),
    ) && same_option(&a.config.reasoning_effort, &b.config.reasoning_effort) && same_option(
        &a.config.temperature,
        &b.config.temperature,
    ) && a.config.max_tokens == b.config.max_tokens && same_texts(&a.config.stop, &b.config.stop)
        && same_option(&a.system, &b.system) && same_tools(&a.tools, &b.tools)
}

/// What of the requests of a turn is logged.
pub struct RequestLog {
    /// The header that was logged last in this turn.
    pub last_header: Option<RequestHeaderSnapshot>,
    /// Whether the log holds a header at all.
    pub has_request_header: bool,
    /// The provider, the model and the context window that were logged last in this turn.
    pub last_context: Option<(String, String, Option<u64>)>,
}

pub struct RequestLogView {
    pub last_header: Option<HeaderView>,
    pub has_request_header: bool,
    pub last_context: Option<(Seq<char>, Seq<char>, Option<u64>)>,
}

impl View for RequestLog {
    type V = RequestLogView;

    open spec fn view(&self) -> RequestLogView {
        RequestLogView {
            last_header: match self.last_header {
                Some(header) => Some(header@),
                None => None,
            },
            has_request_header: self.has_request_header,
            last_context: match self.last_context {
                Some(context) => Some((context.0@, context.1@, context.2)),
                None => None,
            },
        }
    }
}

/// Why a header is logged.
pub open spec fn header_reason(logged: RequestLogView) -> RequestHeaderReason {
    if logged.last_header is Some {
        RequestHeaderReason::Change
    } else if logged.has_request_header {
        RequestHeaderReason::Resume
    } else {
        RequestHeaderReason::Initial
    }
}

/// What is logged of a request: its header where it differs from the last one, and where it goes
/// where that differs.
pub open spec fn request_events(
    turn: u32,
    step: u32,
    header: HeaderView,
    context: (Seq<char>, Seq<char>, Option<u64>),
    logged: RequestLogView,
) -> Seq<EventView> {
    let headers = if logged.last_header == Some(header) {
        Seq::empty()
    } else {
        seq![
            EventView::Header {
                turn,
                step,
                header,
                reason: header_reason(logged),
                starts_series: header_reason(logged) == RequestHeaderReason::Change,
            },
        ]
    };
    let contexts = if logged.last_context == Some(context) {
        Seq::empty()
    } else {
        seq![
            EventView::Context {
                turn,
                step,
                provider: context.0,
                model: context.1,
                context_window: context.2,
            },
        ]
    };
    headers + contexts
}

/// What is logged after that.
pub open spec fn logged_after(
    header: HeaderView,
    context: (Seq<char>, Seq<char>, Option<u64>),
    logged: RequestLogView,
) -> RequestLogView {
    RequestLogView {
        last_header: Some(header),
        has_request_header: logged.has_request_header || logged.last_header != Some(header),
        last_context: Some(context),
    }
}

/// Logs a request: its header and where it goes, each where it differs from the last one.
pub fn log_request_headers(
    logged: &mut RequestLog,
    turn: u32,
    step: u32,
    selection: &ModelSelection,
    framed_system: &str,
    tools: &[ToolSchema],
    context_window: Option<u64>,
    events: &mut Vec<SessionEvent>,
)
    ensures
        ({
            let header = header_of(*selection, framed_system@, tool::tool_views(tools@));
            let context = (selection.provider@, selection.model@, context_window);
            &&& final(logged)@ == logged_after(header, context, old(logged)@)
            &&& log::event_views(final(events)@) == log::event_views(old(events)@) + request_events(
                turn,
                step,
                header,
                context,
                old(logged)@,
            )
        }),
{
    let ghost before = log::event_views(events@);
    let ghost known = logged@;
    let header = build_header_snapshot(selection, framed_system, tools);
    let ghost view = header@;
    let same = match &logged.last_header {
        Some(last) => same_header(last, &header),
        None => false,
    };
    if !same {
        let reason = match &logged.last_header {
            None => if logged.has_request_header {
                RequestHeaderReason::Resume
            } else {
                RequestHeaderReason::Initial
            },
            Some(_) => RequestHeaderReason::Change,
        };
        let copy = build_header_snapshot(selection, framed_system, tools);
        note(
            events,
            SessionEvent::RequestHeader {
                turn,
                step,
                header: copy,
                reason,
                starts_series: reason == RequestHeaderReason::Change,
            },
        );
        logged.last_header = Some(header);
        logged.has_request_header = true;
    }
    let same = match &logged.last_context {
        Some(last) => str_eq(last.0.as_str(), selection.provider.as_str()) && str_eq(
            last.1.as_str(),
            selection.model.as_str(),
        ) && last.2 == context_window,
        None => false,
    };
    if !same {
        note(
            events,
            SessionEvent::RequestContext {
                turn,
                step,
                provider: selection.provider.clone(),
                model: selection.model.clone(),
                context_window,
            },
        );
        logged.last_context = Some(
            (selection.provider.clone(), selection.model.clone(), context_window),
        );
    }
    let ghost context = (selection.provider@, selection.model@, context_window);
    assert(log::event_views(events@) =~= before + request_events(turn, step, view, context, known));
}

/// A request that is like the last one is not logged again.
pub proof fn equal_request_is_logged_once(
    turn: u32,
    step: u32,
    header: HeaderView,
    context: (Seq<char>, Seq<char>, Option<u64>),
    logged: RequestLogView,
)
    ensures
        request_events(turn, step, header, context, logged_after(header, context, logged))
            == Seq::<EventView>::empty(),
{
}

/// What one attempt has brought so far.
pub struct Attempt {
    pub blocks: Vec<ContentBlock>,
    /// Where its chunks stand in the log.
    pub sources: Vec<u64>,
    pub usage: Option<TokenUsage>,
    pub finish: Option<FinishReason>,
}

pub struct AttemptView {
    pub blocks: Seq<ContentBlock>,
    pub sources: Seq<u64>,
    pub usage: Option<TokenUsage>,
    pub finish: Option<FinishReason>,
}

impl View for Attempt {
    type V = AttemptView;

    open spec fn view(&self) -> AttemptView {
        AttemptView {
            blocks: self.blocks@,
            sources: self.sources@,
            usage: self.usage,
            finish: self.finish,
        }
    }
}

/// An attempt that has brought nothing.
pub open spec fn nothing_yet() -> AttemptView {
    AttemptView { blocks: Seq::empty(), sources: Seq::empty(), usage: None, finish: None }
}

/// An attempt after one more chunk. Only finished blocks count.
pub open spec fn with_chunk(attempt: AttemptView, chunk: StreamChunk, seq: u64) -> AttemptView {
    let sources = attempt.sources.push(seq);
    match chunk {
        StreamChunk::BlockEnd { block, .. } => AttemptView {
            blocks: attempt.blocks.push(block),
            sources,
            ..attempt
        },
        StreamChunk::Usage { usage } => AttemptView { usage: Some(usage), sources, ..attempt },
        StreamChunk::Finish { reason } => AttemptView { finish: Some(reason), sources, ..attempt },
        _ => AttemptView { sources, ..attempt },
    }
}

impl Attempt {
    /// An attempt that has brought nothing.
    pub fn new() -> (attempt: Self)
        ensures
            attempt@ == nothing_yet(),
    {
        Attempt { blocks: Vec::new(), sources: Vec::new(), usage: None, finish: None }
    }

    /// Takes up a chunk that stands at `seq` in the log.
    pub fn take(&mut self, chunk: StreamChunk, seq: u64)
        ensures
            final(self)@ == with_chunk(old(self)@, chunk, seq),
    {
        self.sources.push(seq);
        match chunk {
            StreamChunk::BlockEnd { index: _, block } => {
                self.blocks.push(block);
            },
            StreamChunk::Usage { usage } => {
                self.usage = Some(usage);
            },
            StreamChunk::Finish { reason } => {
                self.finish = Some(reason);
            },
            _ => {},
        }
    }
}

/// The failure of an attempt: that of its stream, or the one that it finished with.
pub open spec fn failure_of(
    finish: Option<FinishReason>,
    stream_error: Option<FailureView>,
) -> Option<FailureView> {
    match stream_error {
        Some(failure) => Some(failure),
        None => match finish {
            Some(FinishReason::Error { failure }) => Some(failure@),
            Some(FinishReason::Aborted { failure }) => Some(failure@),
            _ => None,
        },
    }
}

/// What the retry policy says of a failure.
pub struct Backoff {
    /// Whether failures of this code are tried again.
    pub retryable: bool,
    /// How often at most.
    pub max_retries: u32,
    /// How long to wait before the next attempt.
    pub delay_ms: u64,
}

/// What a request came to.
pub enum RequestOutcome {
    /// The model's message is logged.
    Step { blocks: Vec<ContentBlock>, finish: Option<FinishReason> },
    /// The turn is closed.
    TurnEnded(TurnEndReason),
    /// The model was told of the failure, and a new step begins.
    RestartStep,
}

/// What follows from the end of an attempt.
pub enum AttemptEnd {
    Done(RequestOutcome),
    /// The request is made again after a pause.
    Wait { delay_ms: u64, attempt: Attempt },
}

pub enum EndView {
    Step { blocks: Seq<ContentBlock>, finish: Option<FinishReason> },
    Ended { reason: ReasonView },
    Restart,
    Wait { delay_ms: u64, attempt: AttemptView },
}

pub open spec fn outcome_view(outcome: RequestOutcome) -> EndView {
    match outcome {
        RequestOutcome::Step { blocks, finish } => EndView::Step { blocks: blocks@, finish },
        RequestOutcome::TurnEnded(reason) => EndView::Ended { reason: reason@ },
        RequestOutcome::RestartStep => EndView::Restart,
    }
}

impl View for AttemptEnd {
    type V = EndView;

    open spec fn view(&self) -> EndView {
        match *self {
            AttemptEnd::Done(outcome) => outcome_view(outcome),
            AttemptEnd::Wait { delay_ms, attempt } => EndView::Wait { delay_ms, attempt: attempt@ },
        }
    }
}

/// What is logged and done at the end of an attempt, how often the request was tried again, and
/// how often the model has been told of a mistake.
pub struct AttemptPlan {
    pub events: Seq<EventView>,
    pub next: EndView,
    pub retries: u32,
    pub feedback: u32,
}

/// What an attempt has brought, as a message.
pub open spec fn answer(turn: u32, step: u32, attempt: AttemptView, interrupted: bool) -> EventView {
    EventView::Answer {
        turn,
        step,
        blocks: attempt.blocks,
        usage: attempt.usage,
        interrupted,
        sources: attempt.sources,
    }
}

/// A failure that is not tried again: the model is told of it, where it can do something about it
/// and the quota lasts; else the turn ends with words for the user.
pub open spec fn giving_up(
    turn: u32,
    step: u32,
    failure: FailureView,
    retries: u32,
    feedback: u32,
) -> AttemptPlan {
    if errors::is_feedback_eligible(failure.code) && feedback < MAX_FEEDBACK {
        AttemptPlan {
            events: seq![
                EventView::StepEnd { turn, step },
                log::injection("feedback"@, errors::feedback(failure)),
            ],
            next: EndView::Restart,
            retries,
            feedback: (feedback + 1) as u32,
        }
    } else {
        let reason = ReasonView::Error {
            failure: FailureView { message: errors::summary_text(failure, retries), ..failure },
        };
        AttemptPlan {
            events: seq![EventView::StepEnd { turn, step }, EventView::TurnEnd { turn, reason }],
            next: EndView::Ended { reason },
            retries,
            feedback,
        }
    }
}

/// What follows from the end of an attempt.
///
/// A user who cancels ends the turn, and what came so far is kept. A failure is tried again as long
/// as the policy says so; what came of a failed attempt stays out of the history.
pub open spec fn attempt_plan(
    turn: u32,
    step: u32,
    attempt: AttemptView,
    stream_error: Option<FailureView>,
    interrupted: bool,
    cancelled: bool,
    backoff: Backoff,
    retries: u32,
    feedback: u32,
) -> AttemptPlan {
    if interrupted {
        AttemptPlan {
            events: seq![answer(turn, step, attempt, true)] + log::aborted_closing(turn, step),
            next: EndView::Ended { reason: log::user_abort() },
            retries,
            feedback,
        }
    } else {
        match failure_of(attempt.finish, stream_error) {
            Some(failure) => if backoff.retryable && retries < backoff.max_retries && !cancelled {
                AttemptPlan {
                    events: seq![
                        EventView::Retry {
                            turn,
                            step,
                            attempt: (retries + 1) as u32,
                            code: failure.code,
                            message: failure.message,
                            delay_ms: backoff.delay_ms,
                        },
                    ],
                    next: EndView::Wait { delay_ms: backoff.delay_ms, attempt },
                    retries: (retries + 1) as u32,
                    feedback,
                }
            } else {
                giving_up(turn, step, failure, retries, feedback)
            },
            None => AttemptPlan {
                events: seq![answer(turn, step, attempt, false)],
                next: EndView::Step { blocks: attempt.blocks, finish: attempt.finish },
                retries,
                feedback,
            },
        }
    }
}

/// What follows from a failure that is not tried again.
pub fn give_up(
    turn: u32,
    step: u32,
    failure: &LlmFailure,
    retries: u32,
    feedback: &mut u32,
    events: &mut Vec<SessionEvent>,
) -> (outcome: RequestOutcome)
    ensures
        ({
            let plan = giving_up(turn, step, failure@, retries, *old(feedback));
            &&& *final(feedback) == plan.feedback
            &&& outcome_view(outcome) == plan.next
            &&& log::event_views(final(events)@) == log::event_views(old(events)@) + plan.events
        }),
{
    let ghost before = log::event_views(events@);
    let ghost plan = giving_up(turn, step, failure@, retries, *feedback);
    note(events, SessionEvent::StepEnd { turn, step });
    if feedback_eligible(failure.code.as_str()) && *feedback < MAX_FEEDBACK {
        *feedback = *feedback + 1;
        note(events, injected_message("feedback", feedback_text(failure)));
        assert(log::event_views(events@) =~= before + plan.events);
        return RequestOutcome::RestartStep;
    }
    let summarized = summarize_failure(failure, retries);
    let copy = summarized.clone();
    note(events, SessionEvent::TurnEnd { turn, reason: TurnEndReason::Error { failure: copy } });
    assert(log::event_views(events@) =~= before + plan.events);
    RequestOutcome::TurnEnded(TurnEndReason::Error { failure: summarized })
}

/// Copies the blocks of an answer.
fn copy_blocks(blocks: &Vec<ContentBlock>) -> (copy: Vec<ContentBlock>)
    ensures
        copy@ == blocks@,
{
    let copy = blocks.clone();
    assert(copy@ =~= blocks@);
    copy
}

/// Logs what a cancelled attempt has brought, and closes the turn.
fn close_interrupted(turn: u32, step: u32, attempt: Attempt, events: &mut Vec<SessionEvent>) -> (outcome:
    RequestOutcome)
    ensures
        outcome_view(outcome) == (EndView::Ended { reason: log::user_abort() }),
        log::event_views(final(events)@) == log::event_views(old(events)@) + (seq![
            answer(turn, step, attempt@, true),
        ] + log::aborted_closing(turn, step)),
{
    let ghost before = log::event_views(events@);
    let ghost view = attempt@;
    note(
        events,
        SessionEvent::AssistantMessage {
            turn,
            step,
            blocks: attempt.blocks,
            usage: attempt.usage,
            interrupted: true,
            source_event_seqs: attempt.sources,
        },
    );
    let reason = close_aborted(turn, step, events);
    assert(log::event_views(events@) =~= before + (seq![answer(turn, step, view, true)]
        + log::aborted_closing(turn, step)));
    RequestOutcome::TurnEnded(reason)
}

/// The failure of an attempt: that of its stream, or the one that it finished with.
pub fn attempt_failure(finish: &Option<FinishReason>, stream_error: Option<LlmFailure>) -> (failure:
    Option<LlmFailure>)
    ensures
        failure_of(
            *finish,
            match stream_error {
                Some(failure) => Some(failure@),
                None => None,
            },
        ) == (match failure {
            Some(failure) => Some(failure@),
            None => None::<FailureView>,
        }),
{
    match stream_error {
        Some(failure) => Some(failure),
        None => match finish {
            Some(FinishReason::Error { failure }) => Some(failure.clone()),
            Some(FinishReason::Aborted { failure }) => Some(failure.clone()),
            _ => None,
        },
    }
}

/// What follows from the end of an attempt. `interrupted` says that the user cancelled while the
/// stream ran, and `cancelled` that the user has cancelled by now.
pub fn conclude_attempt(
    turn: u32,
    step: u32,
    attempt: Attempt,
    stream_error: Option<LlmFailure>,
    interrupted: bool,
    cancelled: bool,
    backoff: &Backoff,
    retries: &mut u32,
    feedback: &mut u32,
    events: &mut Vec<SessionEvent>,
) -> (end: AttemptEnd)
    ensures
        ({
            let plan = attempt_plan(
                turn,
                step,
                attempt@,
                match stream_error {
                    Some(failure) => Some(failure@),
                    None => None,
                },
                interrupted,
                cancelled,
                *backoff,
                *old(retries),
                *old(feedback),
            );
            &&& *final(retries) == plan.retries
            &&& *final(feedback) == plan.feedback
            &&& end@ == plan.next
            &&& log::event_views(final(events)@) == log::event_views(old(events)@) + plan.events
        }),
{
    let ghost before = log::event_views(events@);
    if interrupted {
        return AttemptEnd::Done(close_interrupted(turn, step, attempt, events));
    }
    match attempt_failure(&attempt.finish, stream_error) {
        Some(failure) => {
            if backoff.retryable && *retries < backoff.max_retries && !cancelled {
                *retries = *retries + 1;
                let retry = SessionEvent::RetryAttempt {
                    turn,
                    step,
                    attempt: *retries,
                    code: failure.code.clone(),
                    message: failure.message.clone(),
                    delay_ms: backoff.delay_ms,
                };
                let ghost noted = retry@;
                note(events, retry);
                assert(log::event_views(events@) =~= before + seq![noted]);
                return AttemptEnd::Wait { delay_ms: backoff.delay_ms, attempt };
            }
            AttemptEnd::Done(give_up(turn, step, &failure, *retries, feedback, events))
        },
        None => {
            let Attempt { blocks, sources, usage, finish } = attempt;
            let message = SessionEvent::AssistantMessage {
                turn,
                step,
                blocks: copy_blocks(&blocks),
                usage,
                interrupted: false,
                source_event_seqs: sources,
            };
            let ghost noted = message@;
            note(events, message);
            assert(log::event_views(events@) =~= before + seq![noted]);
            AttemptEnd::Done(RequestOutcome::Step { blocks, finish })
        },
    }
}

/// What is logged where the user cancelled during the pause before an attempt.
pub open spec fn cancelled_wait(turn: u32, step: u32, attempt: AttemptView) -> Seq<EventView> {
    if attempt.sources.len() > 0 {
        seq![answer(turn, step, attempt, true)] + log::aborted_closing(turn, step)
    } else {
        log::aborted_closing(turn, step)
    }
}

/// What follows from the pause before an attempt: `None` where the request is made again. What the
/// failed attempt has brought is kept where the user cancelled.
pub fn after_wait(
    turn: u32,
    step: u32,
    attempt: Attempt,
    cancelled: bool,
    events: &mut Vec<SessionEvent>,
) -> (outcome: Option<RequestOutcome>)
    ensures
        cancelled <==> outcome is Some,
        outcome matches Some(outcome) ==> outcome_view(outcome) == (EndView::Ended {
            reason: log::user_abort(),
        }),
        log::event_views(final(events)@) == (if cancelled {
            log::event_views(old(events)@) + cancelled_wait(turn, step, attempt@)
        } else {
            log::event_views(old(events)@)
        }),
{
    if !cancelled {
        return None;
    }
    if attempt.sources.len() > 0 {
        return Some(close_interrupted(turn, step, attempt, events));
    }
    Some(RequestOutcome::TurnEnded(close_aborted(turn, step, events)))
}

/// Whatever comes of an attempt, the log stays in balance: the turn is closed where it ends, the
/// step is closed where a new one begins, and the step is open where it goes on.
pub proof fn request_keeps_the_log_balanced(
    turn: u32,
    step: u32,
    attempt: AttemptView,
    stream_error: Option<FailureView>,
    interrupted: bool,
    cancelled: bool,
    backoff: Backoff,
    retries: u32,
    feedback: u32,
)
    ensures
        ({
            let plan = attempt_plan(
                turn,
                step,
                attempt,
                stream_error,
                interrupted,
                cancelled,
                backoff,
                retries,
                feedback,
            );
            log::state_after_all(LogState::Step { turn, step }, plan.events) == Some(
                match plan.next {
                    EndView::Ended { .. } => LogState::Closed,
                    EndView::Restart => LogState::Turn { turn },
                    _ => LogState::Step { turn, step },
                },
            )
        }),
        log::state_after_all(
            LogState::Step { turn, step },
            cancelled_wait(turn, step, attempt),
        ) == Some(LogState::Closed),
{
    reveal_with_fuel(log::state_after_all, 4);
}

/// A request is tried again at most as often as the policy says, and never once the user has
/// cancelled.
pub proof fn retries_are_bounded(
    turn: u32,
    step: u32,
    attempt: AttemptView,
    stream_error: Option<FailureView>,
    interrupted: bool,
    cancelled: bool,
    backoff: Backoff,
    retries: u32,
    feedback: u32,
)
    requires
        retries <= backoff.max_retries,
    ensures
        ({
            let plan = attempt_plan(
                turn,
                step,
                attempt,
                stream_error,
                interrupted,
                cancelled,
                backoff,
                retries,
                feedback,
            );
            &&& plan.retries <= backoff.max_retries
            &&& plan.next is Wait ==> plan.retries == retries + 1 && !cancelled && !interrupted
        }),
{
}

/// A failed attempt leaves no message of the model behind, unless the user cancelled.
pub proof fn failed_attempt_leaves_no_message(
    turn: u32,
    step: u32,
    attempt: AttemptView,
    stream_error: Option<FailureView>,
    cancelled: bool,
    backoff: Backoff,
    retries: u32,
    feedback: u32,
    i: int,
)
    requires
        failure_of(attempt.finish, stream_error) is Some,
    ensures
        ({
            let plan = attempt_plan(
                turn,
                step,
                attempt,
                stream_error,
                false,
                cancelled,
                backoff,
                retries,
                feedback,
            );
            0 <= i < plan.events.len() ==> !(plan.events[i] is Answer)
        }),
{
}

/// Whether a compaction is made before a request: where the pressure calls for one, unless too many
/// have failed in a row. `reached` says whether the pressure has reached the set ratio.
pub fn compaction_due(
    pressure: &ContextPressure,
    settings: &CompactionSettings,
    reached: bool,
    failures: u32,
) -> (due: bool)
    ensures
        due == (settings.compact_enabled && compact::known_pressure(*pressure) is Some && reached
            && failures < settings.max_attempts),
{
    should_compact(pressure, settings, reached) && failures < settings.max_attempts
}

/// What a compaction came to.
pub enum CompactionResult {
    Done(CompactOutcome),
    /// There was nothing to fold.
    Nothing,
    Failed,
}

/// The failures in a row after a compaction: one that was made clears them, and one that found
/// nothing to fold does not count.
pub open spec fn failures_after(result: CompactionResult, failures: u32) -> u32 {
    match result {
        CompactionResult::Done(_) => 0,
        CompactionResult::Nothing => failures,
        CompactionResult::Failed => (failures + 1) as u32,
    }
}

/// What is logged of a compaction.
pub open spec fn compaction_events(turn: u32, step: u32, result: CompactionResult) -> Seq<EventView> {
    match result {
        CompactionResult::Done(outcome) => seq![
            EventView::Summary {
                turn,
                step,
                summary: outcome.summary@,
                replaces_from: outcome.replaces_from,
                replaces_to: outcome.replaces_to,
                keep_from: outcome.keep_from,
                pre_tokens: outcome.pre_tokens,
                post_tokens: outcome.post_tokens,
            },
        ],
        _ => Seq::empty(),
    }
}

/// Takes up what a compaction came to.
pub fn settle_compaction(
    turn: u32,
    step: u32,
    result: CompactionResult,
    failures: &mut u32,
    events: &mut Vec<SessionEvent>,
)
    requires
        *old(failures) < u32::MAX,
    ensures
        *final(failures) == failures_after(result, *old(failures)),
        log::event_views(final(events)@) == log::event_views(old(events)@) + compaction_events(
            turn,
            step,
            result,
        ),
{
    let ghost before = log::event_views(events@);
    let ghost came = compaction_events(turn, step, result);
    match result {
        CompactionResult::Done(outcome) => {
            *failures = 0;
            note(
                events,
                SessionEvent::CompactionSummary {
                    turn,
                    step,
                    summary: outcome.summary,
                    replaces_from: outcome.replaces_from,
                    replaces_to: outcome.replaces_to,
                    keep_from: outcome.keep_from,
                    pre_tokens: outcome.pre_tokens,
                    post_tokens: outcome.post_tokens,
                },
            );
        },
        CompactionResult::Nothing => {},
        CompactionResult::Failed => {
            *failures = *failures + 1;
        },
    }
    assert(log::event_views(events@) =~= before + came);
}

/// Room that is left in the context window beside the summary.
pub const COMPACTION_BUFFER: u64 = 13_000;

/// The number of tokens from which on a summary is called for: the window less the room for the
/// summary and a buffer. `None` where the window is not known.
pub fn compaction_threshold_tokens(
    pressure: &ContextPressure,
    settings: &CompactionSettings,
) -> (tokens: Option<u64>)
    ensures
        match tokens {
            Some(tokens) => {
                let left = pressure.context_window->0 - settings.summary_max_tokens
                    - COMPACTION_BUFFER;
                &&& pressure.context_window matches Some(window) && window > 0
                &&& tokens == (if left > 0 {
                    left
                } else {
                    0
                })
            },
            None => pressure.context_window is None || pressure.context_window == Some(0u64),
        },
{
    match pressure.context_window {
        Some(window) => {
            if window == 0 {
                return None;
            }
            let reserve = if settings.summary_max_tokens < window {
                settings.summary_max_tokens
            } else {
                window
            };
            let effective: u64 = window - reserve;
            if effective < COMPACTION_BUFFER {
                Some(0)
            } else {
                Some(effective - COMPACTION_BUFFER)
            }
        },
        None => None,
    }
}

/// How the last request of a session was made, for a compaction that the user calls for.
pub struct LastRequest {
    pub selection: ModelSelection,
    pub framed_system: String,
    pub tools: Vec<ToolSchema>,
    /// The last turn of the log.
    pub turn: u32,
}

/// The last header of a log.
pub open spec fn last_header(events: Seq<SessionEnvelope>) -> Option<HeaderView>
    decreases events.len(),
{
    if events.len() == 0 {
        None
    } else {
        match events.last().event {
            SessionEvent::RequestHeader { header, .. } => Some(header@),
            _ => last_header(events.drop_last()),
        }
    }
}

/// The last turn of a log.
pub open spec fn last_turn(events: Seq<SessionEnvelope>) -> u32
    decreases events.len(),
{
    if events.len() == 0 {
        0
    } else {
        match events.last().event {
            SessionEvent::TurnStart { turn } => turn,
            _ => last_turn(events.drop_last()),
        }
    }
}

fn find_last_turn(events: &[SessionEnvelope]) -> (turn: u32)
    ensures
        turn == last_turn(events@),
{
    let mut i: usize = events.len();
    assert(events@.take(i as int) =~= events@);
    while i > 0
        invariant
            i <= events@.len(),
            last_turn(events@) == last_turn(events@.take(i as int)),
        decreases i,
    {
        assert(events@.take(i as int).drop_last() =~= events@.take(i - 1));
        i -= 1;
        if let SessionEvent::TurnStart { turn } = &events[i].event {
            return *turn;
        }
    }
    0
}

fn find_last_header(events: &[SessionEnvelope]) -> (header: Option<&RequestHeaderSnapshot>)
    ensures
        last_header(events@) == (match header {
            Some(header) => Some(header@),
            None => None::<HeaderView>,
        }),
{
    let mut i: usize = events.len();
    assert(events@.take(i as int) =~= events@);
    while i > 0
        invariant
            i <= events@.len(),
            last_header(events@) == last_header(events@.take(i as int)),
        decreases i,
    {
        assert(events@.take(i as int).drop_last() =~= events@.take(i - 1));
        i -= 1;
        if let SessionEvent::RequestHeader { header, .. } = &events[i].event {
            return Some(header);
        }
    }
    None
}

/// Whether a log has a header.
pub fn has_request_header(events: &[SessionEnvelope]) -> (yes: bool)
    ensures
        yes == last_header(events@) is Some,
{
    find_last_header(events).is_some()
}

/// Why a compaction that the user calls for is refused, if it is.
pub open spec fn manual_refusal(enabled: bool, header: Option<HeaderView>) -> Option<FailureView> {
    if !enabled {
        Some(error::plain_failure(codes::UNKNOWN@, "本会话的 agent 组装未启用上下文压缩"@))
    } else if header is None {
        Some(error::plain_failure(codes::UNKNOWN@, "session has no request header to restore"@))
    } else {
        None
    }
}

/// How the request of a compaction that the user calls for is made: as the last one was.
pub fn restore_request(events: &[SessionEnvelope], enabled: bool) -> (request: Result<
    LastRequest,
    LlmFailure,
>)
    ensures
        match request {
            Ok(request) => {
                let header = last_header(events@)->0;
                &&& manual_refusal(enabled, last_header(events@)) is None
                &&& request.selection.provider@ == header.provider
                &&& request.selection.model@ == header.model
                &&& text::opt_view(request.selection.reasoning_effort) == header.reasoning_effort
                &&& request.framed_system@ == (match header.system {
                    Some(system) => system,
                    None => Seq::empty(),
                })
                &&& tool::tool_views(request.tools@) == header.tools
                &&& request.turn == last_turn(events@)
            },
            Err(failure) => manual_refusal(enabled, last_header(events@)) == Some(failure@),
        },
{
    if !enabled {
        return Err(LlmFailure::new(codes::UNKNOWN, "本会话的 agent 组装未启用上下文压缩"));
    }
    match find_last_header(events) {
        Some(header) => {
            let framed_system = match &header.system {
                Some(system) => system.clone(),
                None => String::new(),
            };
            Ok(
                LastRequest {
                    selection: ModelSelection {
                        provider: header.config.provider.clone(),
                        model: header.config.model.clone(),
                        reasoning_effort: header.config.reasoning_effort.clone(),
                    },
                    framed_system,
                    tools: copy_tools(header.tools.as_slice()),
                    turn: find_last_turn(events),
                },
            )
        },
        None => Err(LlmFailure::new(codes::UNKNOWN, "session has no request header to restore")),
    }
}

} // verus!
