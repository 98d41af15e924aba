//! The course of a turn, from the user's message to its end.
//!
//! Whoever runs a turn does what an [`Act`] says and hands back what happened, until the turn ends.
//! What is to be logged comes with each act, and is logged before it is done.
use vstd::prelude::*;
use vstd::string::*;

use crate::agent::compact;
use crate::agent::compact::{CompactionSettings, ContextPressure};
use crate::agent::errors::MAX_FEEDBACK;
use crate::agent::injections;
use crate::agent::injections::{
    refresh_background_injections, Background, BaselinesView, Injection, InjectionBaselines,
    InjectionView,
};
use crate::agent::log;
use crate::agent::log::{close_aborted, injected_message, note, EventView, LogState, ReasonView};
use crate::agent::loop_guard;
use crate::agent::loop_guard::{GuardView, LoopGuard};
use crate::agent::request;
use crate::agent::request::{
    after_wait, compaction_due, conclude_attempt, give_up, has_request_header, log_request_headers,
    settle_compaction, Attempt, AttemptEnd, AttemptView, Backoff, CompactionResult, EndView, RequestLog,
    RequestLogView, RequestOutcome,
};
use crate::agent::runtime_context;
use crate::agent::runtime_context::RuntimeContextProjection;
use crate::agent::turn;
use crate::agent::turn::{
    after_answer, close_unassembled, gesture_message, last_request_header_system,
    restore_system_update, settle_system, should_log_system_prompt, turn_step_next, MoveView,
    StepMove, SYSTEM_UPDATE_CHANNEL,
};
use crate::agent::rescue::RescuedView;
use crate::codes;
use crate::error;
use crate::error::{FailureView, LlmFailure};
use crate::message;
use crate::message::{CallView, ToolCallRef};
use crate::session::{RequestHeaderReason, SessionEnvelope, SessionEvent, TurnEndReason};
use crate::stream::{FinishReason, ModelSelection};
use crate::text;
use crate::tool;
use crate::tool::ToolSchema;

verus! {

/// The skill that the user called for.
pub struct Gesture {
    pub name: String,
    pub source: String,
    pub body: String,
}

pub open spec fn gesture_view(gesture: Option<Gesture>) -> Option<(Seq<char>, Seq<char>, Seq<char>)> {
    match gesture {
        Some(skill) => Some((skill.name@, skill.source@, skill.body@)),
        None => None,
    }
}

/// Where a turn stands.
pub enum Phase {
    /// No step is open, and the background is gathered.
    Gathering,
    /// The prompt of a step is put together.
    Assembling { step: u32 },
    /// It is weighed whether the history is folded.
    Weighing { step: u32 },
    /// The history is folded.
    Compacting { step: u32 },
    /// A request is under way; it was tried again so often.
    Requesting { step: u32, retries: u32 },
    /// The pause before a request is tried again.
    Pausing { step: u32, retries: u32, attempt: Attempt },
    /// Calls are carried out.
    Running { step: u32 },
    /// The turn has ended.
    Closed,
}

pub enum PhaseView {
    Gathering,
    Assembling { step: u32 },
    Weighing { step: u32 },
    Compacting { step: u32 },
    Requesting { step: u32, retries: u32 },
    Pausing { step: u32, retries: u32, attempt: AttemptView },
    Running { step: u32 },
    Closed,
}

impl View for Phase {
    type V = PhaseView;

    open spec fn view(&self) -> PhaseView {
        match *self {
            Phase::Gathering => PhaseView::Gathering,
            Phase::Assembling { step } => PhaseView::Assembling { step },
            Phase::Weighing { step } => PhaseView::Weighing { step },
            Phase::Compacting { step } => PhaseView::Compacting { step },
            Phase::Requesting { step, retries } => PhaseView::Requesting { step, retries },
            Phase::Pausing { step, retries, attempt } => PhaseView::Pausing {
                step,
                retries,
                attempt: attempt@,
            },
            Phase::Running { step } => PhaseView::Running { step },
            Phase::Closed => PhaseView::Closed,
        }
    }
}

/// A turn under way.
pub struct Course {
    pub turn: u32,
    pub phase: Phase,
    /// How often the model has been told of a mistake.
    pub feedback: u32,
    /// How many compactions have failed in a row, this turn's and earlier ones.
    pub failures: u32,
    pub baselines: InjectionBaselines,
    pub projection: RuntimeContextProjection,
    /// The skill that the user called for, until the model has been told.
    pub gesture: Option<Gesture>,
    /// The system prompt of the last request before the turn.
    pub frozen: Option<String>,
    /// The system prompt that the model was told of last.
    pub told: Option<String>,
    /// The part of the system prompt for the user that was logged last.
    pub last_prompt: Option<String>,
    pub logged: RequestLog,
    pub guard: LoopGuard,
}

pub struct CourseView {
    pub turn: u32,
    pub phase: PhaseView,
    pub feedback: u32,
    pub failures: u32,
    pub baselines: BaselinesView,
    pub projection: Option<Seq<char>>,
    pub gesture: Option<(Seq<char>, Seq<char>, Seq<char>)>,
    pub frozen: Option<Seq<char>>,
    pub told: Option<Seq<char>>,
    pub last_prompt: Option<Seq<char>>,
    pub logged: RequestLogView,
    pub guard: GuardView,
}

impl View for Course {
    type V = CourseView;

    open spec fn view(&self) -> CourseView {
        CourseView {
            turn: self.turn,
            phase: self.phase@,
            feedback: self.feedback,
            failures: self.failures,
            baselines: self.baselines@,
            projection: self.projection@,
            gesture: gesture_view(self.gesture),
            frozen: text::opt_view(self.frozen),
            told: text::opt_view(self.told),
            last_prompt: text::opt_view(self.last_prompt),
            logged: self.logged@,
            guard: self.guard@,
        }
    }
}

/// The prompt of a step.
pub struct StepPrompt {
    /// The context that changes while the session runs.
    pub context: String,
    /// What says that there is no such context any more.
    pub cleared: String,
    /// The part of the system prompt that the user sees.
    pub for_user: String,
    /// The system prompt as the model gets it.
    pub for_model: String,
    pub tools: Vec<ToolSchema>,
}

/// What happened.
pub enum Happened {
    /// The background was gathered, where there is a runtime that knows of any.
    Gathered { background: Option<Background> },
    /// The prompt was put together, for a model with a context window.
    Assembled { prompt: StepPrompt, selection: ModelSelection, context_window: Option<u64> },
    /// The prompt could not be put together.
    NotAssembled { error: String },
    /// The pressure on the context was weighed; `reached` says whether it has reached the set
    /// ratio.
    Weighed { pressure: ContextPressure, settings: CompactionSettings, reached: bool },
    /// The history was folded, or not.
    Compacted { result: CompactionResult },
    /// The user cancelled before the stream began.
    Cancelled,
    /// The stream did not begin.
    Refused { failure: LlmFailure },
    /// The stream has ended. `interrupted` says that the user cancelled while it ran, and
    /// `cancelled` that the user has cancelled by now.
    Streamed {
        attempt: Attempt,
        stream_error: Option<LlmFailure>,
        interrupted: bool,
        cancelled: bool,
        backoff: Backoff,
    },
    /// The pause is over.
    Paused { cancelled: bool },
    /// The calls have been carried out.
    Ran,
}

/// What is done next.
pub enum Act {
    /// The background is gathered.
    Gather,
    /// The prompt of a step is put together.
    Assemble { step: u32 },
    /// The pressure on the context is weighed. The request that follows has this system prompt.
    Weigh { step: u32, system: String },
    /// The history is folded.
    Compact,
    /// The log is brought to disk, and the request is made.
    Request,
    /// The request is made again after a pause.
    Pause { delay_ms: u64 },
    /// The calls are carried out.
    Run { step: u32, calls: Vec<ToolCallRef> },
    /// Nothing: the turn has ended.
    End { reason: TurnEndReason },
}

pub enum ActView {
    Gather,
    Assemble { step: u32 },
    Weigh { step: u32, system: Seq<char> },
    Compact,
    Request,
    Pause { delay_ms: u64 },
    Run { step: u32, calls: Seq<CallView> },
    /// The calls that an answer wrote into its text.
    Rescue { step: u32, calls: Seq<RescuedView> },
    End { reason: ReasonView },
}

/// Whether an act is the one that is planned.
pub open spec fn does(act: Act, planned: ActView) -> bool {
    match planned {
        ActView::Gather => act is Gather,
        ActView::Assemble { step } => act == (Act::Assemble { step }),
        ActView::Weigh { step, system } => act matches Act::Weigh { step: of, system: sent } && of
            == step && sent@ == system,
        ActView::Compact => act is Compact,
        ActView::Request => act is Request,
        ActView::Pause { delay_ms } => act == (Act::Pause { delay_ms }),
        ActView::Run { step, calls } => act matches Act::Run { step: of, calls: made } && of == step
            && message::call_views(made@) == calls,
        ActView::Rescue { step, calls } => act matches Act::Run { step: of, calls: made } && of
            == step && turn::stand_for(message::call_views(made@), calls),
        ActView::End { reason } => act matches Act::End { reason: ended } && ended@ == reason,
    }
}

/// Whether something can happen to a turn.
pub open spec fn fits(course: CourseView, happened: Happened, log: Seq<SessionEnvelope>) -> bool {
    match course.phase {
        PhaseView::Gathering => happened is Gathered && log.len() < u32::MAX,
        PhaseView::Assembling { .. } => happened is Assembled || happened is NotAssembled,
        PhaseView::Weighing { .. } => happened is Weighed,
        PhaseView::Compacting { .. } => happened is Compacted && course.failures < u32::MAX,
        PhaseView::Requesting { .. } => {
            ||| happened is Cancelled
            ||| happened is Refused
            ||| happened is Streamed && loop_guard::longest_run(course.guard) < u32::MAX
        },
        PhaseView::Pausing { .. } => happened is Paused,
        PhaseView::Running { .. } => happened is Ran,
        PhaseView::Closed => false,
    }
}

/// What follows from what happened.
pub struct CourseStep {
    pub next: CourseView,
    /// What is logged.
    pub events: Seq<EventView>,
    pub act: ActView,
}

/// Messages of the harness, as they are logged.
pub open spec fn injection_events(list: Seq<InjectionView>) -> Seq<EventView> {
    list.map_values(|injection: InjectionView| log::injection(injection.channel, injection.text))
}

/// What is told of the background before a step.
pub open spec fn background_events(
    background: Option<Background>,
    baselines: BaselinesView,
) -> Seq<EventView> {
    match background {
        Some(background) => injection_events(injections::injected(background, baselines)),
        None => Seq::empty(),
    }
}

/// The background before a step, and the start of the step.
pub open spec fn begun(
    course: CourseView,
    background: Option<Background>,
    log: Seq<SessionEnvelope>,
) -> CourseStep {
    let step = (turn::steps_begun(log, course.turn) + 1) as u32;
    CourseStep {
        next: CourseView {
            phase: PhaseView::Assembling { step },
            baselines: match background {
                Some(background) => injections::after_injection(background, course.baselines),
                None => course.baselines,
            },
            ..course
        },
        events: background_events(background, course.baselines).push(
            EventView::StepStart { turn: course.turn, step },
        ),
        act: ActView::Assemble { step },
    }
}

/// The message with the context that changed, if it did.
pub open spec fn context_events(snapshot: Option<Seq<char>>) -> Seq<EventView> {
    match snapshot {
        Some(snapshot) => seq![log::injection("runtime-context"@, snapshot)],
        None => Seq::empty(),
    }
}

/// Whether the part of the system prompt for the user is logged.
pub open spec fn logs_prompt(last: Option<Seq<char>>, step: u32, prompt: Seq<char>) -> bool {
    step == 1 || last != Some(prompt)
}

/// The part of the system prompt for the user, where it is logged.
pub open spec fn prompt_events(
    turn: u32,
    step: u32,
    last: Option<Seq<char>>,
    prompt: Seq<char>,
) -> Seq<EventView> {
    if logs_prompt(last, step, prompt) {
        seq![EventView::SystemPrompt { turn, step, text: prompt }]
    } else {
        Seq::empty()
    }
}

/// The message with a changed system prompt, where the model has to be told.
pub open spec fn update_events(course: CourseView, prompt: Seq<char>) -> Seq<EventView> {
    if turn::tells_update(course.frozen, course.told, prompt) {
        seq![log::injection(SYSTEM_UPDATE_CHANNEL@, turn::system_update(prompt))]
    } else {
        Seq::empty()
    }
}

/// The text of the skill that the user called for, if there is one.
pub open spec fn gesture_events(gesture: Option<(Seq<char>, Seq<char>, Seq<char>)>) -> Seq<EventView> {
    match gesture {
        Some(skill) => seq![
            log::injection(
                "gesture-skill"@,
                "[技能正文 "@ + skill.0 + "（来源："@ + skill.1 + "）]\n"@ + skill.2,
            ),
        ],
        None => Seq::empty(),
    }
}

/// A step whose prompt was put together: what changed is told, and the request is logged.
pub open spec fn assembled(
    course: CourseView,
    step: u32,
    prompt: StepPrompt,
    selection: ModelSelection,
    context_window: Option<u64>,
) -> CourseStep {
    let snapshot = runtime_context::to_send(course.projection, prompt.context@, prompt.cleared@);
    let system = turn::sent_system(course.frozen, prompt.for_model@);
    let header = request::header_of(selection, system, tool::tool_views(prompt.tools@));
    let context = (selection.provider@, selection.model@, context_window);
    CourseStep {
        next: CourseView {
            phase: PhaseView::Weighing { step },
            projection: match snapshot {
                Some(snapshot) => Some(snapshot),
                None => course.projection,
            },
            last_prompt: if logs_prompt(course.last_prompt, step, prompt.for_user@) {
                Some(prompt.for_user@)
            } else {
                course.last_prompt
            },
            told: if turn::tells_update(course.frozen, course.told, prompt.for_model@) {
                Some(prompt.for_model@)
            } else {
                course.told
            },
            gesture: None,
            logged: request::logged_after(header, context, course.logged),
            ..course
        },
        events: context_events(snapshot) + prompt_events(
            course.turn,
            step,
            course.last_prompt,
            prompt.for_user@,
        ) + update_events(course, prompt.for_model@) + gesture_events(course.gesture)
            + request::request_events(course.turn, step, header, context, course.logged),
        act: ActView::Weigh { step, system },
    }
}

/// The end of a turn.
pub open spec fn ended(course: CourseView, events: Seq<EventView>, reason: ReasonView) -> CourseStep {
    CourseStep {
        next: CourseView { phase: PhaseView::Closed, ..course },
        events,
        act: ActView::End { reason },
    }
}

/// A new step.
pub open spec fn again(course: CourseView, events: Seq<EventView>) -> CourseStep {
    CourseStep {
        next: CourseView { phase: PhaseView::Gathering, ..course },
        events,
        act: ActView::Gather,
    }
}

/// A request that is made.
pub open spec fn requested(
    course: CourseView,
    step: u32,
    retries: u32,
    events: Seq<EventView>,
) -> CourseStep {
    CourseStep {
        next: CourseView { phase: PhaseView::Requesting { step, retries }, ..course },
        events,
        act: ActView::Request,
    }
}

/// An answer that was logged with some events before it.
pub open spec fn answered(
    course: CourseView,
    step: u32,
    blocks: Seq<crate::stream::ContentBlock>,
    finish: Option<FinishReason>,
    before: Seq<EventView>,
) -> CourseStep {
    let output = loop_guard::answer_text(blocks);
    let calls = loop_guard::call_signature(blocks);
    let guard = loop_guard::guard_after(course.guard, output, calls);
    let plan = turn::answer_plan(
        course.turn,
        step,
        blocks,
        finish matches Some(FinishReason::MaxTokens),
        loop_guard::verdict_of(guard, output, calls),
        course.feedback,
    );
    let next = CourseView { feedback: plan.feedback, guard, ..course };
    let events = before + plan.events;
    match plan.next {
        MoveView::End { reason } => ended(next, events, reason),
        MoveView::Again => again(next, events),
        MoveView::Run { calls } => CourseStep {
            next: CourseView { phase: PhaseView::Running { step }, ..next },
            events,
            act: ActView::Run { step, calls },
        },
        MoveView::Rescue { calls } => CourseStep {
            next: CourseView { phase: PhaseView::Running { step }, ..next },
            events,
            act: ActView::Rescue { step, calls },
        },
    }
}

/// What follows from the end of an attempt.
pub open spec fn concluded(course: CourseView, step: u32, plan: request::AttemptPlan) -> CourseStep {
    let next = CourseView { feedback: plan.feedback, ..course };
    match plan.next {
        EndView::Step { blocks, finish } => answered(next, step, blocks, finish, plan.events),
        EndView::Ended { reason } => ended(next, plan.events, reason),
        EndView::Restart => again(next, plan.events),
        EndView::Wait { delay_ms, attempt } => CourseStep {
            next: CourseView {
                phase: PhaseView::Pausing { step, retries: plan.retries, attempt },
                ..next
            },
            events: plan.events,
            act: ActView::Pause { delay_ms },
        },
    }
}

/// A failure, if there is one.
pub open spec fn opt_failure(failure: Option<LlmFailure>) -> Option<FailureView> {
    match failure {
        Some(failure) => Some(failure@),
        None => None,
    }
}

/// What follows from what happened to a turn.
pub open spec fn course_step(
    course: CourseView,
    happened: Happened,
    log: Seq<SessionEnvelope>,
) -> CourseStep {
    let nothing = Seq::<EventView>::empty();
    match (course.phase, happened) {
        (PhaseView::Gathering, Happened::Gathered { background }) => begun(course, background, log),
        (
            PhaseView::Assembling { step },
            Happened::Assembled { prompt, selection, context_window },
        ) => assembled(course, step, prompt, selection, context_window),
        (PhaseView::Assembling { step }, Happened::NotAssembled { error }) => {
            let reason = ReasonView::Error {
                failure: error::plain_failure(codes::UNKNOWN@, error@),
            };
            ended(course, turn::closing(course.turn, step, reason), reason)
        },
        (PhaseView::Weighing { step }, Happened::Weighed { pressure, settings, reached }) =>
            if settings.compact_enabled && compact::known_pressure(pressure) is Some && reached
                && course.failures < settings.max_attempts {
                CourseStep {
                    next: CourseView { phase: PhaseView::Compacting { step }, ..course },
                    events: nothing,
                    act: ActView::Compact,
                }
            } else {
                requested(course, step, 0, nothing)
            },
        (PhaseView::Compacting { step }, Happened::Compacted { result }) => requested(
            CourseView { failures: request::failures_after(result, course.failures), ..course },
            step,
            0,
            request::compaction_events(course.turn, step, result),
        ),
        (PhaseView::Requesting { step, .. }, Happened::Cancelled) => ended(
            course,
            log::aborted_closing(course.turn, step),
            log::user_abort(),
        ),
        (PhaseView::Requesting { step, .. }, Happened::Refused { failure }) => concluded(
            course,
            step,
            request::giving_up(course.turn, step, failure@, 0, course.feedback),
        ),
        (
            PhaseView::Requesting { step, retries },
            Happened::Streamed { attempt, stream_error, interrupted, cancelled, backoff },
        ) => concluded(
            course,
            step,
            request::attempt_plan(
                course.turn,
                step,
                attempt@,
                opt_failure(stream_error),
                interrupted,
                cancelled,
                backoff,
                retries,
                course.feedback,
            ),
        ),
        (PhaseView::Pausing { step, retries, attempt }, Happened::Paused { cancelled }) =>
            if cancelled {
                ended(
                    course,
                    request::cancelled_wait(course.turn, step, attempt),
                    log::user_abort(),
                )
            } else {
                requested(course, step, retries, nothing)
            },
        (PhaseView::Running { step }, Happened::Ran) => again(
            course,
            seq![EventView::StepEnd { turn: course.turn, step }],
        ),
        _ => CourseStep { next: course, events: nothing, act: ActView::Gather },
    }
}

fn note_injections(list: Vec<Injection>, events: &mut Vec<SessionEvent>)
    ensures
        log::event_views(final(events)@) == log::event_views(old(events)@) + injection_events(
            injections::injection_views(list@),
        ),
{
    let ghost before = log::event_views(events@);
    let ghost all = injection_events(injections::injection_views(list@));
    let mut i: usize = 0;
    while i < list.len()
        invariant
            i <= list@.len(),
            all == injection_events(injections::injection_views(list@)),
            log::event_views(events@) =~= before + all.take(i as int),
        decreases list@.len() - i,
    {
        note(events, injected_message(list[i].channel, list[i].text.clone()));
        assert(all.take(i + 1) =~= all.take(i as int).push(all[i as int]));
        i += 1;
    }
    assert(all.take(all.len() as int) =~= all);
}

fn tell_context(
    projection: &mut RuntimeContextProjection,
    context: &str,
    cleared: &str,
    events: &mut Vec<SessionEvent>,
)
    ensures
        ({
            let snapshot = runtime_context::to_send(old(projection)@, context@, cleared@);
            &&& final(projection)@ == (match snapshot {
                Some(snapshot) => Some(snapshot),
                None => old(projection)@,
            })
            &&& log::event_views(final(events)@) == log::event_views(old(events)@) + context_events(
                snapshot,
            )
        }),
{
    let ghost before = log::event_views(events@);
    let ghost told = context_events(runtime_context::to_send(projection@, context@, cleared@));
    if let Some(snapshot) = projection.project(context, cleared) {
        note(events, injected_message("runtime-context", snapshot));
    }
    assert(log::event_views(events@) =~= before + told);
}

fn show_prompt(
    last: &mut Option<String>,
    turn: u32,
    step: u32,
    prompt: String,
    events: &mut Vec<SessionEvent>,
)
    ensures
        text::opt_view(*final(last)) == (if logs_prompt(text::opt_view(*old(last)), step, prompt@) {
            Some(prompt@)
        } else {
            text::opt_view(*old(last))
        }),
        log::event_views(final(events)@) == log::event_views(old(events)@) + prompt_events(
            turn,
            step,
            text::opt_view(*old(last)),
            prompt@,
        ),
{
    let ghost before = log::event_views(events@);
    let ghost shown = prompt_events(turn, step, text::opt_view(*last), prompt@);
    let known: Option<&str> = match &*last {
        Some(last) => Some(last.as_str()),
        None => None,
    };
    if should_log_system_prompt(known, step, prompt.as_str()) {
        let text = prompt.clone();
        note(events, SessionEvent::SystemPrompt { turn, step, text });
        *last = Some(prompt);
    }
    assert(log::event_views(events@) =~= before + shown);
}

fn tell_gesture(gesture: &Option<Gesture>, events: &mut Vec<SessionEvent>)
    ensures
        log::event_views(final(events)@) == log::event_views(old(events)@) + gesture_events(
            gesture_view(*gesture),
        ),
{
    let ghost before = log::event_views(events@);
    if let Some(skill) = gesture {
        note(
            events,
            gesture_message(skill.name.as_str(), skill.source.as_str(), skill.body.as_str()),
        );
    }
    assert(log::event_views(events@) =~= before + gesture_events(gesture_view(*gesture)));
}

/// What a turn takes up from the log before it.
pub open spec fn opened(
    turn: u32,
    log: Seq<SessionEnvelope>,
    is_snapshot: Seq<bool>,
    gesture: Option<Gesture>,
    last_prompt: Option<Seq<char>>,
    failures: u32,
    guard: GuardView,
) -> CourseView {
    CourseView {
        turn,
        phase: PhaseView::Gathering,
        feedback: 0,
        failures,
        baselines: injections::restored(log),
        projection: runtime_context::last_snapshot(log, is_snapshot, log.len() as int),
        gesture: gesture_view(gesture),
        frozen: turn::last_system(log),
        told: turn::restored_update(log),
        last_prompt,
        logged: RequestLogView {
            last_header: None,
            has_request_header: request::last_header(log) is Some,
            last_context: None,
        },
        guard,
    }
}

impl Course {
    /// A turn that begins behind a log. `is_snapshot` says of each event of the log whether its
    /// text is a snapshot of the context. What the session remembers from turn to turn is handed
    /// in: the prompt that was logged last, the compactions that failed in a row, and the guard
    /// against loops.
    pub fn open(
        turn: u32,
        log: &[SessionEnvelope],
        is_snapshot: &[bool],
        gesture: Option<Gesture>,
        last_prompt: Option<String>,
        failures: u32,
        guard: LoopGuard,
    ) -> (course: Self)
        requires
            is_snapshot@.len() == log@.len(),
        ensures
            course@ == opened(
                turn,
                log@,
                is_snapshot@,
                gesture,
                text::opt_view(last_prompt),
                failures,
                guard@,
            ),
    {
        Course {
            turn,
            phase: Phase::Gathering,
            feedback: 0,
            failures,
            baselines: InjectionBaselines::restore(log),
            projection: RuntimeContextProjection::restore(log, is_snapshot),
            gesture,
            frozen: last_request_header_system(log),
            told: restore_system_update(log),
            last_prompt,
            logged: RequestLog {
                last_header: None,
                has_request_header: has_request_header(log),
                last_context: None,
            },
            guard,
        }
    }

    fn begin_step(
        &mut self,
        background: Option<Background>,
        log: &[SessionEnvelope],
        events: &mut Vec<SessionEvent>,
    ) -> (act: Act)
        requires
            log@.len() < u32::MAX,
        ensures
            ({
                let step = begun(old(self)@, background, log@);
                &&& final(self)@ == step.next
                &&& log::event_views(final(events)@) == log::event_views(old(events)@) + step.events
                &&& does(act, step.act)
            }),
    {
        let ghost before = log::event_views(events@);
        let ghost wanted = begun(self@, background, log@);
        if let Some(background) = background {
            let list = refresh_background_injections(background, &mut self.baselines);
            note_injections(list, events);
        }
        let step = turn_step_next(log, self.turn);
        note(events, SessionEvent::StepStart { turn: self.turn, step });
        assert(log::event_views(events@) =~= before + wanted.events);
        self.phase = Phase::Assembling { step };
        Act::Assemble { step }
    }

    fn take_prompt(
        &mut self,
        step: u32,
        prompt: StepPrompt,
        selection: ModelSelection,
        context_window: Option<u64>,
        events: &mut Vec<SessionEvent>,
    ) -> (act: Act)
        ensures
            ({
                let step = assembled(old(self)@, step, prompt, selection, context_window);
                &&& final(self)@ == step.next
                &&& log::event_views(final(events)@) == log::event_views(old(events)@) + step.events
                &&& does(act, step.act)
            }),
    {
        let ghost before = log::event_views(events@);
        let ghost wanted = assembled(self@, step, prompt, selection, context_window);
        let StepPrompt { context, cleared, for_user, for_model, tools } = prompt;
        tell_context(&mut self.projection, context.as_str(), cleared.as_str(), events);
        show_prompt(&mut self.last_prompt, self.turn, step, for_user, events);
        let system = settle_system(&self.frozen, &mut self.told, for_model, events);
        tell_gesture(&self.gesture, events);
        self.gesture = None;
        log_request_headers(
            &mut self.logged,
            self.turn,
            step,
            &selection,
            system.as_str(),
            tools.as_slice(),
            context_window,
            events,
        );
        assert(log::event_views(events@) =~= before + wanted.events);
        self.phase = Phase::Weighing { step };
        Act::Weigh { step, system }
    }

    fn settle(
        &mut self,
        step: u32,
        retries: u32,
        end: AttemptEnd,
        events: &mut Vec<SessionEvent>,
        plan: Ghost<request::AttemptPlan>,
        before: Ghost<Seq<EventView>>,
    ) -> (act: Act)
        requires
            end@ == plan@.next,
            retries == plan@.retries,
            old(self).feedback == plan@.feedback,
            log::event_views(old(events)@) == before@ + plan@.events,
            loop_guard::longest_run(old(self)@.guard) < u32::MAX || !(plan@.next is Step),
        ensures
            ({
                let step = concluded(old(self)@, step, plan@);
                &&& final(self)@ == step.next
                &&& log::event_views(final(events)@) == before@ + step.events
                &&& does(act, step.act)
            }),
    {
        let ghost wanted = concluded(self@, step, plan@);
        match end {
            AttemptEnd::Done(RequestOutcome::Step { blocks, finish }) => {
                let turn = self.turn;
                let next = after_answer(
                    turn,
                    step,
                    &blocks,
                    &finish,
                    &mut self.guard,
                    &mut self.feedback,
                    events,
                );
                assert(log::event_views(events@) =~= before@ + wanted.events);
                match next {
                    StepMove::End { reason } => {
                        self.phase = Phase::Closed;
                        Act::End { reason }
                    },
                    StepMove::Again => {
                        self.phase = Phase::Gathering;
                        Act::Gather
                    },
                    StepMove::Run { calls } => {
                        self.phase = Phase::Running { step };
                        Act::Run { step, calls }
                    },
                }
            },
            AttemptEnd::Done(RequestOutcome::TurnEnded(reason)) => {
                self.phase = Phase::Closed;
                Act::End { reason }
            },
            AttemptEnd::Done(RequestOutcome::RestartStep) => {
                self.phase = Phase::Gathering;
                Act::Gather
            },
            AttemptEnd::Wait { delay_ms, attempt } => {
                self.phase = Phase::Pausing { step, retries, attempt };
                Act::Pause { delay_ms }
            },
        }
    }

    fn refused(&mut self, step: u32, failure: LlmFailure, events: &mut Vec<SessionEvent>) -> (act: Act)
        ensures
            ({
                let plan = request::giving_up(
                    old(self).turn,
                    step,
                    failure@,
                    0,
                    old(self).feedback,
                );
                let step = concluded(old(self)@, step, plan);
                &&& final(self)@ == step.next
                &&& log::event_views(final(events)@) == log::event_views(old(events)@) + step.events
                &&& does(act, step.act)
            }),
    {
        let ghost before = log::event_views(events@);
        let ghost plan = request::giving_up(self.turn, step, failure@, 0, self.feedback);
        let outcome = give_up(self.turn, step, &failure, 0, &mut self.feedback, events);
        self.settle(step, 0, AttemptEnd::Done(outcome), events, Ghost(plan), Ghost(before))
    }

    fn streamed(
        &mut self,
        step: u32,
        retries: u32,
        attempt: Attempt,
        stream_error: Option<LlmFailure>,
        interrupted: bool,
        cancelled: bool,
        backoff: Backoff,
        events: &mut Vec<SessionEvent>,
    ) -> (act: Act)
        requires
            loop_guard::longest_run(old(self)@.guard) < u32::MAX,
        ensures
            ({
                let plan = request::attempt_plan(
                    old(self).turn,
                    step,
                    attempt@,
                    opt_failure(stream_error),
                    interrupted,
                    cancelled,
                    backoff,
                    retries,
                    old(self).feedback,
                );
                let step = concluded(old(self)@, step, plan);
                &&& final(self)@ == step.next
                &&& log::event_views(final(events)@) == log::event_views(old(events)@) + step.events
                &&& does(act, step.act)
            }),
    {
        let ghost before = log::event_views(events@);
        let ghost plan = request::attempt_plan(
            self.turn,
            step,
            attempt@,
            opt_failure(stream_error),
            interrupted,
            cancelled,
            backoff,
            retries,
            self.feedback,
        );
        let mut tried: u32 = retries;
        let end = conclude_attempt(
            self.turn,
            step,
            attempt,
            stream_error,
            interrupted,
            cancelled,
            &backoff,
            &mut tried,
            &mut self.feedback,
            events,
        );
        self.settle(step, tried, end, events, Ghost(plan), Ghost(before))
    }

    /// What is done next, given what happened and the log so far. What is to be logged is added to
    /// `events`.
    pub fn advance(
        &mut self,
        happened: Happened,
        log: &[SessionEnvelope],
        events: &mut Vec<SessionEvent>,
    ) -> (act: Act)
        requires
            fits(old(self)@, happened, log@),
        ensures
            ({
                let step = course_step(old(self)@, happened, log@);
                &&& final(self)@ == step.next
                &&& log::event_views(final(events)@) == log::event_views(old(events)@) + step.events
                &&& does(act, step.act)
            }),
    {
        proof {
            lemma_nothing_added(log::event_views(events@));
        }
        let mut phase = Phase::Closed;
        std::mem::swap(&mut phase, &mut self.phase);
        match phase {
            Phase::Gathering => match happened {
                Happened::Gathered { background } => self.begin_step(background, log, events),
                _ => Act::Gather,
            },
            Phase::Assembling { step } => match happened {
                Happened::Assembled { prompt, selection, context_window } => self.take_prompt(
                    step,
                    prompt,
                    selection,
                    context_window,
                    events,
                ),
                Happened::NotAssembled { error } => {
                    let reason = close_unassembled(self.turn, step, error.as_str(), events);
                    Act::End { reason }
                },
                _ => Act::Gather,
            },
            Phase::Weighing { step } => match happened {
                Happened::Weighed { pressure, settings, reached } => {
                    if compaction_due(&pressure, &settings, reached, self.failures) {
                        self.phase = Phase::Compacting { step };
                        Act::Compact
                    } else {
                        self.phase = Phase::Requesting { step, retries: 0 };
                        Act::Request
                    }
                },
                _ => Act::Gather,
            },
            Phase::Compacting { step } => match happened {
                Happened::Compacted { result } => {
                    settle_compaction(self.turn, step, result, &mut self.failures, events);
                    self.phase = Phase::Requesting { step, retries: 0 };
                    Act::Request
                },
                _ => Act::Gather,
            },
            Phase::Requesting { step, retries } => match happened {
                Happened::Cancelled => {
                    let reason = close_aborted(self.turn, step, events);
                    Act::End { reason }
                },
                Happened::Refused { failure } => self.refused(step, failure, events),
                Happened::Streamed { attempt, stream_error, interrupted, cancelled, backoff } =>
                    self.streamed(
                    step,
                    retries,
                    attempt,
                    stream_error,
                    interrupted,
                    cancelled,
                    backoff,
                    events,
                ),
                _ => Act::Gather,
            },
            Phase::Pausing { step, retries, attempt } => match happened {
                Happened::Paused { cancelled } => {
                    match after_wait(self.turn, step, attempt, cancelled, events) {
                        Some(RequestOutcome::TurnEnded(reason)) => Act::End { reason },
                        _ => {
                            self.phase = Phase::Requesting { step, retries };
                            Act::Request
                        },
                    }
                },
                _ => Act::Gather,
            },
            Phase::Running { step } => match happened {
                Happened::Ran => {
                    note(events, SessionEvent::StepEnd { turn: self.turn, step });
                    assert(log::event_views(events@) =~= log::event_views(old(events)@) + seq![
                        EventView::StepEnd { turn: self.turn, step },
                    ]);
                    self.phase = Phase::Gathering;
                    Act::Gather
                },
                _ => Act::Gather,
            },
            Phase::Closed => Act::Gather,
        }
    }
}

proof fn lemma_nothing_added(events: Seq<EventView>)
    ensures
        events + Seq::<EventView>::empty() == events,
{
    assert(events + Seq::<EventView>::empty() =~= events);
}

/// What the log says while a turn is in a phase.
pub open spec fn log_state(turn: u32, phase: PhaseView) -> LogState {
    match phase {
        PhaseView::Gathering => LogState::Turn { turn },
        PhaseView::Assembling { step } => LogState::Step { turn, step },
        PhaseView::Weighing { step } => LogState::Step { turn, step },
        PhaseView::Compacting { step } => LogState::Step { turn, step },
        PhaseView::Requesting { step, .. } => LogState::Step { turn, step },
        PhaseView::Pausing { step, .. } => LogState::Step { turn, step },
        PhaseView::Running { step } => LogState::Step { turn, step },
        PhaseView::Closed => LogState::Closed,
    }
}

proof fn lemma_state_after_both(state: LogState, first: Seq<EventView>, second: Seq<EventView>)
    ensures
        log::state_after_all(state, first + second) == (match log::state_after_all(state, first) {
            Some(next) => log::state_after_all(next, second),
            None => None,
        }),
    decreases second.len(),
{
    if second.len() == 0 {
        assert(first + second =~= first);
    } else {
        lemma_state_after_both(state, first, second.drop_last());
        assert((first + second).drop_last() =~= first + second.drop_last());
    }
}

/// An event that neither begins nor ends a turn or a step.
pub open spec fn is_within(event: EventView) -> bool {
    !(event is TurnStart) && !(event is TurnEnd) && !(event is StepStart) && !(event is StepEnd)
}

/// Whether some events neither open nor close a turn or a step.
#[verifier::opaque]
spec fn all_within(events: Seq<EventView>) -> bool {
    forall|i: int| 0 <= i < events.len() ==> is_within(#[trigger] events[i])
}

proof fn lemma_both_within(first: Seq<EventView>, second: Seq<EventView>)
    requires
        all_within(first),
        all_within(second),
    ensures
        all_within(first + second),
{
    reveal(all_within);
}

proof fn lemma_within(state: LogState, events: Seq<EventView>)
    requires
        forall|i: int| 0 <= i < events.len() ==> is_within(#[trigger] events[i]),
    ensures
        log::state_after_all(state, events) == Some(state),
    decreases events.len(),
{
    if events.len() > 0 {
        assert forall|i: int| 0 <= i < events.drop_last().len() implies is_within(
            #[trigger] events.drop_last()[i],
        ) by {
            assert(is_within(events[i]));
        }
        lemma_within(state, events.drop_last());
        assert(is_within(events[events.len() - 1]));
    }
}

proof fn lemma_begun_balanced(course: CourseView, background: Option<Background>, log: Seq<SessionEnvelope>)
    requires
        course.phase is Gathering,
    ensures
        ({
            let step = begun(course, background, log);
            log::state_after_all(log_state(course.turn, course.phase), step.events) == Some(
                log_state(course.turn, step.next.phase),
            )
        }),
{
    let told = background_events(background, course.baselines);
    lemma_within(log_state(course.turn, course.phase), told);
    assert(begun(course, background, log).events.drop_last() =~= told);
}

proof fn lemma_assembled_balanced(
    course: CourseView,
    step: u32,
    prompt: StepPrompt,
    selection: ModelSelection,
    context_window: Option<u64>,
)
    requires
        course.phase == (PhaseView::Assembling { step }),
    ensures
        ({
            let next = assembled(course, step, prompt, selection, context_window);
            log::state_after_all(log_state(course.turn, course.phase), next.events) == Some(
                log_state(course.turn, next.next.phase),
            )
        }),
{
    let next = assembled(course, step, prompt, selection, context_window);
    let snapshot = runtime_context::to_send(course.projection, prompt.context@, prompt.cleared@);
    let system = turn::sent_system(course.frozen, prompt.for_model@);
    let header = request::header_of(selection, system, tool::tool_views(prompt.tools@));
    let context = (selection.provider@, selection.model@, context_window);
    let told = context_events(snapshot);
    let shown = prompt_events(course.turn, step, course.last_prompt, prompt.for_user@);
    let updated = update_events(course, prompt.for_model@);
    let skill = gesture_events(course.gesture);
    let asked = request::request_events(course.turn, step, header, context, course.logged);
    assert(all_within(told) && all_within(shown) && all_within(updated) && all_within(skill)
        && all_within(asked)) by {
        reveal(all_within);
    }
    lemma_both_within(told, shown);
    lemma_both_within(told + shown, updated);
    lemma_both_within(told + shown + updated, skill);
    lemma_both_within(told + shown + updated + skill, asked);
    assert(all_within(next.events));
    reveal(all_within);
    lemma_within(log_state(course.turn, course.phase), next.events);
}

/// The state of the log after the end of an attempt.
pub open spec fn state_of_end(turn: u32, step: u32, next: EndView) -> LogState {
    match next {
        EndView::Ended { .. } => LogState::Closed,
        EndView::Restart => LogState::Turn { turn },
        _ => LogState::Step { turn, step },
    }
}

proof fn lemma_concluded_balanced(course: CourseView, step: u32, plan: request::AttemptPlan)
    requires
        log::state_after_all(LogState::Step { turn: course.turn, step }, plan.events) == Some(
            state_of_end(course.turn, step, plan.next),
        ),
    ensures
        ({
            let next = concluded(course, step, plan);
            log::state_after_all(LogState::Step { turn: course.turn, step }, next.events) == Some(
                log_state(course.turn, next.next.phase),
            )
        }),
{
    if let EndView::Step { blocks, finish } = plan.next {
        let output = loop_guard::answer_text(blocks);
        let calls = loop_guard::call_signature(blocks);
        let guard = loop_guard::guard_after(course.guard, output, calls);
        let verdict = loop_guard::verdict_of(guard, output, calls);
        let cut = finish matches Some(FinishReason::MaxTokens);
        turn::answer_keeps_the_log_balanced(course.turn, step, blocks, cut, verdict, plan.feedback);
        let answer = turn::answer_plan(course.turn, step, blocks, cut, verdict, plan.feedback);
        lemma_state_after_both(
            LogState::Step { turn: course.turn, step },
            plan.events,
            answer.events,
        );
    }
}

proof fn lemma_closing_balanced(turn: u32, step: u32, reason: ReasonView)
    ensures
        log::state_after_all(LogState::Step { turn, step }, turn::closing(turn, step, reason))
            == Some(LogState::Closed),
{
    reveal_with_fuel(log::state_after_all, 3);
}

proof fn lemma_giving_up_balanced(
    turn: u32,
    step: u32,
    failure: FailureView,
    retries: u32,
    feedback: u32,
)
    ensures
        ({
            let plan = request::giving_up(turn, step, failure, retries, feedback);
            log::state_after_all(LogState::Step { turn, step }, plan.events) == Some(
                state_of_end(turn, step, plan.next),
            )
        }),
{
    reveal_with_fuel(log::state_after_all, 3);
}

/// Whatever happens to a turn, its log stays in balance: a step is begun where none is open, the
/// step is open while its request is made and its calls are carried out, and the turn ends with
/// its step closed.
pub proof fn turn_keeps_the_log_balanced(
    course: CourseView,
    happened: Happened,
    log: Seq<SessionEnvelope>,
)
    requires
        fits(course, happened, log),
    ensures
        ({
            let step = course_step(course, happened, log);
            log::state_after_all(log_state(course.turn, course.phase), step.events) == Some(
                log_state(course.turn, step.next.phase),
            )
        }),
{
    let of = course.turn;
    match course.phase {
        PhaseView::Gathering => {
            lemma_begun_balanced(course, happened->background, log);
        },
        PhaseView::Assembling { step } => {
            match happened {
                Happened::Assembled { prompt, selection, context_window } => {
                    lemma_assembled_balanced(course, step, prompt, selection, context_window);
                },
                Happened::NotAssembled { error } => {
                    let failure = error::plain_failure(codes::UNKNOWN@, error@);
                    lemma_closing_balanced(of, step, ReasonView::Error { failure });
                },
                _ => {},
            }
        },
        PhaseView::Weighing { step } => {},
        PhaseView::Compacting { step } => {
            lemma_within(
                LogState::Step { turn: of, step },
                request::compaction_events(of, step, happened->result),
            );
        },
        PhaseView::Requesting { step, retries } => {
            match happened {
                Happened::Refused { failure } => {
                    lemma_giving_up_balanced(of, step, failure@, 0, course.feedback);
                    lemma_concluded_balanced(
                        course,
                        step,
                        request::giving_up(of, step, failure@, 0, course.feedback),
                    );
                },
                Happened::Streamed { attempt, stream_error, interrupted, cancelled, backoff } => {
                    let error = opt_failure(stream_error);
                    request::request_keeps_the_log_balanced(
                        of,
                        step,
                        attempt@,
                        error,
                        interrupted,
                        cancelled,
                        backoff,
                        retries,
                        course.feedback,
                    );
                    lemma_concluded_balanced(
                        course,
                        step,
                        request::attempt_plan(
                            of,
                            step,
                            attempt@,
                            error,
                            interrupted,
                            cancelled,
                            backoff,
                            retries,
                            course.feedback,
                        ),
                    );
                },
                _ => {
                    lemma_closing_balanced(of, step, log::user_abort());
                },
            }
        },
        PhaseView::Pausing { step, retries, attempt } => {
            request::request_keeps_the_log_balanced(
                of,
                step,
                attempt,
                None,
                false,
                false,
                Backoff { retryable: false, max_retries: 0, delay_ms: 0 },
                retries,
                course.feedback,
            );
        },
        PhaseView::Running { step } => {
            reveal_with_fuel(log::state_after_all, 2);
        },
        PhaseView::Closed => {},
    }
}

/// A turn says that it ends exactly when it is closed, and nothing happens to it after that.
pub proof fn turn_ends_once(course: CourseView, happened: Happened, log: Seq<SessionEnvelope>)
    requires
        fits(course, happened, log),
    ensures
        ({
            let step = course_step(course, happened, log);
            step.act is End <==> step.next.phase is Closed
        }),
        !(course.phase is Closed),
{
}

/// Within a turn the model is told of its mistakes no more often than the quota says.
pub proof fn turn_feedback_is_bounded(
    course: CourseView,
    happened: Happened,
    log: Seq<SessionEnvelope>,
)
    requires
        fits(course, happened, log),
        course.feedback <= MAX_FEEDBACK,
    ensures
        course_step(course, happened, log).next.feedback <= MAX_FEEDBACK,
{
}

/// The first request of a turn logs its header as the first one exactly where the log has none,
/// and else as one that takes the session up again.
pub proof fn first_header_is_told_apart(
    turn: u32,
    log: Seq<SessionEnvelope>,
    is_snapshot: Seq<bool>,
    gesture: Option<Gesture>,
    last_prompt: Option<Seq<char>>,
    failures: u32,
    guard: GuardView,
)
    ensures
        request::header_reason(
            opened(turn, log, is_snapshot, gesture, last_prompt, failures, guard).logged,
        ) == (if request::last_header(log) is Some {
            RequestHeaderReason::Resume
        } else {
            RequestHeaderReason::Initial
        }),
{
}

/// The steps of a turn are numbered in a row: once a step has begun, the next one has the next
/// number, whatever else is logged in between.
pub proof fn steps_are_numbered_in_a_row(
    log: Seq<SessionEnvelope>,
    start: SessionEnvelope,
    later: Seq<SessionEnvelope>,
    turn: u32,
)
    requires
        start.event matches SessionEvent::StepStart { turn: of, .. } && of == turn,
        forall|i: int|
            0 <= i < later.len() ==> !((#[trigger] later[i]).event is TurnStart)
                && !(later[i].event is StepStart),
    ensures
        turn::steps_begun(log.push(start) + later, turn) == turn::steps_begun(log, turn) + 1,
    decreases later.len(),
{
    if later.len() == 0 {
        assert(log.push(start) + later =~= log.push(start));
        assert(log.push(start).drop_last() =~= log);
    } else {
        let whole = log.push(start) + later;
        assert(whole.drop_last() =~= log.push(start) + later.drop_last());
        assert(whole.last() == later[later.len() - 1]);
        assert forall|i: int| 0 <= i < later.drop_last().len() implies !((
        #[trigger] later.drop_last()[i]).event is TurnStart) && !(later.drop_last()[i].event
            is StepStart) by {
            assert(later.drop_last()[i] == later[i]);
        }
        steps_are_numbered_in_a_row(log, start, later.drop_last(), turn);
    }
}

} // verus!
