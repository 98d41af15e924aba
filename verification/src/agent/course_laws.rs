//! What holds of the way that a turn takes.
use vstd::prelude::*;

use crate::agent::compact::{CompactionSettings, ContextPressure};
use crate::agent::course;
use crate::agent::course::{ActView, CourseView, Gesture, Happened, PhaseView, StepPrompt};
use crate::agent::injections;
use crate::agent::injections::Background;
use crate::agent::log::{EventView, ReasonView};
use crate::agent::loop_guard::GuardView;
use crate::agent::request;
use crate::agent::request::{AttemptPlan, AttemptView, CompactionResult, EndView};
use crate::agent::turn;
use crate::session::{AbortCause, SessionEnvelope};
use crate::stream::ModelSelection;
use crate::text;
use crate::text_laws;
use crate::tool;

verus! {

/// A step begins after the model was told of the background: each message of the harness is logged
/// with its channel and its text, and then the step, which has the next number of its turn.
pub proof fn step_begins_after_the_background(
    course: CourseView,
    background: Option<Background>,
    log: Seq<SessionEnvelope>,
)
    requires
        course.phase is Gathering,
        turn::steps_begun(log, course.turn) < u32::MAX,
    ensures
        ({
            let made = course::course_step(course, Happened::Gathered { background }, log);
            let step = (turn::steps_begun(log, course.turn) + 1) as u32;
            &&& made.act == (ActView::Assemble { step })
            &&& made.next.phase == (PhaseView::Assembling { step })
            &&& made.events.len() > 0
            &&& made.events.last() == (EventView::StepStart { turn: course.turn, step })
            &&& background is None ==> made.events.len() == 1
            &&& background matches Some(known) ==> {
                let told = injections::injected(known, course.baselines);
                &&& made.events.len() == told.len() + 1
                &&& forall|i: int|
                    0 <= i < told.len() ==> (#[trigger] made.events[i] matches EventView::Injected {
                        text,
                        channel,
                        ..
                    } && text == told[i].text && channel == Some(told[i].channel))
            }
        }),
{
}

/// A request follows under the system prompt that the session began with, and under the present one
/// where there is none. The user's skill is told once, with its name and its text.
pub proof fn prompt_is_put_to_use(
    course: CourseView,
    step: u32,
    prompt: StepPrompt,
    selection: ModelSelection,
    context_window: Option<u64>,
    log: Seq<SessionEnvelope>,
)
    requires
        course.phase == (PhaseView::Assembling { step }),
    ensures
        ({
            let made = course::course_step(
                course,
                Happened::Assembled { prompt, selection, context_window },
                log,
            );
            &&& made.next.phase == (PhaseView::Weighing { step })
            &&& made.next.gesture is None
            &&& made.next.feedback == course.feedback
            &&& made.next.failures == course.failures
            &&& course.frozen is None ==> made.act == (ActView::Weigh {
                step,
                system: prompt.for_model@,
            })
            &&& course.frozen matches Some(frozen) ==> made.act == (ActView::Weigh {
                step,
                system: frozen,
            })
            &&& course.gesture matches Some(skill) ==> exists|i: int|
                0 <= i < made.events.len() && (#[trigger] made.events[i] matches EventView::Injected {
                    text,
                    ..
                } && text::has(text, skill.0) && text::has(text, skill.2))
        }),
{
    let made = course::course_step(
        course,
        Happened::Assembled { prompt, selection, context_window },
        log,
    );
    if let Some(skill) = course.gesture {
        let told = course::gesture_events(course.gesture)[0];
        let head = "[技能正文 "@;
        let middle = "（来源："@ + skill.1 + "）]\n"@;
        let all = head + skill.0 + "（来源："@ + skill.1 + "）]\n"@ + skill.2;
        text_laws::part_of_a_text_occurs(head, skill.0, middle + skill.2);
        assert(head + skill.0 + (middle + skill.2) =~= all);
        text_laws::part_of_a_text_occurs(head + skill.0 + middle, skill.2, Seq::empty());
        assert(head + skill.0 + middle + skill.2 + Seq::<char>::empty() =~= all);
        let system = turn::sent_system(course.frozen, prompt.for_model@);
        let header = request::header_of(
            selection,
            system,
            tool::tool_views(prompt.tools@),
        );
        let context = (selection.provider@, selection.model@, context_window);
        let tail = request::request_events(course.turn, step, header, context, course.logged);
        let at = made.events.len() - tail.len() - 1;
        assert(made.events[at] == told);
    }
}

/// A turn whose prompt cannot be put together ends, and tells why.
pub proof fn missing_prompt_ends_the_turn(
    course: CourseView,
    step: u32,
    error: String,
    log: Seq<SessionEnvelope>,
)
    requires
        course.phase == (PhaseView::Assembling { step }),
    ensures
        ({
            let made = course::course_step(course, Happened::NotAssembled { error }, log);
            &&& made.next.phase is Closed
            &&& made.act matches ActView::End { reason: ReasonView::Error { failure } }
                && failure.message == error@
            &&& made.events.len() == 2
            &&& made.events[0] == (EventView::StepEnd { turn: course.turn, step })
            &&& made.events[1] matches EventView::TurnEnd { turn, reason } && turn == course.turn
                && made.act == (ActView::End { reason })
        }),
{
}

/// The history is folded before a request where that is switched on, the window is known to be full,
/// and it has not failed too often in a row; else the request follows at once.
pub proof fn full_window_is_folded_first(
    course: CourseView,
    step: u32,
    pressure: ContextPressure,
    settings: CompactionSettings,
    reached: bool,
    log: Seq<SessionEnvelope>,
)
    requires
        course.phase == (PhaseView::Weighing { step }),
    ensures
        ({
            let made = course::course_step(
                course,
                Happened::Weighed { pressure, settings, reached },
                log,
            );
            let folds = settings.compact_enabled && reached && course.failures < settings.max_attempts
                && pressure.context_window is Some && pressure.context_window->0 > 0
                && pressure.projected_tokens is Some;
            &&& made.events.len() == 0
            &&& folds ==> made.act is Compact && made.next.phase == (PhaseView::Compacting { step })
            &&& !folds ==> made.act is Request && made.next.phase == (PhaseView::Requesting {
                step,
                retries: 0,
            })
        }),
{
}

/// Whatever comes of folding the history, the request follows.
pub proof fn request_follows_the_fold(
    course: CourseView,
    step: u32,
    result: CompactionResult,
    log: Seq<SessionEnvelope>,
)
    requires
        course.phase == (PhaseView::Compacting { step }),
        course.failures < u32::MAX,
    ensures
        ({
            let made = course::course_step(course, Happened::Compacted { result }, log);
            &&& made.act is Request
            &&& made.next.phase == (PhaseView::Requesting { step, retries: 0 })
            &&& result is Done ==> made.next.failures == 0 && made.events.len() == 1
                && made.events[0] is Summary
            &&& result is Failed ==> made.next.failures == course.failures + 1 && made.events.len()
                == 0
            &&& result is Nothing ==> made.next.failures == course.failures && made.events.len() == 0
        }),
{
}

/// The user's word ends a turn: its step ends, and it is told that it was the user.
pub proof fn user_ends_the_turn(
    course: CourseView,
    step: u32,
    retries: u32,
    attempt: AttemptView,
    log: Seq<SessionEnvelope>,
)
    ensures
        course.phase == (PhaseView::Requesting { step, retries }) ==> {
            let made = course::course_step(course, Happened::Cancelled, log);
            &&& made.next.phase is Closed
            &&& made.act == (ActView::End {
                reason: ReasonView::Aborted { cause: Some(AbortCause::User) },
            })
            &&& made.events == seq![
                EventView::StepEnd { turn: course.turn, step },
                EventView::TurnEnd {
                    turn: course.turn,
                    reason: ReasonView::Aborted { cause: Some(AbortCause::User) },
                },
            ]
        },
        course.phase == (PhaseView::Pausing { step, retries, attempt }) ==> {
            let made = course::course_step(course, Happened::Paused { cancelled: true }, log);
            &&& made.next.phase is Closed
            &&& made.act == (ActView::End {
                reason: ReasonView::Aborted { cause: Some(AbortCause::User) },
            })
        },
{
}

/// After a pause the same request is made again, and the count of the tries goes on.
pub proof fn request_is_tried_again(
    course: CourseView,
    step: u32,
    retries: u32,
    attempt: AttemptView,
    log: Seq<SessionEnvelope>,
)
    requires
        course.phase == (PhaseView::Pausing { step, retries, attempt }),
    ensures
        ({
            let made = course::course_step(course, Happened::Paused { cancelled: false }, log);
            &&& made.act is Request
            &&& made.next.phase == (PhaseView::Requesting { step, retries })
            &&& made.events.len() == 0
        }),
{
}

/// When the calls of a step were carried out the step ends, and another one follows.
pub proof fn another_step_follows(course: CourseView, step: u32, log: Seq<SessionEnvelope>)
    requires
        course.phase == (PhaseView::Running { step }),
    ensures
        ({
            let made = course::course_step(course, Happened::Ran, log);
            &&& made.act is Gather
            &&& made.next.phase is Gathering
            &&& made.events == seq![EventView::StepEnd { turn: course.turn, step }]
            &&& made.next.feedback == course.feedback
            &&& made.next.guard == course.guard
        }),
{
}

/// What is planned for the end of an attempt is done: the turn ends, a step follows, or a pause.
pub proof fn plan_is_carried_out(course: CourseView, step: u32, plan: AttemptPlan)
    ensures
        ({
            let made = course::concluded(course, step, plan);
            &&& plan.next matches EndView::Ended { reason } ==> made.act == (ActView::End { reason })
                && made.next.phase is Closed && made.events == plan.events
            &&& plan.next is Restart ==> made.act is Gather && made.next.phase is Gathering
                && made.events == plan.events && made.next.feedback == plan.feedback
            &&& plan.next matches EndView::Wait { delay_ms, attempt } ==> made.act == (ActView::Pause {
                delay_ms,
            }) && made.next.phase == (PhaseView::Pausing { step, retries: plan.retries, attempt })
                && made.events == plan.events
            &&& plan.next is Step ==> plan.events.is_prefix_of(made.events)
        }),
{
    let made = course::concluded(course, step, plan);
    if plan.next is Step {
        assert(plan.events =~= made.events.subrange(0, plan.events.len() as int));
    }
}

/// A turn begins with no mistake told yet, and with what the log and the session say.
pub proof fn turn_begins_anew(
    turn: u32,
    log: Seq<SessionEnvelope>,
    is_snapshot: Seq<bool>,
    gesture: Option<Gesture>,
    last_prompt: Option<Seq<char>>,
    failures: u32,
    guard: GuardView,
)
    ensures
        ({
            let course = course::opened(turn, log, is_snapshot, gesture, last_prompt, failures, guard);
            &&& course.turn == turn
            &&& course.phase is Gathering
            &&& course.feedback == 0
            &&& course.failures == failures
            &&& course.guard == guard
            &&& course.last_prompt == last_prompt
            &&& gesture is None ==> course.gesture is None
            &&& gesture matches Some(skill) ==> course.gesture == Some(
                (skill.name@, skill.source@, skill.body@),
            )
            &&& course.logged.last_header is None
            &&& course.logged.has_request_header == (request::last_header(log) is Some)
        }),
{
}

/// The system prompt is logged for the user with the first step and whenever it changed.
pub proof fn prompt_is_logged_when_it_changed(
    turn: u32,
    step: u32,
    last: Option<Seq<char>>,
    prompt: Seq<char>,
)
    ensures
        step == 1 || last != Some(prompt) ==> course::prompt_events(turn, step, last, prompt) == seq![
            EventView::SystemPrompt { turn, step, text: prompt },
        ],
        step != 1 && last == Some(prompt) ==> course::prompt_events(turn, step, last, prompt).len()
            == 0,
{
}

} // verus!
