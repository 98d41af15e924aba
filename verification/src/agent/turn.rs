//! The steps of a turn: what is sent as the system prompt, and what follows from a model's answer.
use vstd::prelude::*;
use vstd::string::*;

use crate::agent::errors::MAX_FEEDBACK;
use crate::agent::ids;
use crate::agent::ids::new_id;
use crate::agent::injections;
use crate::agent::injections::last_injected_channel;
use crate::agent::log;
use crate::agent::log::{injected_message, note, EventView, LogState, ReasonView};
use crate::agent::loop_guard;
use crate::agent::loop_guard::{LoopGuard, LoopVerdict, LOOP_WARN_TEXT};
use crate::agent::rescue;
use crate::agent::rescue::{
    detect_fake_names, fake_tool_call_feedback, rescue_from_blocks, RescuedCall, RescuedView,
};
use crate::codes;
use crate::error;
use crate::error::LlmFailure;
use crate::history;
use crate::history::calls_of_blocks;
use crate::json;
use crate::message;
use crate::message::{CallView, ToolCallRef};
use crate::session::{SessionEnvelope, SessionEvent, TurnEndReason};
use crate::stream::{ContentBlock, FinishReason};
use crate::text;
use crate::text::{cat5, rest_after, str_eq, strip_prefix, strip_suffix};

verus! {

/// The channel of a changed system prompt.
pub const SYSTEM_UPDATE_CHANNEL: &'static str = "system-update";

/// How the message with a changed system prompt begins.
pub const SYSTEM_UPDATE_OPEN: &'static str = "<system-reminder>\n";

/// What the message with a changed system prompt says first.
pub const SYSTEM_UPDATE_HEAD: &'static str =
    "系统提示更新:以下为当前生效的完整系统指令,取代此前系统消息中的旧版本;与旧版本冲突时以本更新为准。";

/// How the message with a changed system prompt ends.
pub const SYSTEM_UPDATE_CLOSE: &'static str = "\n</system-reminder>";

/// How many steps of a turn begin behind the last start of a turn.
pub open spec fn steps_begun(events: Seq<SessionEnvelope>, turn: u32) -> nat
    decreases events.len(),
{
    if events.len() == 0 {
        0
    } else {
        match events.last().event {
            SessionEvent::TurnStart { .. } => 0,
            SessionEvent::StepStart { turn: of, .. } => steps_begun(events.drop_last(), turn) + (
            if of == turn {
                1nat
            } else {
                0
            }),
            _ => steps_begun(events.drop_last(), turn),
        }
    }
}

/// The number of the next step of a turn.
pub fn turn_step_next(events: &[SessionEnvelope], turn: u32) -> (step: u32)
    requires
        events@.len() < u32::MAX,
    ensures
        step == steps_begun(events@, turn) + 1,
{
    let mut count: u32 = 0;
    let mut i: usize = events.len();
    assert(events@.take(i as int) =~= events@);
    while i > 0
        invariant
            i <= events@.len() < u32::MAX,
            count <= events@.len() - i,
            steps_begun(events@, turn) == count + steps_begun(events@.take(i as int), turn),
        decreases i,
    {
        assert(events@.take(i as int).drop_last() =~= events@.take(i - 1));
        i -= 1;
        match &events[i].event {
            SessionEvent::TurnStart { .. } => {
                return count + 1;
            },
            SessionEvent::StepStart { turn: of, .. } => {
                if *of == turn {
                    count += 1;
                }
            },
            _ => {},
        }
    }
    count + 1
}

/// The system prompt of the last request that had one.
pub open spec fn last_system(events: Seq<SessionEnvelope>) -> Option<Seq<char>>
    decreases events.len(),
{
    if events.len() == 0 {
        None
    } else {
        match events.last().event {
            SessionEvent::RequestHeader { header, .. } => match header.system {
                Some(system) => Some(system@),
                None => last_system(events.drop_last()),
            },
            _ => last_system(events.drop_last()),
        }
    }
}

/// The system prompt of the last request that had one: the provider has it cached. `None` where no
/// request was made.
pub fn last_request_header_system(events: &[SessionEnvelope]) -> (system: Option<String>)
    ensures
        text::opt_view(system) == last_system(events@),
{
    let mut i: usize = events.len();
    assert(events@.take(i as int) =~= events@);
    while i > 0
        invariant
            i <= events@.len(),
            last_system(events@) == last_system(events@.take(i as int)),
        decreases i,
    {
        assert(events@.take(i as int).drop_last() =~= events@.take(i - 1));
        i -= 1;
        if let SessionEvent::RequestHeader { header, .. } = &events[i].event {
            if let Some(system) = &header.system {
                return Some(system.clone());
            }
        }
    }
    None
}

/// The message with a changed system prompt.
pub open spec fn system_update(prompt: Seq<char>) -> Seq<char> {
    SYSTEM_UPDATE_OPEN@ + SYSTEM_UPDATE_HEAD@ + "\n\n"@ + prompt + SYSTEM_UPDATE_CLOSE@
}

/// The system prompt that a message carries.
pub open spec fn carried_system(message: Seq<char>) -> Option<Seq<char>> {
    match text::after_prefix(message, SYSTEM_UPDATE_OPEN@) {
        Some(rest) => match text::before_suffix(rest, SYSTEM_UPDATE_CLOSE@) {
            Some(inner) => text::after_first(inner, "\n\n"@),
            None => None,
        },
        None => None,
    }
}

/// The system prompt that a message carries.
pub fn extract_system_update(message: &str) -> (prompt: Option<String>)
    ensures
        text::opt_view(prompt) == carried_system(message@),
{
    match strip_prefix(message, SYSTEM_UPDATE_OPEN) {
        Some(rest) => match strip_suffix(rest.as_str(), SYSTEM_UPDATE_CLOSE) {
            Some(inner) => rest_after(inner.as_str(), "\n\n"),
            None => None,
        },
        None => None,
    }
}

/// What is read back from the message with a changed system prompt is that prompt.
pub proof fn system_update_is_read_back(prompt: Seq<char>)
    ensures
        carried_system(system_update(prompt)) == Some(prompt),
{
    let message = system_update(prompt);
    let head = SYSTEM_UPDATE_HEAD@;
    let inner = head + "\n\n"@ + prompt;
    let rest = inner + SYSTEM_UPDATE_CLOSE@;
    assert(message =~= SYSTEM_UPDATE_OPEN@ + rest);
    assert(SYSTEM_UPDATE_OPEN@.is_prefix_of(message));
    assert(message.skip(SYSTEM_UPDATE_OPEN@.len() as int) =~= rest);
    assert(SYSTEM_UPDATE_CLOSE@.is_suffix_of(rest));
    assert(rest.take(rest.len() - SYSTEM_UPDATE_CLOSE@.len()) =~= inner);
    reveal_strlit("\n\n");
    reveal_strlit("系统提示更新:以下为当前生效的完整系统指令,取代此前系统消息中的旧版本;与旧版本冲突时以本更新为准。");
    assert forall|i: int| 0 <= i < head.len() implies head[i] != '\n' by {}
    text::lemma_find_from(inner, "\n\n"@, 0);
    assert forall|at: int| 0 <= at < head.len() implies !text::occurs_at(inner, "\n\n"@, at) by {
        assert(inner[at] == head[at]);
        assert(inner.subrange(at, at + 2)[0] == inner[at]);
    }
    assert(text::occurs_at(inner, "\n\n"@, head.len() as int)) by {
        assert(inner.subrange(head.len() as int, head.len() as int + 2) =~= "\n\n"@);
    }
    assert(inner.skip(head.len() as int + 2) =~= prompt);
}

/// What the system prompt of a request is, given the one that the provider has cached.
pub open spec fn sent_system(frozen: Option<Seq<char>>, current: Seq<char>) -> Seq<char> {
    match frozen {
        Some(frozen) => frozen,
        None => current,
    }
}

/// Whether the model has to be told of a changed system prompt.
pub open spec fn tells_update(
    frozen: Option<Seq<char>>,
    told: Option<Seq<char>>,
    current: Seq<char>,
) -> bool {
    frozen is Some && frozen != Some(current) && told != Some(current)
}

/// The system prompt of a request. Once a request was made it stays as it was, for a changed one
/// would void all that the provider has cached; what changed is told in a message, once.
pub fn settle_system(
    frozen: &Option<String>,
    told: &mut Option<String>,
    current: String,
    events: &mut Vec<SessionEvent>,
) -> (system: String)
    ensures
        system@ == sent_system(text::opt_view(*frozen), current@),
        ({
            let tells = tells_update(text::opt_view(*frozen), text::opt_view(*old(told)), current@);
            &&& text::opt_view(*final(told)) == (if tells {
                Some(current@)
            } else {
                text::opt_view(*old(told))
            })
            &&& log::event_views(final(events)@) == (if tells {
                log::event_views(old(events)@).push(
                    log::injection(SYSTEM_UPDATE_CHANNEL@, system_update(current@)),
                )
            } else {
                log::event_views(old(events)@)
            })
        }),
{
    match frozen {
        Some(frozen) => {
            if !str_eq(frozen.as_str(), current.as_str()) {
                let same = match &*told {
                    Some(told) => str_eq(told.as_str(), current.as_str()),
                    None => false,
                };
                if !same {
                    let message = cat5(
                        SYSTEM_UPDATE_OPEN,
                        SYSTEM_UPDATE_HEAD,
                        "\n\n",
                        current.as_str(),
                        SYSTEM_UPDATE_CLOSE,
                    );
                    note(events, injected_message(SYSTEM_UPDATE_CHANNEL, message));
                    *told = Some(current);
                }
            }
            frozen.clone()
        },
        None => current,
    }
}

/// What a session was last told of its system prompt.
pub open spec fn restored_update(events: Seq<SessionEnvelope>) -> Option<Seq<char>> {
    match injections::last_of_channel(events, SYSTEM_UPDATE_CHANNEL@) {
        Some(message) => carried_system(message),
        None => None,
    }
}

/// What a session was last told of its system prompt.
pub fn restore_system_update(events: &[SessionEnvelope]) -> (told: Option<String>)
    ensures
        text::opt_view(told) == restored_update(events@),
{
    match last_injected_channel(events, SYSTEM_UPDATE_CHANNEL) {
        Some(message) => extract_system_update(message.as_str()),
        None => None,
    }
}

/// A prompt that was told is not told again, nor after the session is taken up anew.
pub proof fn system_update_is_told_once(frozen: Option<Seq<char>>, told: Option<Seq<char>>, current: Seq<char>)
    requires
        tells_update(frozen, told, current),
    ensures
        !tells_update(frozen, carried_system(system_update(current)), current),
{
    system_update_is_read_back(current);
}

/// Whether the part of the system prompt that is meant for the user is logged: in the first step
/// of a turn, and whenever it differs from what was logged last.
pub fn should_log_system_prompt(last: Option<&str>, step: u32, prompt: &str) -> (yes: bool)
    ensures
        yes == (step == 1 || text::opt_str_view(last) != Some(prompt@)),
{
    if step == 1 {
        return true;
    }
    match last {
        Some(last) => !str_eq(last, prompt),
        None => true,
    }
}

/// The message with the text of a skill that the user called for.
pub fn gesture_message(name: &str, source: &str, body: &str) -> (event: SessionEvent)
    ensures
        event@ == log::injection(
            "gesture-skill"@,
            "[技能正文 "@ + name@ + "（来源："@ + source@ + "）]\n"@ + body@,
        ),
{
    let head = cat5("[技能正文 ", name, "（来源：", source, "）]\n");
    injected_message("gesture-skill", text::cat2(head.as_str(), body))
}

/// How a step and its turn are closed when the prompt cannot be put together.
pub fn close_unassembled(turn: u32, step: u32, error: &str, events: &mut Vec<SessionEvent>) -> (reason:
    TurnEndReason)
    ensures
        reason@ == (ReasonView::Error { failure: error::plain_failure(codes::UNKNOWN@, error@) }),
        log::event_views(final(events)@) == log::event_views(old(events)@) + seq![
            EventView::StepEnd { turn, step },
            EventView::TurnEnd { turn, reason: reason@ },
        ],
{
    let ghost before = log::event_views(events@);
    let failure = LlmFailure::new(codes::UNKNOWN, error);
    let reason = TurnEndReason::Error { failure: failure.clone() };
    note(events, SessionEvent::StepEnd { turn, step });
    note(events, SessionEvent::TurnEnd { turn, reason: TurnEndReason::Error { failure } });
    assert(log::event_views(events@) =~= before + seq![
        EventView::StepEnd { turn, step },
        EventView::TurnEnd { turn, reason: reason@ },
    ]);
    reason
}

/// What follows from an answer.
pub enum StepMove {
    /// The turn has ended.
    End { reason: TurnEndReason },
    /// A new step begins.
    Again,
    /// The calls are carried out, and then the step ends.
    Run { calls: Vec<ToolCallRef> },
}

pub enum MoveView {
    End { reason: ReasonView },
    Again,
    /// The calls of the answer.
    Run { calls: Seq<CallView> },
    /// The calls that the answer wrote into its text.
    Rescue { calls: Seq<RescuedView> },
}

/// What is logged and done after an answer, and how often the model has been told of a mistake.
pub struct AnswerPlan {
    pub events: Seq<EventView>,
    pub next: MoveView,
    pub feedback: u32,
}

/// The end of a step and its turn.
pub open spec fn closing(turn: u32, step: u32, reason: ReasonView) -> Seq<EventView> {
    seq![EventView::StepEnd { turn, step }, EventView::TurnEnd { turn, reason }]
}

/// What the model is told of calls that it wrote into its text.
pub open spec fn fake_feedback(names: Seq<Seq<char>>) -> Seq<char> {
    "[harness] 你上一条输出把工具调用写成了正文标签(<tool_call>/<function=…>),这些调用没有被执行:"@
        + text::joined(rescue::bracketed(names), ", "@)
        + "。\n请改用响应的原生 tool_calls 字段发起工具调用,不要输出 <tool_call> 之类的文本标签;若确实不需要调用工具,直接给出文字回答。"@
}

/// What follows from an answer, given what the loop guard says of it.
///
/// A repeated answer ends the turn, or warns the model first. Calls that the model wrote into its
/// text are carried out if they can be read; else the model is told, as long as the quota lasts.
pub open spec fn answer_plan(
    turn: u32,
    step: u32,
    blocks: Seq<ContentBlock>,
    hit_max_tokens: bool,
    verdict: LoopVerdict,
    feedback: u32,
) -> AnswerPlan {
    let warned = if verdict is Warn {
        seq![log::injection("loop-warning"@, LOOP_WARN_TEXT@)]
    } else {
        Seq::empty()
    };
    let calls = history::blocks_calls(blocks);
    let names = rescue::names_in(blocks);
    match verdict {
        LoopVerdict::Block { repeats } => AnswerPlan {
            events: closing(turn, step, ReasonView::LoopDetected { repeats }),
            next: MoveView::End { reason: ReasonView::LoopDetected { repeats } },
            feedback,
        },
        _ => if hit_max_tokens {
            AnswerPlan {
                events: warned + closing(turn, step, ReasonView::MaxTokens),
                next: MoveView::End { reason: ReasonView::MaxTokens },
                feedback,
            }
        } else if calls.len() > 0 {
            AnswerPlan { events: warned, next: MoveView::Run { calls }, feedback }
        } else {
            match rescue::rescued_blocks(blocks) {
                Some(rescued) => AnswerPlan {
                    events: warned,
                    next: MoveView::Rescue { calls: rescued },
                    feedback,
                },
                None => if names.len() > 0 && feedback < MAX_FEEDBACK {
                    AnswerPlan {
                        events: warned + seq![
                            EventView::StepEnd { turn, step },
                            log::injection("feedback"@, fake_feedback(names)),
                        ],
                        next: MoveView::Again,
                        feedback: (feedback + 1) as u32,
                    }
                } else {
                    AnswerPlan {
                        events: warned + closing(turn, step, ReasonView::Completed),
                        next: MoveView::End { reason: ReasonView::Completed },
                        feedback,
                    }
                },
            }
        },
    }
}

/// Whether calls are the ones that were read from a text, each under a new id.
pub open spec fn stand_for(calls: Seq<CallView>, rescued: Seq<RescuedView>) -> bool {
    &&& calls.len() == rescued.len()
    &&& forall|i: int|
        0 <= i < calls.len() ==> {
            &&& (#[trigger] calls[i]).name == rescued[i].name
            &&& calls[i].arguments == json::compact(rescued[i].arguments)
            &&& ids::is_new_id(calls[i].id)
        }
}

/// Whether a move is the one that is planned.
pub open spec fn carries_out(next: StepMove, planned: MoveView) -> bool {
    match planned {
        MoveView::End { reason } => next matches StepMove::End { reason: ended } && ended@ == reason,
        MoveView::Again => next is Again,
        MoveView::Run { calls } => next matches StepMove::Run { calls: made } && message::call_views(
            made@,
        ) == calls,
        MoveView::Rescue { calls } => next matches StepMove::Run { calls: made } && stand_for(
            message::call_views(made@),
            calls,
        ),
    }
}

/// Gives the calls that were read from a text an id each.
pub fn name_calls(rescued: &Vec<RescuedCall>) -> (calls: Vec<ToolCallRef>)
    ensures
        stand_for(message::call_views(calls@), rescue::rescued_views(rescued@)),
{
    let mut calls: Vec<ToolCallRef> = Vec::new();
    let mut i: usize = 0;
    while i < rescued.len()
        invariant
            i <= rescued@.len(),
            calls@.len() == i,
            stand_for(message::call_views(calls@), rescue::rescued_views(rescued@).take(i as int)),
        decreases rescued@.len() - i,
    {
        let call = ToolCallRef {
            id: new_id(),
            name: rescued[i].name.clone(),
            arguments: rescued[i].arguments.to_text(),
        };
        assert(message::call_views(calls@.push(call)) =~= message::call_views(calls@).push(call@));
        calls.push(call);
        i += 1;
    }
    assert(rescue::rescued_views(rescued@).take(rescued@.len() as int) =~= rescue::rescued_views(
        rescued@,
    ));
    calls
}

fn end_turn(turn: u32, step: u32, reason: TurnEndReason, events: &mut Vec<SessionEvent>) -> (next:
    StepMove)
    requires
        reason is Completed || reason is MaxTokens || reason is LoopDetected,
    ensures
        log::event_views(final(events)@) == log::event_views(old(events)@) + closing(
            turn,
            step,
            reason@,
        ),
        next matches StepMove::End { reason: ended } && ended@ == reason@,
{
    let ghost before = log::event_views(events@);
    let same = match &reason {
        TurnEndReason::LoopDetected { repeats } => TurnEndReason::LoopDetected { repeats: *repeats },
        TurnEndReason::MaxTokens => TurnEndReason::MaxTokens,
        _ => TurnEndReason::Completed,
    };
    note(events, SessionEvent::StepEnd { turn, step });
    note(events, SessionEvent::TurnEnd { turn, reason: same });
    assert(log::event_views(events@) =~= before + closing(turn, step, reason@));
    StepMove::End { reason }
}

/// What follows from an answer, given what the loop guard says of it.
pub fn plan_answer(
    turn: u32,
    step: u32,
    blocks: &Vec<ContentBlock>,
    hit_max_tokens: bool,
    verdict: LoopVerdict,
    feedback: &mut u32,
    events: &mut Vec<SessionEvent>,
) -> (next: StepMove)
    ensures
        ({
            let plan = answer_plan(turn, step, blocks@, hit_max_tokens, verdict, *old(feedback));
            &&& *final(feedback) == plan.feedback
            &&& log::event_views(final(events)@) == log::event_views(old(events)@) + plan.events
            &&& carries_out(next, plan.next)
        }),
{
    let ghost before = log::event_views(events@);
    let ghost quota = *feedback;
    if let LoopVerdict::Block { repeats } = verdict {
        return end_turn(turn, step, TurnEndReason::LoopDetected { repeats }, events);
    }
    let ghost mut warned: Seq<EventView> = Seq::empty();
    if let LoopVerdict::Warn { .. } = verdict {
        note(events, injected_message("loop-warning", LOOP_WARN_TEXT.to_owned()));
        proof {
            warned = seq![log::injection("loop-warning"@, LOOP_WARN_TEXT@)];
        }
    }
    assert(log::event_views(events@) =~= before + warned);
    let ghost plan = answer_plan(turn, step, blocks@, hit_max_tokens, verdict, quota);
    if hit_max_tokens {
        let next = end_turn(turn, step, TurnEndReason::MaxTokens, events);
        assert(log::event_views(events@) =~= before + plan.events);
        return next;
    }
    let calls = calls_of_blocks(blocks);
    if calls.len() > 0 {
        assert(message::call_views(calls@).len() > 0);
        return StepMove::Run { calls };
    }
    assert(history::blocks_calls(blocks@).len() == 0);
    match rescue_from_blocks(blocks) {
        Some(rescued) => StepMove::Run { calls: name_calls(&rescued) },
        None => {
            let names = detect_fake_names(blocks);
            assert(text::views(names@).len() == names@.len());
            if names.len() > 0 && *feedback < MAX_FEEDBACK {
                *feedback = *feedback + 1;
                note(events, SessionEvent::StepEnd { turn, step });
                note(events, injected_message("feedback", fake_tool_call_feedback(&names)));
                assert(log::event_views(events@) =~= before + plan.events);
                StepMove::Again
            } else {
                let next = end_turn(turn, step, TurnEndReason::Completed, events);
                assert(log::event_views(events@) =~= before + plan.events);
                next
            }
        },
    }
}

/// What follows from an answer. The guard remembers it.
pub fn after_answer(
    turn: u32,
    step: u32,
    blocks: &Vec<ContentBlock>,
    finish: &Option<FinishReason>,
    guard: &mut LoopGuard,
    feedback: &mut u32,
    events: &mut Vec<SessionEvent>,
) -> (next: StepMove)
    requires
        loop_guard::longest_run(old(guard)@) < u32::MAX,
    ensures
        final(guard)@ == loop_guard::guard_after(
            old(guard)@,
            loop_guard::answer_text(blocks@),
            loop_guard::call_signature(blocks@),
        ),
        ({
            let plan = answer_plan(
                turn,
                step,
                blocks@,
                *finish matches Some(FinishReason::MaxTokens),
                loop_guard::verdict_of(
                    final(guard)@,
                    loop_guard::answer_text(blocks@),
                    loop_guard::call_signature(blocks@),
                ),
                *old(feedback),
            );
            &&& *final(feedback) == plan.feedback
            &&& log::event_views(final(events)@) == log::event_views(old(events)@) + plan.events
            &&& carries_out(next, plan.next)
        }),
{
    let verdict = guard.observe(blocks);
    let hit_max_tokens = match finish {
        Some(FinishReason::MaxTokens) => true,
        _ => false,
    };
    plan_answer(turn, step, blocks, hit_max_tokens, verdict, feedback, events)
}

/// Whatever an answer is, the log stays in balance: the turn is closed where it ends, the step is
/// closed where a new one begins, and the step is open where calls are carried out.
pub proof fn answer_keeps_the_log_balanced(
    turn: u32,
    step: u32,
    blocks: Seq<ContentBlock>,
    hit_max_tokens: bool,
    verdict: LoopVerdict,
    feedback: u32,
)
    ensures
        ({
            let plan = answer_plan(turn, step, blocks, hit_max_tokens, verdict, feedback);
            log::state_after_all(LogState::Step { turn, step }, plan.events) == Some(
                match plan.next {
                    MoveView::End { .. } => LogState::Closed,
                    MoveView::Again => LogState::Turn { turn },
                    _ => LogState::Step { turn, step },
                },
            )
        }),
{
    let plan = answer_plan(turn, step, blocks, hit_max_tokens, verdict, feedback);
    reveal_with_fuel(log::state_after_all, 4);
    if plan.events.len() > 1 {
        assert(plan.events.drop_last().len() == plan.events.len() - 1);
    }
}

/// The model is told of its mistakes at most as often as the quota says.
pub proof fn feedback_is_bounded(
    turn: u32,
    step: u32,
    blocks: Seq<ContentBlock>,
    hit_max_tokens: bool,
    verdict: LoopVerdict,
    feedback: u32,
)
    requires
        feedback <= MAX_FEEDBACK,
    ensures
        ({
            let plan = answer_plan(turn, step, blocks, hit_max_tokens, verdict, feedback);
            &&& plan.feedback <= MAX_FEEDBACK
            &&& plan.next is Again ==> plan.feedback == feedback + 1
        }),
{
}

} // verus!
