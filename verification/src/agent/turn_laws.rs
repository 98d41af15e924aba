//! What comes of every request and of every answer.
use vstd::prelude::*;
use vstd::string::*;

use crate::agent::errors;
use crate::agent::log::{EventView, HeaderView, ReasonView};
use crate::agent::loop_guard::LoopVerdict;
use crate::agent::request;
use crate::agent::request::{AttemptView, Backoff, EndView, RequestLogView};
use crate::agent::rescue;
use crate::agent::turn;
use crate::agent::turn::MoveView;
use crate::codes;
use crate::error::FailureView;
use crate::history;
use crate::session::{AbortCause, RequestHeaderReason, SessionEnvelope, SessionEvent};
use crate::stream::{ContentBlock, FinishReason, StreamChunk};
use crate::text;

verus! {

/// What an attempt has brought after some chunks, each with its place in the log.
pub open spec fn brought(chunks: Seq<(StreamChunk, u64)>) -> AttemptView
    decreases chunks.len(),
{
    if chunks.len() == 0 {
        request::nothing_yet()
    } else {
        request::with_chunk(brought(chunks.drop_last()), chunks.last().0, chunks.last().1)
    }
}

/// Each finished block of a stream is part of what it brought, in order, and nothing else is; each
/// chunk's place in the log is kept; of the token counts and of the ends the last counts.
pub proof fn stream_is_taken_up_whole(chunks: Seq<(StreamChunk, u64)>, chunk: StreamChunk, seq: u64)
    ensures
        ({
            let before = brought(chunks);
            let after = brought(chunks.push((chunk, seq)));
            &&& after.sources == before.sources.push(seq)
            &&& after.sources.len() == chunks.len() + 1
            &&& match chunk {
                StreamChunk::BlockEnd { block, .. } => after.blocks == before.blocks.push(block),
                _ => after.blocks == before.blocks,
            }
            &&& match chunk {
                StreamChunk::Usage { usage } => after.usage == Some(usage),
                _ => after.usage == before.usage,
            }
            &&& match chunk {
                StreamChunk::Finish { reason } => after.finish == Some(reason),
                _ => after.finish == before.finish,
            }
        }),
        brought(Seq::empty()).blocks.len() == 0 && brought(Seq::empty()).usage is None && brought(
            Seq::empty(),
        ).finish is None,
    decreases chunks.len(),
{
    assert(chunks.push((chunk, seq)).drop_last() =~= chunks);
    lemma_sources(chunks);
}

proof fn lemma_sources(chunks: Seq<(StreamChunk, u64)>)
    ensures
        brought(chunks).sources.len() == chunks.len(),
    decreases chunks.len(),
{
    if chunks.len() > 0 {
        lemma_sources(chunks.drop_last());
    }
}

/// An attempt fails if its stream breaks or ends with a failure, and with that failure.
pub proof fn broken_stream_is_a_failure(finish: Option<FinishReason>, error: FailureView)
    ensures
        request::failure_of(finish, Some(error)) == Some(error),
        match finish {
            Some(FinishReason::Error { failure }) => request::failure_of(finish, None) == Some(
                failure@,
            ),
            Some(FinishReason::Aborted { failure }) => request::failure_of(finish, None) == Some(
                failure@,
            ),
            _ => request::failure_of(finish, None) is None,
        },
{
}

/// An attempt that did not fail becomes the model's message: all its blocks, its tokens and its
/// places in the log.
pub proof fn good_attempt_becomes_a_message(
    turn: u32,
    step: u32,
    attempt: AttemptView,
    cancelled: bool,
    backoff: Backoff,
    retries: u32,
    feedback: u32,
)
    requires
        request::failure_of(attempt.finish, None) is None,
    ensures
        ({
            let plan = request::attempt_plan(
                turn,
                step,
                attempt,
                None,
                false,
                cancelled,
                backoff,
                retries,
                feedback,
            );
            &&& plan.events == seq![
                EventView::Answer {
                    turn,
                    step,
                    blocks: attempt.blocks,
                    usage: attempt.usage,
                    interrupted: false,
                    sources: attempt.sources,
                },
            ]
            &&& plan.next == (EndView::Step { blocks: attempt.blocks, finish: attempt.finish })
            &&& plan.retries == retries && plan.feedback == feedback
        }),
{
}

/// What came before the user cancelled is kept as a message that is marked so, and the turn ends.
pub proof fn interrupted_attempt_is_kept(
    turn: u32,
    step: u32,
    attempt: AttemptView,
    stream_error: Option<FailureView>,
    cancelled: bool,
    backoff: Backoff,
    retries: u32,
    feedback: u32,
)
    ensures
        ({
            let plan = request::attempt_plan(
                turn,
                step,
                attempt,
                stream_error,
                true,
                cancelled,
                backoff,
                retries,
                feedback,
            );
            let reason = ReasonView::Aborted { cause: Some(AbortCause::User) };
            &&& plan.events.len() == 3
            &&& plan.events[0] == (EventView::Answer {
                turn,
                step,
                blocks: attempt.blocks,
                usage: attempt.usage,
                interrupted: true,
                sources: attempt.sources,
            })
            &&& plan.events[1] == (EventView::StepEnd { turn, step })
            &&& plan.events[2] == (EventView::TurnEnd { turn, reason })
            &&& plan.next == (EndView::Ended { reason })
        }),
{
}

/// A failure that the model can do something about.
pub open spec fn is_models_matter(code: Seq<char>) -> bool {
    code == codes::INVALID_REQUEST@ || code == codes::MALFORMED_RESPONSE@ || code
        == codes::UNSUPPORTED_CONTENT@ || code == codes::UNSUPPORTED_REASONING_EFFORT@
}

/// A failure is tried again, after the pause that is set, if and only if the policy says so, the
/// retries are not used up and the user has not cancelled. Otherwise the model is told of it, where
/// it can do something about it and was not told twice before; and else the turn ends with it.
pub proof fn failure_is_dealt_with(
    turn: u32,
    step: u32,
    attempt: AttemptView,
    stream_error: Option<FailureView>,
    cancelled: bool,
    backoff: Backoff,
    retries: u32,
    feedback: u32,
    failure: FailureView,
)
    requires
        request::failure_of(attempt.finish, stream_error) == Some(failure),
    ensures
        ({
            let plan = request::attempt_plan(
                turn,
                step,
                attempt,
                stream_error,
                false,
                cancelled,
                backoff,
                retries,
                feedback,
            );
            let again = backoff.retryable && retries < backoff.max_retries && !cancelled;
            &&& again ==> {
                &&& plan.next == (EndView::Wait { delay_ms: backoff.delay_ms, attempt })
                &&& plan.retries == retries + 1
                &&& plan.feedback == feedback
                &&& plan.events == seq![
                    EventView::Retry {
                        turn,
                        step,
                        attempt: (retries + 1) as u32,
                        code: failure.code,
                        message: failure.message,
                        delay_ms: backoff.delay_ms,
                    },
                ]
            }
            &&& !again && is_models_matter(failure.code) && feedback < 2 ==> {
                &&& plan.next is Restart
                &&& plan.feedback == feedback + 1
                &&& plan.events.len() == 2
                &&& plan.events[1] matches EventView::Injected { text, .. } && text::has(
                    text,
                    failure.message,
                ) && text::has(text, failure.code)
            }
            &&& !again && !(is_models_matter(failure.code) && feedback < 2) ==> {
                &&& plan.next matches EndView::Ended { reason } && (
                reason matches ReasonView::Error { failure: told } && told == (FailureView {
                    message: told.message,
                    ..failure
                }))
                &&& plan.feedback == feedback
            }
        }),
{
    let told = errors::feedback(failure);
    let open = "[harness] 上一次模型请求被提供方拒绝("@;
    let advice = if errors::is_broken_response(failure.code) {
        errors::BROKEN_RESPONSE_ADVICE@
    } else {
        errors::REFUSED_REQUEST_ADVICE@
    };
    let a = open.len() as int;
    let b = a + failure.code.len() + ":"@.len();
    assert(told == open + failure.code + ":"@ + failure.message + ")。"@ + advice);
    assert(text::occurs_at(told, failure.code, a)) by {
        assert(told.subrange(a, a + failure.code.len()) =~= failure.code);
    }
    assert(text::occurs_at(told, failure.message, b)) by {
        assert(told.subrange(b, b + failure.message.len()) =~= failure.message);
    }
}

/// The user is told the provider's own words, up to their limit, whenever there are any.
pub proof fn user_is_told_the_providers_words(failure: FailureView, retries: u32)
    ensures
        text::has(
            errors::summary_text(failure, retries),
            errors::raw_head(text::trimmed(failure.message)),
        ) || text::trimmed(failure.message).len() == 0,
        text::trimmed(failure.message).len() <= 300 ==> errors::raw_head(
            text::trimmed(failure.message),
        ) == text::trimmed(failure.message),
        forall|i: int|
            0 <= i < 300 && i < text::trimmed(failure.message).len() ==> #[trigger] errors::raw_head(
                text::trimmed(failure.message),
            )[i] == text::trimmed(failure.message)[i],
        text::has(
            errors::summary_text(failure, retries),
            errors::classified(failure.code, retries).0,
        ),
        text::has(
            errors::summary_text(failure, retries),
            errors::classified(failure.code, retries).1,
        ),
{
    let raw = text::trimmed(failure.message);
    let head = errors::raw_head(raw);
    let (conclusion, hint) = errors::classified(failure.code, retries);
    let note = errors::retry_note(failure.code, retries);
    let advice = conclusion + note + hint;
    let all = errors::summary_text(failure, retries);
    let open = "(原始信息:"@;
    assert(text::occurs_at(all, conclusion, 0)) by {
        assert(all.subrange(0, conclusion.len() as int) =~= conclusion);
    }
    let b = conclusion.len() + note.len();
    assert(text::occurs_at(all, hint, b as int)) by {
        assert(all.subrange(b as int, (b + hint.len()) as int) =~= hint);
    }
    if raw.len() > 0 {
        let a = (advice.len() + open.len()) as int;
        assert(text::occurs_at(all, head, a)) by {
            assert(all.subrange(a, a + head.len()) =~= head);
        }
    }
}

/// A request is logged in full whenever it differs from the last one of its turn, and not otherwise.
pub proof fn changed_request_is_logged(
    turn: u32,
    step: u32,
    header: HeaderView,
    context: (Seq<char>, Seq<char>, Option<u64>),
    logged: RequestLogView,
)
    ensures
        ({
            let events = request::request_events(turn, step, header, context, logged);
            let new_header = logged.last_header != Some(header);
            let new_context = logged.last_context != Some(context);
            &&& events.len() == (if new_header {
                1int
            } else {
                0
            }) + (if new_context {
                1int
            } else {
                0
            })
            &&& new_header ==> (events[0] matches EventView::Header {
                turn: of,
                step: at,
                header: told,
                reason,
                starts_series,
            } && of == turn && at == step && told == header && reason == (
            if logged.last_header is Some {
                RequestHeaderReason::Change
            } else if logged.has_request_header {
                RequestHeaderReason::Resume
            } else {
                RequestHeaderReason::Initial
            }) && starts_series == (logged.last_header is Some))
            &&& new_context ==> events.last() == (EventView::Context {
                turn,
                step,
                provider: context.0,
                model: context.1,
                context_window: context.2,
            })
            &&& request::logged_after(header, context, logged).last_header == Some(header)
            &&& request::logged_after(header, context, logged).last_context == Some(context)
            &&& new_header || logged.has_request_header ==> request::logged_after(
                header,
                context,
                logged,
            ).has_request_header
        }),
{
}

/// The last header and the last turn of a log are those of its last such events.
pub proof fn last_of_a_log(events: Seq<SessionEnvelope>, at: int)
    requires
        0 <= at < events.len(),
    ensures
        (events[at].event is RequestHeader && forall|j: int|
            at < j < events.len() ==> !((#[trigger] events[j]).event is RequestHeader)) ==> (
        events[at].event matches SessionEvent::RequestHeader { header, .. } && request::last_header(
            events,
        ) == Some(header@)),
        (events[at].event is TurnStart && forall|j: int|
            at < j < events.len() ==> !((#[trigger] events[j]).event is TurnStart)) ==> (
        events[at].event matches SessionEvent::TurnStart { turn } && request::last_turn(events)
            == turn),
        (forall|j: int|
            0 <= j < events.len() ==> !((#[trigger] events[j]).event is RequestHeader))
            ==> request::last_header(events) is None,
    decreases events.len(),
{
    let rest = events.drop_last();
    let end = events.len() - 1;
    assert(events[end] == events.last());
    if at < end {
        last_of_a_log(rest, at);
        assert forall|j: int| 0 <= j < rest.len() implies #[trigger] rest[j] == events[j] by {}
        if forall|j: int| at < j < events.len() ==> !((
        #[trigger] events[j]).event is RequestHeader) {
            assert forall|j: int| at < j < rest.len() implies !((
            #[trigger] rest[j]).event is RequestHeader) by {
                assert(!(events[j].event is RequestHeader));
            }
        }
        if forall|j: int| at < j < events.len() ==> !((#[trigger] events[j]).event is TurnStart) {
            assert forall|j: int| at < j < rest.len() implies !((
            #[trigger] rest[j]).event is TurnStart) by {
                assert(!(events[j].event is TurnStart));
            }
        }
    }
    if forall|j: int| 0 <= j < events.len() ==> !((#[trigger] events[j]).event is RequestHeader) {
        lemma_no_header(events);
    }
}

proof fn lemma_no_header(events: Seq<SessionEnvelope>)
    requires
        forall|j: int| 0 <= j < events.len() ==> !((#[trigger] events[j]).event is RequestHeader),
    ensures
        request::last_header(events) is None,
    decreases events.len(),
{
    if events.len() > 0 {
        let rest = events.drop_last();
        assert(!(events[events.len() - 1].event is RequestHeader));
        assert forall|j: int| 0 <= j < rest.len() implies !((
        #[trigger] rest[j]).event is RequestHeader) by {
            assert(!(events[j].event is RequestHeader));
        }
        lemma_no_header(rest);
    }
}

/// What follows from an answer: calls are carried out, all of them; without calls the turn is
/// complete. A repeated answer ends the turn, and so does one that was cut off; and only an answer
/// that brought a warning is warned of.
pub proof fn answer_is_followed_up(
    turn: u32,
    step: u32,
    blocks: Seq<ContentBlock>,
    hit_max_tokens: bool,
    verdict: LoopVerdict,
    feedback: u32,
)
    ensures
        ({
            let plan = turn::answer_plan(turn, step, blocks, hit_max_tokens, verdict, feedback);
            let calls = history::blocks_calls(blocks);
            let free = !(verdict is Block) && !hit_max_tokens;
            &&& verdict matches LoopVerdict::Block { repeats } ==> plan.next == (MoveView::End {
                reason: ReasonView::LoopDetected { repeats },
            })
            &&& !(verdict is Block) && hit_max_tokens ==> plan.next == (MoveView::End {
                reason: ReasonView::MaxTokens,
            })
            &&& free && calls.len() > 0 ==> plan.next == (MoveView::Run { calls })
            &&& free && calls.len() == 0 ==> match rescue::rescued_blocks(blocks) {
                Some(rescued) => plan.next == (MoveView::Rescue { calls: rescued }),
                None => if rescue::names_in(blocks).len() > 0 && feedback < 2 {
                    plan.next is Again && plan.feedback == feedback + 1
                } else {
                    plan.next == (MoveView::End { reason: ReasonView::Completed })
                },
            }
            &&& !(plan.next is Again) ==> plan.feedback == feedback
            &&& (plan.events.len() > 0 && (plan.events[0] matches EventView::Injected {
                channel: Some(channel),
                ..
            } && channel == "loop-warning"@)) == (verdict is Warn)
            &&& plan.next matches MoveView::End { reason } ==> plan.events.last() == (
            EventView::TurnEnd { turn, reason })
        }),
{
    reveal_strlit("loop-warning");
    reveal_strlit("feedback");
    assert("loop-warning"@.len() == 12 && "feedback"@.len() == 8);
}

/// How many events of a range begin a step of a turn.
pub open spec fn steps_within(events: Seq<SessionEnvelope>, from: int, turn: u32) -> nat
    decreases events.len() - from,
{
    if from < 0 || from >= events.len() {
        0
    } else {
        (if events[from].event matches SessionEvent::StepStart { turn: of, .. } && of == turn {
            1nat
        } else {
            0
        }) + steps_within(events, from + 1, turn)
    }
}

/// The steps of a turn are counted from its beginning: those behind the last start of a turn.
pub proof fn steps_of_the_turn_are_counted(events: Seq<SessionEnvelope>, at: int, turn: u32)
    requires
        0 <= at <= events.len(),
        at > 0 ==> events[at - 1].event is TurnStart,
        forall|j: int| at <= j < events.len() ==> !((#[trigger] events[j]).event is TurnStart),
    ensures
        turn::steps_begun(events, turn) == steps_within(events, at, turn),
    decreases events.len(),
{
    if at < events.len() {
        let rest = events.drop_last();
        assert(!(events[events.len() - 1].event is TurnStart));
        assert forall|j: int| at <= j < rest.len() implies !((
        #[trigger] rest[j]).event is TurnStart) by {
            assert(!(events[j].event is TurnStart));
        }
        steps_of_the_turn_are_counted(rest, at, turn);
        lemma_steps_last(events, at, turn);
    } else if events.len() > 0 {
        assert(events[events.len() - 1] == events.last());
    }
}

proof fn lemma_steps_last(events: Seq<SessionEnvelope>, from: int, turn: u32)
    requires
        0 <= from < events.len(),
    ensures
        steps_within(events, from, turn) == steps_within(events.drop_last(), from, turn) + (if (
        events.last().event matches SessionEvent::StepStart { turn: of, .. } && of == turn) {
            1nat
        } else {
            0
        }),
    decreases events.len() - from,
{
    if from < events.len() - 1 {
        lemma_steps_last(events, from + 1, turn);
    } else {
        assert(steps_within(events, from + 1, turn) == 0);
    }
}

/// Once a request was made, the system prompt that is sent stays as it was; a prompt that differs
/// from it is told in a message, unless it was told already.
pub proof fn changed_prompt_is_told(
    frozen: Seq<char>,
    told: Option<Seq<char>>,
    current: Seq<char>,
)
    ensures
        turn::sent_system(Some(frozen), current) == frozen,
        turn::sent_system(None, current) == current,
        turn::tells_update(Some(frozen), told, current) == (frozen != current && told != Some(
            current,
        )),
        !turn::tells_update(None, told, current),
        text::has(turn::system_update(current), current),
{
    let all = turn::system_update(current);
    let at = (turn::SYSTEM_UPDATE_OPEN@ + turn::SYSTEM_UPDATE_HEAD@ + "\n\n"@).len() as int;
    assert(all.subrange(at, at + current.len()) =~= current);
    assert(text::occurs_at(all, current, at));
}

/// The system prompt that a session began with is that of its last request.
pub proof fn last_prompt_is_kept(events: Seq<SessionEnvelope>, at: int)
    requires
        0 <= at < events.len(),
        forall|j: int| at < j < events.len() ==> !((#[trigger] events[j]).event is RequestHeader),
    ensures
        events[at].event matches SessionEvent::RequestHeader { header, .. } ==> (
        header.system matches Some(system) ==> turn::last_system(events) == Some(system@)),
    decreases events.len(),
{
    if at < events.len() - 1 {
        let rest = events.drop_last();
        assert forall|j: int| at < j < rest.len() implies !((
        #[trigger] rest[j]).event is RequestHeader) by {
            assert(!(events[j].event is RequestHeader));
        }
        last_prompt_is_kept(rest, at);
        assert(!(events[events.len() - 1].event is RequestHeader));
    }
}

} // verus!
