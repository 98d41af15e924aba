//! What holds of every derived history.
use vstd::prelude::*;

use crate::history;
use crate::history::{Projection, SurfaceView};
use crate::message;
use crate::message::{ChatRole, MessageView};
use crate::session::{SessionEnvelope, SessionEvent};

verus! {

/// Events that are kept in the log and never reach the model.
pub open spec fn is_silent(event: SessionEvent) -> bool {
    !(event is AgentDelivery) && !(event is UserMessage) && !(event is CompactionSummary) && !(
    event is AssistantMessage) && !(event is ToolResult)
}

/// A silent event changes nothing in the history, wherever it stands in the log.
pub proof fn silent_events_project_nothing(
    before: Seq<SessionEnvelope>,
    silent: SessionEnvelope,
    after: Seq<SessionEnvelope>,
)
    requires
        is_silent(silent.event),
    ensures
        history::surface_of(before.push(silent) + after) == history::surface_of(before + after),
{
    lemma_silent(before, silent, after);
}

proof fn lemma_silent(
    before: Seq<SessionEnvelope>,
    silent: SessionEnvelope,
    after: Seq<SessionEnvelope>,
)
    requires
        is_silent(silent.event),
    ensures
        history::projection(before.push(silent) + after) == history::projection(before + after),
    decreases after.len(),
{
    if after.len() == 0 {
        assert(before.push(silent) + after =~= before.push(silent));
        assert(before + after =~= before);
        assert(before.push(silent).drop_last() =~= before);
    } else {
        lemma_silent(before, silent, after.drop_last());
        assert((before.push(silent) + after).drop_last() =~= before.push(silent)
            + after.drop_last());
        assert((before + after).drop_last() =~= before + after.drop_last());
    }
}

/// No message of a history carries the model's reasoning.
pub proof fn history_holds_no_reasoning(events: Seq<SessionEnvelope>, i: int)
    requires
        0 <= i < history::surface_of(events).len(),
    ensures
        history::surface_of(events)[i].message.reasoning_content is None,
{
    let p = history::projection(events);
    lemma_no_reasoning(events);
    lemma_no_reasoning_placed(p.surface, p.summaries);
    lemma_no_reasoning_answered(history::place_summaries(p.surface, p.summaries), p.unanswered);
}

spec fn unreasoned(surface: Seq<SurfaceView>) -> bool {
    forall|i: int|
        0 <= i < surface.len() ==> (#[trigger] surface[i]).message.reasoning_content is None
}

proof fn lemma_no_reasoning(events: Seq<SessionEnvelope>)
    ensures
        unreasoned(history::projection(events).surface),
    decreases events.len(),
{
    if events.len() > 0 {
        lemma_no_reasoning(events.drop_last());
        let p = history::projection(events.drop_last());
        if let SessionEvent::CompactionSummary { replaces_from, replaces_to, .. } =
            events.last().event {
            lemma_no_reasoning_dropped(p.surface, replaces_from, replaces_to);
        }
        if let SessionEvent::ToolResult { replaces: Some(old), .. } = events.last().event {
            lemma_position_of(p.surface, old, 0);
        }
    }
}

/// What is found is there.
proof fn lemma_position_of(surface: Seq<SurfaceView>, seq: u64, from: int)
    requires
        0 <= from,
    ensures
        history::position_of(surface, seq, from) matches Some(at) ==> from <= at < surface.len()
            && surface[at].seq == seq,
    decreases surface.len() - from,
{
    if from < surface.len() && surface[from].seq != seq {
        lemma_position_of(surface, seq, from + 1);
    }
}

proof fn lemma_position_from(surface: Seq<SurfaceView>, seq: u64, from: int)
    requires
        0 <= from <= surface.len(),
    ensures
        from <= history::position_from(surface, seq, from) <= surface.len(),
    decreases surface.len() - from,
{
    if from < surface.len() && surface[from].seq < seq {
        lemma_position_from(surface, seq, from + 1);
    }
}

proof fn lemma_no_reasoning_dropped(surface: Seq<SurfaceView>, from: u64, to: u64)
    requires
        unreasoned(surface),
    ensures
        unreasoned(history::without_range(surface, from, to)),
    decreases surface.len(),
{
    if surface.len() > 0 {
        assert(unreasoned(surface.drop_last())) by {
            assert forall|i: int| 0 <= i < surface.drop_last().len() implies (
            #[trigger] surface.drop_last()[i]).message.reasoning_content is None by {
                assert(surface[i].message.reasoning_content is None);
            }
        }
        lemma_no_reasoning_dropped(surface.drop_last(), from, to);
        assert(surface[surface.len() - 1].message.reasoning_content is None);
    }
}

proof fn lemma_no_reasoning_placed(
    surface: Seq<SurfaceView>,
    summaries: Seq<(u64, Seq<char>)>,
)
    requires
        unreasoned(surface),
    ensures
        unreasoned(history::place_summaries(surface, summaries)),
    decreases summaries.len(),
{
    if summaries.len() > 0 {
        lemma_no_reasoning_placed(surface, summaries.drop_last());
        lemma_position_from(
            history::place_summaries(surface, summaries.drop_last()),
            summaries.last().0,
            0,
        );
    }
}

proof fn lemma_no_reasoning_answered(surface: Seq<SurfaceView>, unanswered: Seq<Seq<char>>)
    requires
        unreasoned(surface),
    ensures
        unreasoned(history::answer_rest(surface, unanswered)),
    decreases unanswered.len(),
{
    if unanswered.len() > 0 {
        lemma_no_reasoning_answered(surface, unanswered.drop_last());
    }
}

/// A message makes the call `id`.
pub open spec fn calls(message: MessageView, id: Seq<char>) -> bool {
    exists|k: int| 0 <= k < message.tool_calls.len() && (#[trigger] message.tool_calls[k]).id == id
}

/// A message of the history makes the call `id`.
pub open spec fn asked(surface: Seq<SurfaceView>, id: Seq<char>) -> bool {
    exists|i: int| 0 <= i < surface.len() && calls((#[trigger] surface[i]).message, id)
}

/// A message of the history is the result of the call `id`.
pub open spec fn answered(surface: Seq<SurfaceView>, id: Seq<char>) -> bool {
    exists|i: int|
        0 <= i < surface.len() && (#[trigger] surface[i]).message.role == ChatRole::Tool
            && surface[i].message.tool_call_id == Some(id)
}

/// An event parts no call from its result: a replaced result answers the same call, and a
/// compaction that keeps a call with a result keeps the result.
pub open spec fn keeps_pairs(p: Projection, envelope: SessionEnvelope) -> bool {
    match envelope.event {
        SessionEvent::ToolResult { call_id, replaces: Some(old), .. } => history::position_of(
            p.surface,
            old,
            0,
        ) matches Some(at) ==> p.surface[at].message.tool_call_id is None
            || p.surface[at].message.tool_call_id == Some(call_id@),
        SessionEvent::CompactionSummary { replaces_from, replaces_to, .. } => {
            let kept = history::without_range(p.surface, replaces_from, replaces_to);
            forall|id: Seq<char>|
                #[trigger] asked(kept, id) && answered(p.surface, id) ==> answered(kept, id)
        },
        _ => true,
    }
}

/// No event of a log parts a call from its result.
pub open spec fn pairs_kept(events: Seq<SessionEnvelope>) -> bool
    decreases events.len(),
{
    events.len() == 0 || (pairs_kept(events.drop_last()) && keeps_pairs(
        history::projection(events.drop_last()),
        events.last(),
    ))
}

/// Every tool call of a history has a result in it.
pub proof fn every_call_is_answered(events: Seq<SessionEnvelope>, id: Seq<char>)
    requires
        pairs_kept(events),
        asked(history::surface_of(events), id),
    ensures
        answered(history::surface_of(events), id),
{
    let p = history::projection(events);
    let placed = history::place_summaries(p.surface, p.summaries);
    lemma_pairs(events, id);
    lemma_placed(p.surface, p.summaries, id);
    lemma_answer_rest(placed, p.unanswered, id);
}

proof fn lemma_push(surface: Seq<SurfaceView>, item: SurfaceView, id: Seq<char>)
    ensures
        asked(surface.push(item), id) == (asked(surface, id) || calls(item.message, id)),
        answered(surface.push(item), id) == (answered(surface, id) || (item.message.role
            == ChatRole::Tool && item.message.tool_call_id == Some(id))),
{
    lemma_insert(surface, surface.len() as int, item, id);
    assert(surface.insert(surface.len() as int, item) =~= surface.push(item));
}

proof fn lemma_insert(surface: Seq<SurfaceView>, at: int, item: SurfaceView, id: Seq<char>)
    requires
        0 <= at <= surface.len(),
    ensures
        asked(surface.insert(at, item), id) == (asked(surface, id) || calls(item.message, id)),
        answered(surface.insert(at, item), id) == (answered(surface, id) || (item.message.role
            == ChatRole::Tool && item.message.tool_call_id == Some(id))),
{
    let more = surface.insert(at, item);
    assert(more[at] == item);
    assert forall|i: int| 0 <= i < surface.len() implies #[trigger] surface[i] == more[if i < at {
        i
    } else {
        i + 1
    }] by {}
    assert forall|j: int| 0 <= j < more.len() && j != at implies #[trigger] more[j] == surface[if j
        < at {
        j
    } else {
        j - 1
    }] by {}
}

proof fn lemma_without_id(ids: Seq<Seq<char>>, gone: Seq<char>, id: Seq<char>)
    requires
        ids.contains(id),
        id != gone,
    ensures
        history::without_id(ids, gone).contains(id),
    decreases ids.len(),
{
    let rest = history::without_id(ids.drop_last(), gone);
    let i = choose|i: int| 0 <= i < ids.len() && ids[i] == id;
    if i < ids.len() - 1 {
        assert(ids.drop_last()[i] == id);
        lemma_without_id(ids.drop_last(), gone, id);
        let j = choose|j: int| 0 <= j < rest.len() && rest[j] == id;
        if ids.last() != gone {
            assert(rest.push(ids.last())[j] == id);
        }
    } else {
        assert(rest.push(id)[rest.len() as int] == id);
    }
}

/// What the projection keeps: a call is answered or still known to be unanswered.
proof fn lemma_pairs(events: Seq<SessionEnvelope>, id: Seq<char>)
    requires
        pairs_kept(events),
    ensures
        asked(history::projection(events).surface, id) ==> answered(
            history::projection(events).surface,
            id,
        ) || history::projection(events).unanswered.contains(id),
    decreases events.len(),
{
    if events.len() > 0 {
        let p = history::projection(events.drop_last());
        let next = history::projection(events);
        lemma_pairs(events.drop_last(), id);
        match events.last().event {
            SessionEvent::AgentDelivery { .. } => {
                lemma_push(p.surface, next.surface.last(), id);
            },
            SessionEvent::UserMessage { .. } => {
                if next.surface != p.surface {
                    lemma_push(p.surface, next.surface.last(), id);
                }
            },
            SessionEvent::AssistantMessage { blocks, .. } => {
                let made = history::blocks_calls(blocks@);
                if next.surface != p.surface {
                    lemma_push(p.surface, next.surface.last(), id);
                    if p.unanswered.contains(id) {
                        let i = choose|i: int| 0 <= i < p.unanswered.len() && p.unanswered[i] == id;
                        assert(next.unanswered[i] == id);
                    }
                    if calls(next.surface.last().message, id) {
                        let k = choose|k: int|
                            0 <= k < made.len() && (#[trigger] made[k]).id == id;
                        assert(history::call_ids(made)[k] == id);
                        assert(next.unanswered[p.unanswered.len() + k] == id);
                    }
                } else {
                    assert(p.surface.len() != next.surface.len() || p == next);
                }
            },
            SessionEvent::ToolResult { call_id, replaces, .. } => {
                if p.unanswered.contains(id) && id != call_id@ {
                    lemma_without_id(p.unanswered, call_id@, id);
                }
                let replaced = match replaces {
                    Some(old) => history::position_of(p.surface, old, 0),
                    None => None,
                };
                match replaced {
                    Some(at) => {
                        lemma_position_of(p.surface, replaces->0, 0);
                        assert(next.surface[at].message.tool_calls.len() == 0);
                        if asked(next.surface, id) {
                            let i = choose|i: int|
                                0 <= i < next.surface.len() && calls(
                                    (#[trigger] next.surface[i]).message,
                                    id,
                                );
                            assert(calls(p.surface[i].message, id));
                            if answered(p.surface, id) {
                                let j = choose|j: int|
                                    0 <= j < p.surface.len() && (
                                    #[trigger] p.surface[j]).message.role == ChatRole::Tool
                                        && p.surface[j].message.tool_call_id == Some(id);
                                assert(next.surface[j].message.role == ChatRole::Tool);
                            } else if id == call_id@ {
                                assert(next.surface[at].message.role == ChatRole::Tool);
                            }
                        }
                    },
                    None => {
                        lemma_push(p.surface, next.surface.last(), id);
                        assert(next.surface.last().message.tool_calls.len() == 0);
                    },
                }
            },
            SessionEvent::CompactionSummary { replaces_from, replaces_to, .. } => {
                lemma_kept_asked(p.surface, replaces_from, replaces_to, id);
            },
            _ => {},
        }
    }
}

proof fn lemma_kept_asked(surface: Seq<SurfaceView>, from: u64, to: u64, id: Seq<char>)
    ensures
        asked(history::without_range(surface, from, to), id) ==> asked(surface, id),
    decreases surface.len(),
{
    if surface.len() > 0 {
        lemma_kept_asked(surface.drop_last(), from, to, id);
        lemma_push(surface.drop_last(), surface.last(), id);
        lemma_push(history::without_range(surface.drop_last(), from, to), surface.last(), id);
        assert(surface.drop_last().push(surface.last()) =~= surface);
    }
}

proof fn lemma_placed(surface: Seq<SurfaceView>, summaries: Seq<(u64, Seq<char>)>, id: Seq<char>)
    ensures
        asked(history::place_summaries(surface, summaries), id) == asked(surface, id),
        answered(history::place_summaries(surface, summaries), id) == answered(surface, id),
    decreases summaries.len(),
{
    if summaries.len() > 0 {
        let before = history::place_summaries(surface, summaries.drop_last());
        lemma_placed(surface, summaries.drop_last(), id);
        let at = history::position_from(before, summaries.last().0, 0);
        lemma_position_from(before, summaries.last().0, 0);
        lemma_insert(
            before,
            at,
            history::place_summaries(surface, summaries)[at],
            id,
        );
    }
}

proof fn lemma_answer_rest(surface: Seq<SurfaceView>, unanswered: Seq<Seq<char>>, id: Seq<char>)
    ensures
        asked(history::answer_rest(surface, unanswered), id) == asked(surface, id),
        answered(surface, id) || unanswered.contains(id) ==> answered(
            history::answer_rest(surface, unanswered),
            id,
        ),
    decreases unanswered.len(),
{
    if unanswered.len() > 0 {
        lemma_answer_rest(surface, unanswered.drop_last(), id);
        let before = history::answer_rest(surface, unanswered.drop_last());
        lemma_push(before, history::answer_rest(surface, unanswered).last(), id);
        if unanswered.contains(id) && id != unanswered.last() {
            let i = choose|i: int| 0 <= i < unanswered.len() && unanswered[i] == id;
            assert(unanswered.drop_last()[i] == id);
        }
    }
}

/// A compaction takes the messages of the events it folds out of the history.
pub proof fn compacted_events_are_gone(
    surface: Seq<SurfaceView>,
    from: u64,
    to: u64,
    i: int,
)
    requires
        0 <= i < history::without_range(surface, from, to).len(),
    ensures
        history::without_range(surface, from, to)[i].seq < from || history::without_range(
            surface,
            from,
            to,
        )[i].seq > to,
        surface.contains(history::without_range(surface, from, to)[i]),
    decreases surface.len(),
{
    let rest = history::without_range(surface.drop_last(), from, to);
    if i < rest.len() {
        compacted_events_are_gone(surface.drop_last(), from, to, i);
        let j = choose|j: int| 0 <= j < surface.drop_last().len() && surface.drop_last()[j] == rest[i];
        assert(surface[j] == rest[i]);
    } else {
        assert(surface[surface.len() - 1] == surface.last());
    }
}

} // verus!
