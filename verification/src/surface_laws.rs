//! What reaches the model: each event of a log has its message in the history, and each message of
//! the history has its event in the log.
use vstd::prelude::*;

use crate::history;
use crate::history::{Projection, SurfaceView, INTERRUPTED_TOOL_RESULT, MERGED_IMAGES_NOTE};
use crate::message;
use crate::message::{CallView, ChatRole, ImageView, MessageView};
use crate::session::{SessionEnvelope, SessionEvent};
use crate::stream::ContentBlock;

verus! {

/// A message with a role and a content and nothing else.
pub open spec fn said(role: ChatRole, content: Seq<char>) -> MessageView {
    MessageView {
        role,
        content,
        images: Seq::empty(),
        reasoning_content: None,
        tool_calls: Seq::empty(),
        tool_call_id: None,
    }
}

/// The result of a call, in words.
pub open spec fn told(id: Seq<char>, content: Seq<char>) -> MessageView {
    MessageView {
        role: ChatRole::Tool,
        content,
        images: Seq::empty(),
        reasoning_content: None,
        tool_calls: Seq::empty(),
        tool_call_id: Some(id),
    }
}

/// An event is the result of the call `id`.
pub open spec fn answers(event: SessionEvent, id: Seq<char>) -> bool {
    event matches SessionEvent::ToolResult { call_id, .. } && call_id@ == id
}

/// A block of an answer is the call `id`.
pub open spec fn is_call(block: ContentBlock, id: Seq<char>) -> bool {
    block matches ContentBlock::ToolCall { id: made, .. } && made@ == id
}

/// An event makes the call `id`.
pub open spec fn makes(event: SessionEvent, id: Seq<char>) -> bool {
    event matches SessionEvent::AssistantMessage { blocks, .. } && exists|b: int|
        0 <= b < blocks@.len() && is_call(#[trigger] blocks@[b], id)
}

/// A log makes the call `id` and holds no result of it behind that.
pub open spec fn is_open(events: Seq<SessionEnvelope>, id: Seq<char>) -> bool {
    exists|j: int|
        0 <= j < events.len() && makes((#[trigger] events[j]).event, id) && forall|m: int|
            j < m < events.len() ==> !answers((#[trigger] events[m]).event, id)
}

/// An event folds the event `seq` into a summary.
pub open spec fn folds(event: SessionEvent, seq: u64) -> bool {
    event matches SessionEvent::CompactionSummary { replaces_from, replaces_to, .. }
        && replaces_from <= seq <= replaces_to
}

/// An event takes the place of the event `seq`.
pub open spec fn replaces(event: SessionEvent, seq: u64) -> bool {
    event matches SessionEvent::ToolResult { replaces: Some(old), .. } && old == seq
}

/// No event from `from` on folds the event `seq` or takes its place.
pub open spec fn stays(events: Seq<SessionEnvelope>, from: int, seq: u64) -> bool {
    forall|j: int|
        from <= j < events.len() ==> !folds((#[trigger] events[j]).event, seq) && !replaces(
            events[j].event,
            seq,
        )
}

/// A message of a history stands for an event.
pub open spec fn has_seq(surface: Seq<SurfaceView>, seq: u64) -> bool {
    exists|i: int| 0 <= i < surface.len() && (#[trigger] surface[i]).seq == seq
}

/// The event at `m` is a result that takes no other's place, and so takes up the images that wait.
pub open spec fn takes_up(events: Seq<SessionEnvelope>, m: int) -> bool {
    events[m].event matches SessionEvent::ToolResult { replaces, .. } && (replaces matches Some(old)
        ==> !has_seq(history::projection(events.take(m)).surface, old))
}

/// The images of the event at `k` wait for a result: they came while a call was open, and no result
/// has taken them up.
pub open spec fn waits(events: Seq<SessionEnvelope>, k: int) -> bool {
    &&& events[k].event is UserMessage
    &&& exists|id: Seq<char>| is_open(events.take(k), id)
    &&& forall|m: int| k < m < events.len() ==> !#[trigger] takes_up(events, m)
}

/// An image of the event at `k`.
pub open spec fn shows(event: SessionEvent, image: ImageView) -> bool {
    event matches SessionEvent::UserMessage { images, .. } && exists|i: int|
        0 <= i < images@.len() && (#[trigger] images@[i])@ == image
}

/// The texts of an answer follow each other, and nothing else is in its content.
pub proof fn content_is_the_texts(a: Seq<ContentBlock>, b: Seq<ContentBlock>, block: ContentBlock)
    ensures
        history::blocks_text(a + b) == history::blocks_text(a) + history::blocks_text(b),
        history::blocks_text(seq![block]) == (match block {
            ContentBlock::Text { text } => text@,
            _ => Seq::<char>::empty(),
        }),
    decreases b.len(),
{
    if b.len() == 0 {
        assert(a + b =~= a);
        assert(history::blocks_text(a) + history::blocks_text(b) =~= history::blocks_text(a));
    } else {
        content_is_the_texts(a, b.drop_last(), block);
        assert((a + b).drop_last() =~= a + b.drop_last());
        assert(history::blocks_text(a + b) =~= history::blocks_text(a) + history::blocks_text(b));
    }
    assert(seq![block].drop_last() =~= Seq::empty());
    assert(history::blocks_text(Seq::<ContentBlock>::empty()) == Seq::<char>::empty());
    assert(history::blocks_text(seq![block]) =~= (match block {
        ContentBlock::Text { text } => text@,
        _ => Seq::<char>::empty(),
    }));
}

/// The calls of an answer are those of its blocks, in order.
pub proof fn calls_are_the_blocks(a: Seq<ContentBlock>, b: Seq<ContentBlock>, block: ContentBlock)
    ensures
        history::blocks_calls(a + b) == history::blocks_calls(a) + history::blocks_calls(b),
        history::blocks_calls(seq![block]) == (match block {
            ContentBlock::ToolCall { id, name, arguments } => seq![
                CallView { id: id@, name: name@, arguments: arguments@ },
            ],
            _ => Seq::<CallView>::empty(),
        }),
    decreases b.len(),
{
    if b.len() == 0 {
        assert(a + b =~= a);
        assert(history::blocks_calls(a) + history::blocks_calls(b) =~= history::blocks_calls(a));
    } else {
        calls_are_the_blocks(a, b.drop_last(), block);
        assert((a + b).drop_last() =~= a + b.drop_last());
        assert(history::blocks_calls(a + b) =~= history::blocks_calls(a) + history::blocks_calls(b));
    }
    assert(seq![block].drop_last() =~= Seq::empty());
    assert(history::blocks_calls(Seq::<ContentBlock>::empty()) == Seq::<CallView>::empty());
    assert(history::blocks_calls(seq![block]) =~= (match block {
        ContentBlock::ToolCall { id, name, arguments } => seq![
            CallView { id: id@, name: name@, arguments: arguments@ },
        ],
        _ => Seq::<CallView>::empty(),
    }));
}

proof fn lemma_call_ids(blocks: Seq<ContentBlock>, id: Seq<char>)
    ensures
        history::call_ids(history::blocks_calls(blocks)).contains(id) == exists|b: int|
            0 <= b < blocks.len() && is_call(#[trigger] blocks[b], id),
    decreases blocks.len(),
{
    let ids = history::call_ids(history::blocks_calls(blocks));
    let found = exists|b: int| 0 <= b < blocks.len() && is_call(#[trigger] blocks[b], id);
    if blocks.len() > 0 {
        let before = blocks.drop_last();
        let known = history::call_ids(history::blocks_calls(before));
        lemma_call_ids(before, id);
        if known.contains(id) {
            let i = choose|i: int| 0 <= i < known.len() && known[i] == id;
            assert(ids[i] == id);
            let b = choose|b: int| 0 <= b < before.len() && is_call(#[trigger] before[b], id);
            assert(is_call(blocks[b], id));
        }
        if is_call(blocks.last(), id) {
            assert(is_call(blocks[blocks.len() - 1], id));
            assert(ids[known.len() as int] == id);
        }
        if ids.contains(id) {
            let i = choose|i: int| 0 <= i < ids.len() && ids[i] == id;
            if i < known.len() {
                assert(known[i] == id);
            } else {
                assert(is_call(blocks.last(), id));
            }
        }
        if found {
            let b = choose|b: int| 0 <= b < blocks.len() && is_call(#[trigger] blocks[b], id);
            if b < before.len() {
                assert(is_call(before[b], id));
            }
        }
    }
}

proof fn lemma_without_id(ids: Seq<Seq<char>>, gone: Seq<char>, id: Seq<char>)
    ensures
        history::without_id(ids, gone).contains(id) == (ids.contains(id) && id != gone),
    decreases ids.len(),
{
    if ids.len() > 0 {
        let rest = history::without_id(ids.drop_last(), gone);
        lemma_without_id(ids.drop_last(), gone, id);
        assert(ids =~= ids.drop_last().push(ids.last()));
        lemma_push_contains(ids.drop_last(), ids.last(), id);
        lemma_push_contains(rest, ids.last(), id);
    }
}

proof fn lemma_push_contains<T>(list: Seq<T>, item: T, other: T)
    ensures
        list.push(item).contains(other) == (list.contains(other) || other == item),
{
    let more = list.push(item);
    assert(more[list.len() as int] == item);
    if list.contains(other) {
        let i = choose|i: int| 0 <= i < list.len() && list[i] == other;
        assert(more[i] == other);
    }
    if more.contains(other) {
        let i = choose|i: int| 0 <= i < more.len() && more[i] == other;
        if i < list.len() {
            assert(list[i] == other);
        }
    }
}

proof fn lemma_add_contains<T>(a: Seq<T>, b: Seq<T>, other: T)
    ensures
        (a + b).contains(other) == (a.contains(other) || b.contains(other)),
{
    if a.contains(other) {
        let i = choose|i: int| 0 <= i < a.len() && a[i] == other;
        assert((a + b)[i] == other);
    }
    if b.contains(other) {
        let i = choose|i: int| 0 <= i < b.len() && b[i] == other;
        assert((a + b)[a.len() + i] == other);
    }
    if (a + b).contains(other) {
        let i = choose|i: int| 0 <= i < (a + b).len() && (a + b)[i] == other;
        if i < a.len() {
            assert(a[i] == other);
        } else {
            assert(b[i - a.len()] == other);
        }
    }
}

proof fn lemma_is_open(events: Seq<SessionEnvelope>, id: Seq<char>)
    requires
        events.len() > 0,
    ensures
        is_open(events, id) == (makes(events.last().event, id) || (is_open(events.drop_last(), id)
            && !answers(events.last().event, id))),
{
    let before = events.drop_last();
    let end = events.len() - 1;
    if makes(events.last().event, id) {
        assert(makes(events[end].event, id));
    } else if is_open(events, id) {
        let j = choose|j: int|
            0 <= j < events.len() && makes((#[trigger] events[j]).event, id) && forall|m: int|
                j < m < events.len() ==> !answers((#[trigger] events[m]).event, id);
        assert(makes(before[j].event, id));
        assert(!answers(events[end].event, id));
        assert forall|m: int| j < m < before.len() implies !answers(
            (#[trigger] before[m]).event,
            id,
        ) by {
            assert(!answers(events[m].event, id));
        }
    } else if is_open(before, id) && !answers(events.last().event, id) {
        let j = choose|j: int|
            0 <= j < before.len() && makes((#[trigger] before[j]).event, id) && forall|m: int|
                j < m < before.len() ==> !answers((#[trigger] before[m]).event, id);
        assert(makes(events[j].event, id));
        assert forall|m: int| j < m < events.len() implies !answers(
            (#[trigger] events[m]).event,
            id,
        ) by {
            if m < end {
                assert(!answers(before[m].event, id));
            }
        }
    }
}

/// The calls without a result are the open ones of the log.
proof fn lemma_unanswered(events: Seq<SessionEnvelope>, id: Seq<char>)
    ensures
        history::projection(events).unanswered.contains(id) == is_open(events, id),
    decreases events.len(),
{
    if events.len() > 0 {
        let p = history::projection(events.drop_last());
        lemma_unanswered(events.drop_last(), id);
        lemma_is_open(events, id);
        match events.last().event {
            SessionEvent::AssistantMessage { blocks, .. } => {
                lemma_call_ids(blocks@, id);
                let ids = history::call_ids(history::blocks_calls(blocks@));
                lemma_add_contains(p.unanswered, ids, id);
            },
            SessionEvent::ToolResult { call_id, .. } => {
                lemma_without_id(p.unanswered, call_id@, id);
            },
            _ => {},
        }
    }
}

proof fn lemma_some_open(events: Seq<SessionEnvelope>)
    ensures
        (history::projection(events).unanswered.len() > 0) == exists|id: Seq<char>|
            is_open(events, id),
{
    let ids = history::projection(events).unanswered;
    if ids.len() > 0 {
        lemma_unanswered(events, ids[0]);
        assert(ids.contains(ids[0]));
        assert(is_open(events, ids[0]));
    }
    if exists|id: Seq<char>| is_open(events, id) {
        let id = choose|id: Seq<char>| is_open(events, id);
        lemma_unanswered(events, id);
    }
}

proof fn lemma_position_of(surface: Seq<SurfaceView>, seq: u64, from: int)
    requires
        0 <= from,
    ensures
        match history::position_of(surface, seq, from) {
            Some(at) => from <= at < surface.len() && surface[at].seq == seq,
            None => forall|i: int| from <= i < surface.len() ==> (#[trigger] surface[i]).seq != seq,
        },
    decreases surface.len() - from,
{
    if from < surface.len() && surface[from].seq != seq {
        lemma_position_of(surface, seq, from + 1);
    }
}

proof fn lemma_without_range(surface: Seq<SurfaceView>, from: u64, to: u64, item: SurfaceView)
    ensures
        history::without_range(surface, from, to).contains(item) == (surface.contains(item) && !(from
            <= item.seq <= to)),
    decreases surface.len(),
{
    if surface.len() > 0 {
        lemma_without_range(surface.drop_last(), from, to, item);
        assert(surface =~= surface.drop_last().push(surface.last()));
        lemma_push_contains(surface.drop_last(), surface.last(), item);
        lemma_push_contains(
            history::without_range(surface.drop_last(), from, to),
            surface.last(),
            item,
        );
    }
}

/// A message stays as long as no event folds its event or takes its place.
proof fn lemma_step_keeps(p: Projection, envelope: SessionEnvelope, item: SurfaceView)
    requires
        p.surface.contains(item),
        !folds(envelope.event, item.seq),
        !replaces(envelope.event, item.seq),
    ensures
        history::project(p, envelope).surface.contains(item),
{
    let next = history::project(p, envelope).surface;
    let i = choose|i: int| 0 <= i < p.surface.len() && p.surface[i] == item;
    match envelope.event {
        SessionEvent::CompactionSummary { replaces_from, replaces_to, .. } => {
            lemma_without_range(p.surface, replaces_from, replaces_to, item);
        },
        SessionEvent::ToolResult { replaces: Some(old), .. } => {
            lemma_position_of(p.surface, old, 0);
            assert(next[i] == item);
        },
        _ => {
            assert(next[i] == item);
        },
    }
}

proof fn lemma_kept(events: Seq<SessionEnvelope>, from: int, item: SurfaceView)
    requires
        0 <= from <= events.len(),
        history::projection(events.take(from)).surface.contains(item),
        stays(events, from, item.seq),
    ensures
        history::projection(events).surface.contains(item),
    decreases events.len(),
{
    if from == events.len() {
        assert(events.take(from) =~= events);
    } else {
        let before = events.drop_last();
        assert(before.take(from) =~= events.take(from));
        assert forall|j: int| from <= j < before.len() implies !folds(
            (#[trigger] before[j]).event,
            item.seq,
        ) && !replaces(before[j].event, item.seq) by {
            assert(before[j] == events[j]);
        }
        lemma_kept(before, from, item);
        assert(events.last() == events[events.len() - 1]);
        lemma_step_keeps(history::projection(before), events.last(), item);
    }
}

proof fn lemma_position_from(surface: Seq<SurfaceView>, seq: u64, from: int)
    requires
        0 <= from <= surface.len(),
    ensures
        from <= history::position_from(surface, seq, from) <= surface.len(),
        forall|i: int|
            from <= i < history::position_from(surface, seq, from) ==> (#[trigger] surface[i]).seq
                < seq,
        history::position_from(surface, seq, from) < surface.len() ==> surface[history::position_from(
            surface,
            seq,
            from,
        )].seq >= seq,
    decreases surface.len() - from,
{
    if from < surface.len() && surface[from].seq < seq {
        lemma_position_from(surface, seq, from + 1);
    }
}

proof fn lemma_insert_contains<T>(list: Seq<T>, at: int, item: T, other: T)
    requires
        0 <= at <= list.len(),
    ensures
        list.insert(at, item).contains(other) == (list.contains(other) || other == item),
{
    let more = list.insert(at, item);
    assert(more[at] == item);
    if list.contains(other) {
        let i = choose|i: int| 0 <= i < list.len() && list[i] == other;
        assert(more[if i < at {
            i
        } else {
            i + 1
        }] == other);
    }
    if more.contains(other) {
        let i = choose|i: int| 0 <= i < more.len() && more[i] == other;
        if i != at {
            assert(list[if i < at {
                i
            } else {
                i - 1
            }] == other);
        }
    }
}

/// The message of a summary that stands before the event `keep_from`.
pub open spec fn summed_up(keep_from: u64, summary: Seq<char>) -> SurfaceView {
    SurfaceView {
        seq: if keep_from == 0 {
            0
        } else {
            (keep_from - 1) as u64
        },
        is_error: false,
        message: said(ChatRole::User, summary),
    }
}

proof fn lemma_placed(
    surface: Seq<SurfaceView>,
    summaries: Seq<(u64, Seq<char>)>,
    item: SurfaceView,
)
    ensures
        history::place_summaries(surface, summaries).contains(item) == (surface.contains(item)
            || exists|s: int|
            0 <= s < summaries.len() && item == summed_up(
                (#[trigger] summaries[s]).0,
                summaries[s].1,
            )),
    decreases summaries.len(),
{
    let found = exists|s: int|
        0 <= s < summaries.len() && item == summed_up((#[trigger] summaries[s]).0, summaries[s].1);
    if summaries.len() > 0 {
        let rest = summaries.drop_last();
        let before = history::place_summaries(surface, rest);
        lemma_placed(surface, rest, item);
        lemma_position_from(before, summaries.last().0, 0);
        let last = summed_up(summaries.last().0, summaries.last().1);
        lemma_insert_contains(
            before,
            history::position_from(before, summaries.last().0, 0),
            last,
            item,
        );
        let known = exists|s: int|
            0 <= s < rest.len() && item == summed_up((#[trigger] rest[s]).0, rest[s].1);
        if known {
            let s = choose|s: int|
                0 <= s < rest.len() && item == summed_up((#[trigger] rest[s]).0, rest[s].1);
            assert(item == summed_up(summaries[s].0, summaries[s].1));
        }
        if item == last {
            assert(item == summed_up(
                summaries[summaries.len() - 1].0,
                summaries[summaries.len() - 1].1,
            ));
        }
        if found {
            let s = choose|s: int|
                0 <= s < summaries.len() && item == summed_up(
                    (#[trigger] summaries[s]).0,
                    summaries[s].1,
                );
            if s < rest.len() {
                assert(item == summed_up(rest[s].0, rest[s].1));
            }
        }
        assert(history::place_summaries(surface, summaries) == before.insert(
            history::position_from(before, summaries.last().0, 0),
            last,
        ));
    }
}

/// Behind what is placed stand the made-up results, one for each call that is unanswered.
proof fn lemma_answer_rest(surface: Seq<SurfaceView>, ids: Seq<Seq<char>>)
    ensures
        history::answer_rest(surface, ids).len() == surface.len() + ids.len(),
        history::answer_rest(surface, ids).take(surface.len() as int) == surface,
        forall|i: int|
            0 <= i < ids.len() ==> {
                let item = #[trigger] history::answer_rest(surface, ids)[surface.len() + i];
                !item.is_error && item.message == told(ids[i], INTERRUPTED_TOOL_RESULT@)
            },
    decreases ids.len(),
{
    if ids.len() > 0 {
        lemma_answer_rest(surface, ids.drop_last());
        let before = history::answer_rest(surface, ids.drop_last());
        let all = history::answer_rest(surface, ids);
        assert(all.take(surface.len() as int) =~= before.take(surface.len() as int));
        assert forall|i: int| 0 <= i < ids.len() implies {
            let item = #[trigger] all[surface.len() + i];
            !item.is_error && item.message == told(ids[i], INTERRUPTED_TOOL_RESULT@)
        } by {
            if i < ids.len() - 1 {
                assert(all[surface.len() + i] == before[surface.len() + i]);
                assert(ids.drop_last()[i] == ids[i]);
            }
        }
    } else {
        assert(surface.take(surface.len() as int) =~= surface);
    }
}

proof fn lemma_shown(events: Seq<SessionEnvelope>, item: SurfaceView)
    requires
        history::projection(events).surface.contains(item),
    ensures
        history::surface_of(events).contains(item),
{
    let p = history::projection(events);
    let placed = history::place_summaries(p.surface, p.summaries);
    lemma_placed(p.surface, p.summaries, item);
    lemma_answer_rest(placed, p.unanswered);
    let i = choose|i: int| 0 <= i < placed.len() && placed[i] == item;
    assert(history::surface_of(events).take(placed.len() as int)[i] == item);
    assert(history::surface_of(events)[i] == item);
}

proof fn lemma_take_in(events: Seq<SessionEnvelope>, at: int)
    requires
        0 <= at < events.len(),
    ensures
        history::projection(events.take(at + 1)) == history::project(
            history::projection(events.take(at)),
            events[at],
        ),
{
    assert(events.take(at + 1).drop_last() =~= events.take(at));
}

/// A message of the history is the result that an event holds: what the tool said, or, where images
/// are attached, that and a note of them.
pub open spec fn tells(item: SurfaceView, envelope: SessionEnvelope) -> bool {
    envelope.event matches SessionEvent::ToolResult { call_id, content, is_error, .. } && item.seq
        == envelope.seq && item.is_error == is_error && (if item.message.images.len() == 0 {
        item.message == told(call_id@, content@)
    } else {
        item.message == (MessageView {
            images: item.message.images,
            ..told(call_id@, content@ + MERGED_IMAGES_NOTE@)
        })
    })
}

/// What a tool said reaches the model word for word under the call's id, whether or not the call
/// failed, and with exactly the images that wait for it.
pub proof fn result_reaches_the_model(events: Seq<SessionEnvelope>, at: int)
    requires
        0 <= at < events.len(),
        events[at].event is ToolResult,
        takes_up(events, at),
        stays(events, at + 1, events[at].seq),
    ensures
        exists|i: int|
            0 <= i < history::surface_of(events).len() && {
                let item = #[trigger] history::surface_of(events)[i];
                tells(item, events[at]) && forall|image: ImageView|
                    item.message.images.contains(image) == exists|k: int|
                        0 <= k < at && waits(events.take(at), k) && #[trigger] shows(
                            events[k].event,
                            image,
                        )
            },
{
    let before = events.take(at);
    let p = history::projection(before);
    lemma_take_in(events, at);
    let next = history::projection(events.take(at + 1));
    if let SessionEvent::ToolResult { replaces: Some(old), .. } = events[at].event {
        lemma_position_of(p.surface, old, 0);
    }
    let item = next.surface.last();
    assert(next.surface[next.surface.len() - 1] == item);
    assert(next.surface.contains(item));
    if p.images.len() == 0 {
        assert(item.message.images =~= Seq::empty());
    }
    assert(item.message.images == p.images);
    assert(tells(item, events[at]));
    assert forall|image: ImageView| item.message.images.contains(image) == exists|k: int|
        0 <= k < at && waits(before, k) && #[trigger] shows(events[k].event, image) by {
        lemma_images(before, image);
        if exists|k: int|
            0 <= k < before.len() && waits(before, k) && #[trigger] shows(before[k].event, image) {
            let k = choose|k: int|
                0 <= k < before.len() && waits(before, k) && #[trigger] shows(
                    before[k].event,
                    image,
                );
            assert(shows(events[k].event, image));
        }
        if exists|k: int|
            0 <= k < at && waits(before, k) && #[trigger] shows(events[k].event, image) {
            let k = choose|k: int|
                0 <= k < at && waits(before, k) && #[trigger] shows(events[k].event, image);
            assert(shows(before[k].event, image));
        }
    }
    lemma_kept(events, at + 1, item);
    lemma_shown(events, item);
    let i = choose|i: int|
        0 <= i < history::surface_of(events).len() && history::surface_of(events)[i] == item;
    assert(history::surface_of(events)[i] == item);
}

proof fn lemma_waits(events: Seq<SessionEnvelope>, k: int)
    requires
        0 <= k < events.len(),
    ensures
        k < events.len() - 1 ==> waits(events, k) == (waits(events.drop_last(), k) && !takes_up(
            events,
            events.len() - 1,
        )),
{
    let before = events.drop_last();
    if k < before.len() {
        assert(before.take(k) =~= events.take(k));
        assert forall|m: int| 0 <= m < before.len() implies takes_up(before, m) == takes_up(
            events,
            m,
        ) by {
            assert(before.take(m) =~= events.take(m));
        }
        if waits(before, k) && !takes_up(events, events.len() - 1) {
            assert forall|m: int| k < m < events.len() implies !#[trigger] takes_up(events, m) by {
                if m < before.len() {
                    assert(!takes_up(before, m));
                }
            }
        }
        if waits(events, k) {
            assert forall|m: int| k < m < before.len() implies !#[trigger] takes_up(before, m) by {
                assert(!takes_up(events, m));
            }
        }
    }
}

/// An image waits.
spec fn is_waiting(events: Seq<SessionEnvelope>, image: ImageView) -> bool {
    exists|k: int|
        0 <= k < events.len() && waits(events, k) && #[trigger] shows(events[k].event, image)
}

proof fn lemma_images(events: Seq<SessionEnvelope>, image: ImageView)
    ensures
        history::projection(events).images.contains(image) == is_waiting(events, image),
    decreases events.len(),
{
    if events.len() > 0 {
        let before = events.drop_last();
        let end = events.len() - 1;
        let p = history::projection(before);
        lemma_images(before, image);
        lemma_some_open(before);
        assert(events.take(end) =~= before);
        let event = events.last().event;
        if let SessionEvent::UserMessage { images, .. } = event {
            let views = message::image_views(images@);
            lemma_add_contains(p.images, views, image);
            if views.contains(image) {
                let i = choose|i: int| 0 <= i < views.len() && views[i] == image;
                assert(images@[i]@ == image);
            }
            if shows(event, image) {
                let i = choose|i: int| 0 <= i < images@.len() && (#[trigger] images@[i])@ == image;
                assert(views[i] == image);
            }
        }
        if let SessionEvent::ToolResult { replaces: Some(old), .. } = event {
            lemma_position_of(p.surface, old, 0);
        }
        if is_waiting(before, image) && !takes_up(events, end) {
            let k = choose|k: int|
                0 <= k < before.len() && waits(before, k) && #[trigger] shows(
                    before[k].event,
                    image,
                );
            lemma_waits(events, k);
            assert(shows(events[k].event, image));
        }
        if waits(events, end) && shows(events[end].event, image) {
            assert(is_waiting(events, image));
        }
        if is_waiting(events, image) {
            let k = choose|k: int|
                0 <= k < events.len() && waits(events, k) && #[trigger] shows(
                    events[k].event,
                    image,
                );
            lemma_waits(events, k);
            if k < end {
                assert(shows(before[k].event, image));
            }
        }
        if event is UserMessage && exists|id: Seq<char>| is_open(before, id) {
            assert(waits(events, end));
        }
        if shows(event, image) && exists|id: Seq<char>| is_open(before, id) {
            assert(shows(events[end].event, image));
            assert(is_waiting(events, image));
        }
    }
}

/// The message that an event puts into the history by itself: what the user, another agent or the
/// model said.
pub open spec fn speaks(item: SurfaceView, envelope: SessionEnvelope) -> bool {
    match envelope.event {
        SessionEvent::AgentDelivery { text, .. } => item == (SurfaceView {
            seq: envelope.seq,
            is_error: false,
            message: said(ChatRole::User, text@),
        }),
        SessionEvent::UserMessage { text, images, .. } => item == (SurfaceView {
            seq: envelope.seq,
            is_error: false,
            message: MessageView {
                images: message::image_views(images@),
                ..said(ChatRole::User, text@)
            },
        }),
        SessionEvent::AssistantMessage { blocks, .. } => item == (SurfaceView {
            seq: envelope.seq,
            is_error: false,
            message: MessageView {
                tool_calls: history::blocks_calls(blocks@),
                ..said(ChatRole::Assistant, history::blocks_text(blocks@))
            },
        }),
        _ => false,
    }
}

/// What the user, another agent or the model said reaches the model, with its images and its calls.
/// The one exception is a message with images that comes while a call is open: its images go with
/// the call's result. An answer without text and calls is no message.
pub proof fn speech_reaches_the_model(events: Seq<SessionEnvelope>, at: int)
    requires
        0 <= at < events.len(),
        match events[at].event {
            SessionEvent::AgentDelivery { .. } => true,
            SessionEvent::UserMessage { images, .. } => images@.len() == 0 || forall|id: Seq<char>|
                !is_open(events.take(at), id),
            SessionEvent::AssistantMessage { blocks, .. } => history::blocks_text(blocks@).len() > 0
                || history::blocks_calls(blocks@).len() > 0,
            _ => false,
        },
        stays(events, at + 1, events[at].seq),
    ensures
        exists|i: int|
            0 <= i < history::surface_of(events).len() && speaks(
                #[trigger] history::surface_of(events)[i],
                events[at],
            ),
{
    lemma_take_in(events, at);
    lemma_some_open(events.take(at));
    let next = history::projection(events.take(at + 1));
    let item = next.surface.last();
    assert(next.surface[next.surface.len() - 1] == item);
    if let SessionEvent::AgentDelivery { .. } = events[at].event {
        assert(item.message.images =~= Seq::empty());
    }
    assert(speaks(item, events[at]));
    lemma_kept(events, at + 1, item);
    lemma_shown(events, item);
    let i = choose|i: int|
        0 <= i < history::surface_of(events).len() && history::surface_of(events)[i] == item;
    assert(speaks(history::surface_of(events)[i], events[at]));
}

/// A message of the history is the result that an event holds, in the place of another event.
pub open spec fn corrects(item: SurfaceView, envelope: SessionEnvelope) -> bool {
    envelope.event matches SessionEvent::ToolResult {
        call_id,
        content,
        is_error,
        replaces: Some(old),
        ..
    } && item == (SurfaceView { seq: old, is_error, message: told(call_id@, content@) })
}

/// A message of the history is the summary that an event holds.
pub open spec fn sums_up(item: SurfaceView, envelope: SessionEnvelope) -> bool {
    envelope.event matches SessionEvent::CompactionSummary { summary, keep_from, .. } && item
        == summed_up(keep_from, summary@)
}

/// A message of the history comes from an event.
pub open spec fn stems(item: SurfaceView, envelope: SessionEnvelope) -> bool {
    speaks(item, envelope) || tells(item, envelope) || corrects(item, envelope)
}

proof fn lemma_stems(events: Seq<SessionEnvelope>, item: SurfaceView)
    requires
        history::projection(events).surface.contains(item),
    ensures
        exists|k: int| 0 <= k < events.len() && stems(item, #[trigger] events[k]),
    decreases events.len(),
{
    let before = events.drop_last();
    let p = history::projection(before);
    let next = history::projection(events).surface;
    let i = choose|i: int| 0 <= i < next.len() && next[i] == item;
    let last = events[events.len() - 1];
    if let SessionEvent::CompactionSummary { replaces_from, replaces_to, .. } = last.event {
        lemma_without_range(p.surface, replaces_from, replaces_to, item);
    } else if i < p.surface.len() && p.surface[i] == item {
    } else {
        if let SessionEvent::ToolResult { replaces: Some(old), .. } = last.event {
            lemma_position_of(p.surface, old, 0);
        }
        if let SessionEvent::AgentDelivery { .. } = last.event {
            assert(item.message.images =~= Seq::empty());
        }
        assert(stems(item, last));
    }
    if p.surface.contains(item) {
        lemma_stems(before, item);
        let k = choose|k: int| 0 <= k < before.len() && stems(item, #[trigger] before[k]);
        assert(stems(item, events[k]));
    }
}

proof fn lemma_summaries(events: Seq<SessionEnvelope>, s: int)
    requires
        0 <= s < history::projection(events).summaries.len(),
    ensures
        exists|k: int|
            0 <= k < events.len() && sums_up(
                summed_up(
                    history::projection(events).summaries[s].0,
                    history::projection(events).summaries[s].1,
                ),
                #[trigger] events[k],
            ),
    decreases events.len(),
{
    let before = events.drop_last();
    let (keep_from, summary) = history::projection(events).summaries[s];
    if s < history::projection(before).summaries.len() {
        lemma_summaries(before, s);
        let k = choose|k: int|
            0 <= k < before.len() && sums_up(summed_up(keep_from, summary), #[trigger] before[k]);
        assert(sums_up(summed_up(keep_from, summary), events[k]));
    } else {
        assert(sums_up(summed_up(keep_from, summary), events[events.len() - 1]));
    }
}

/// Each message of a history comes from an event of the log, or is the made-up result of a call
/// that no event behind it answers.
pub proof fn history_comes_from_the_log(events: Seq<SessionEnvelope>, i: int)
    requires
        0 <= i < history::surface_of(events).len(),
    ensures
        ({
            let item = history::surface_of(events)[i];
            ||| exists|k: int| 0 <= k < events.len() && stems(item, #[trigger] events[k])
            ||| exists|k: int| 0 <= k < events.len() && sums_up(item, #[trigger] events[k])
            ||| exists|id: Seq<char>| #[trigger]
                is_open(events, id) && !item.is_error && item.message == told(
                    id,
                    INTERRUPTED_TOOL_RESULT@,
                )
        }),
{
    let p = history::projection(events);
    let placed = history::place_summaries(p.surface, p.summaries);
    let item = history::surface_of(events)[i];
    lemma_answer_rest(placed, p.unanswered);
    if i < placed.len() {
        assert(history::surface_of(events).take(placed.len() as int)[i] == item);
        assert(placed[i] == item);
        lemma_placed(p.surface, p.summaries, item);
        if p.surface.contains(item) {
            lemma_stems(events, item);
        } else {
            let s = choose|s: int|
                0 <= s < p.summaries.len() && item == summed_up(
                    (#[trigger] p.summaries[s]).0,
                    p.summaries[s].1,
                );
            lemma_summaries(events, s);
        }
    } else {
        let id = p.unanswered[i - placed.len()];
        assert(history::surface_of(events)[placed.len() + (i - placed.len())] == item);
        assert(p.unanswered.contains(id));
        lemma_unanswered(events, id);
        assert(is_open(events, id));
    }
}

/// A call that no event behind it answers is told to have been interrupted.
pub proof fn open_call_is_told_interrupted(events: Seq<SessionEnvelope>, id: Seq<char>)
    requires
        is_open(events, id),
    ensures
        exists|i: int|
            0 <= i < history::surface_of(events).len() && (#[trigger] history::surface_of(
                events,
            )[i]).message == told(id, INTERRUPTED_TOOL_RESULT@),
{
    let p = history::projection(events);
    let placed = history::place_summaries(p.surface, p.summaries);
    lemma_unanswered(events, id);
    lemma_answer_rest(placed, p.unanswered);
    let k = choose|k: int| 0 <= k < p.unanswered.len() && p.unanswered[k] == id;
    assert(history::surface_of(events)[placed.len() + k].message == told(
        id,
        INTERRUPTED_TOOL_RESULT@,
    ));
}

/// A summary reaches the model.
pub proof fn summary_reaches_the_model(events: Seq<SessionEnvelope>, at: int)
    requires
        0 <= at < events.len(),
        events[at].event is CompactionSummary,
    ensures
        exists|i: int|
            0 <= i < history::surface_of(events).len() && sums_up(
                #[trigger] history::surface_of(events)[i],
                events[at],
            ),
{
    let p = history::projection(events);
    let placed = history::place_summaries(p.surface, p.summaries);
    lemma_summary_kept(events, at);
    if let SessionEvent::CompactionSummary { summary, keep_from, .. } = events[at].event {
        let item = summed_up(keep_from, summary@);
        let s = choose|s: int|
            0 <= s < p.summaries.len() && p.summaries[s] == (keep_from, summary@);
        assert(item == summed_up(p.summaries[s].0, p.summaries[s].1));
        lemma_placed(p.surface, p.summaries, item);
        lemma_answer_rest(placed, p.unanswered);
        let i = choose|i: int| 0 <= i < placed.len() && placed[i] == item;
        assert(history::surface_of(events).take(placed.len() as int)[i] == item);
        assert(sums_up(history::surface_of(events)[i], events[at]));
    }
}

proof fn lemma_summary_kept(events: Seq<SessionEnvelope>, at: int)
    requires
        0 <= at < events.len(),
    ensures
        events[at].event matches SessionEvent::CompactionSummary { summary, keep_from, .. }
            ==> history::projection(events).summaries.contains((keep_from, summary@)),
    decreases events.len(),
{
    if let SessionEvent::CompactionSummary { summary, keep_from, .. } = events[at].event {
        let now = history::projection(events).summaries;
        let before = history::projection(events.drop_last()).summaries;
        if at < events.len() - 1 {
            lemma_summary_kept(events.drop_last(), at);
            let s = choose|s: int| 0 <= s < before.len() && before[s] == (keep_from, summary@);
            assert(now[s] == (keep_from, summary@));
        } else {
            assert(now[before.len() as int] == (keep_from, summary@));
        }
    }
}

/// What a compaction folds is gone: no message of the history comes from a folded event any more.
pub proof fn folded_events_are_gone(events: Seq<SessionEnvelope>, at: int, seq: u64)
    requires
        0 <= at < events.len(),
        folds(events[at].event, seq),
        forall|j: int| at < j < events.len() ==> (#[trigger] events[j]).seq != seq,
    ensures
        !has_seq(history::projection(events).surface, seq),
    decreases events.len(),
{
    let before = events.drop_last();
    let p = history::projection(before);
    let next = history::projection(events).surface;
    let last = events[events.len() - 1];
    if has_seq(next, seq) {
        let i = choose|i: int| 0 <= i < next.len() && (#[trigger] next[i]).seq == seq;
        let item = next[i];
        assert(next.contains(item));
        if let SessionEvent::CompactionSummary { replaces_from, replaces_to, .. } = last.event {
            lemma_without_range(p.surface, replaces_from, replaces_to, item);
        }
        if at < events.len() - 1 {
            assert forall|j: int| at < j < before.len() implies (#[trigger] before[j]).seq != seq by {
                assert(events[j].seq != seq);
            }
            folded_events_are_gone(before, at, seq);
            assert(last.seq != seq);
            if let SessionEvent::ToolResult { replaces: Some(old), .. } = last.event {
                lemma_position_of(p.surface, old, 0);
            }
            if p.surface.contains(item) {
                let k = choose|k: int| 0 <= k < p.surface.len() && p.surface[k] == item;
                assert(p.surface[k].seq == seq);
            } else if i < p.surface.len() {
                assert(p.surface[i].seq == seq);
            }
        }
    }
}

/// The events of a log are numbered upwards.
pub open spec fn numbered(events: Seq<SessionEnvelope>) -> bool {
    forall|i: int, j: int|
        0 <= i < j < events.len() ==> (#[trigger] events[i]).seq < (#[trigger] events[j]).seq
}

/// The messages stand in the order of their events.
pub open spec fn in_order(surface: Seq<SurfaceView>) -> bool {
    forall|i: int, j: int|
        0 <= i < j < surface.len() ==> (#[trigger] surface[i]).seq <= (#[trigger] surface[j]).seq
}

/// No two messages stand for one event.
pub open spec fn apart(surface: Seq<SurfaceView>) -> bool {
    forall|i: int, j: int|
        0 <= i < j < surface.len() ==> (#[trigger] surface[i]).seq < (#[trigger] surface[j]).seq
}

proof fn lemma_without_range_order(surface: Seq<SurfaceView>, from: u64, to: u64)
    requires
        apart(surface),
    ensures
        apart(history::without_range(surface, from, to)),
    decreases surface.len(),
{
    if surface.len() > 0 {
        let head = surface.drop_last();
        let rest = history::without_range(head, from, to);
        assert(apart(head)) by {
            assert forall|i: int, j: int| 0 <= i < j < head.len() implies (#[trigger] head[i]).seq < (
            #[trigger] head[j]).seq by {
                assert(surface[i].seq < surface[j].seq);
            }
        }
        lemma_without_range_order(head, from, to);
        assert forall|i: int| 0 <= i < rest.len() implies (#[trigger] rest[i]).seq
            < surface.last().seq by {
            assert(rest.contains(rest[i]));
            lemma_without_range(head, from, to, rest[i]);
            let k = choose|k: int| 0 <= k < head.len() && head[k] == rest[i];
            assert(surface[k].seq < surface[surface.len() - 1].seq);
        }
    }
}

proof fn lemma_order(events: Seq<SessionEnvelope>)
    requires
        numbered(events),
    ensures
        apart(history::projection(events).surface),
        events.len() > 0 ==> forall|i: int|
            0 <= i < history::projection(events).surface.len() ==> (
            #[trigger] history::projection(events).surface[i]).seq <= events.last().seq,
    decreases events.len(),
{
    if events.len() > 0 {
        let before = events.drop_last();
        let p = history::projection(before);
        assert(numbered(before)) by {
            assert forall|i: int, j: int| 0 <= i < j < before.len() implies (
            #[trigger] before[i]).seq < (#[trigger] before[j]).seq by {
                assert(events[i].seq < events[j].seq);
            }
        }
        lemma_order(before);
        assert forall|i: int| 0 <= i < p.surface.len() implies (#[trigger] p.surface[i]).seq
            < events.last().seq by {
            assert(before.len() > 0);
            assert(events[events.len() - 2].seq < events[events.len() - 1].seq);
        }
        let next = history::projection(events).surface;
        match events.last().event {
            SessionEvent::CompactionSummary { replaces_from, replaces_to, .. } => {
                lemma_without_range_order(p.surface, replaces_from, replaces_to);
                assert forall|i: int| 0 <= i < next.len() implies (#[trigger] next[i]).seq
                    <= events.last().seq by {
                    assert(next.contains(next[i]));
                    lemma_without_range(p.surface, replaces_from, replaces_to, next[i]);
                    let k = choose|k: int| 0 <= k < p.surface.len() && p.surface[k] == next[i];
                    assert(p.surface[k].seq < events.last().seq);
                }
            },
            SessionEvent::ToolResult { replaces: Some(old), .. } => {
                lemma_position_of(p.surface, old, 0);
            },
            _ => {},
        }
    }
}

proof fn lemma_placed_order(surface: Seq<SurfaceView>, summaries: Seq<(u64, Seq<char>)>)
    requires
        in_order(surface),
    ensures
        in_order(history::place_summaries(surface, summaries)),
    decreases summaries.len(),
{
    if summaries.len() > 0 {
        let before = history::place_summaries(surface, summaries.drop_last());
        lemma_placed_order(surface, summaries.drop_last());
        let at = history::position_from(before, summaries.last().0, 0);
        lemma_position_from(before, summaries.last().0, 0);
        let after = history::place_summaries(surface, summaries);
        assert forall|i: int| at < i < after.len() implies (#[trigger] after[i]).seq
            >= summaries.last().0 by {
            assert(before[at].seq <= before[i - 1].seq);
        }
        assert forall|i: int, j: int| 0 <= i < j < after.len() implies (#[trigger] after[i]).seq <= (
        #[trigger] after[j]).seq by {
            if i < at && j > at {
                assert(before[i].seq <= before[j - 1].seq);
            } else if i < at && j < at {
                assert(before[i].seq <= before[j].seq);
            } else if i > at {
                assert(before[i - 1].seq <= before[j - 1].seq);
            }
        }
    }
}

/// The history follows the log: its messages stand in the order of their events, a summary right
/// before what is kept, and the made-up results behind all.
pub proof fn history_follows_the_log(events: Seq<SessionEnvelope>) -> (n: int)
    requires
        numbered(events),
    ensures
        0 <= n <= history::surface_of(events).len(),
        in_order(history::surface_of(events).take(n)),
        apart(history::projection(events).surface),
        forall|i: int|
            n <= i < history::surface_of(events).len() ==> (#[trigger] history::surface_of(
                events,
            )[i]).message.content == INTERRUPTED_TOOL_RESULT@,
{
    let p = history::projection(events);
    let placed = history::place_summaries(p.surface, p.summaries);
    lemma_order(events);
    lemma_placed_order(p.surface, p.summaries);
    lemma_answer_rest(placed, p.unanswered);
    let all = history::surface_of(events);
    assert forall|i: int| placed.len() <= i < all.len() implies (
    #[trigger] all[i]).message.content == INTERRUPTED_TOOL_RESULT@ by {
        assert(all[placed.len() + (i - placed.len())] == all[i]);
    }
    placed.len() as int
}

/// A result that takes the place of another is told where the other was told, and nothing is told
/// of the other any more.
pub proof fn replaced_result_is_told_in_its_place(
    events: Seq<SessionEnvelope>,
    at: int,
    old: u64,
    i: int,
)
    requires
        numbered(events),
        0 <= at < events.len(),
        replaces(events[at].event, old),
        0 <= i < history::projection(events.take(at)).surface.len(),
        history::projection(events.take(at)).surface[i].seq == old,
        stays(events, at + 1, old),
    ensures
        exists|k: int|
            0 <= k < history::surface_of(events).len() && corrects(
                #[trigger] history::surface_of(events)[k],
                events[at],
            ),
        forall|k: int|
            0 <= k < history::projection(events).surface.len() && (#[trigger] history::projection(
                events,
            ).surface[k]).seq == old ==> corrects(
                history::projection(events).surface[k],
                events[at],
            ),
{
    let p = history::projection(events.take(at));
    lemma_take_in(events, at);
    lemma_position_of(p.surface, old, 0);
    let found = history::position_of(p.surface, old, 0)->0;
    let next = history::projection(events.take(at + 1));
    let item = next.surface[found];
    assert(corrects(item, events[at]));
    assert(next.surface.contains(item));
    lemma_kept(events, at + 1, item);
    lemma_shown(events, item);
    let all = history::surface_of(events);
    let k = choose|k: int| 0 <= k < all.len() && all[k] == item;
    assert(corrects(all[k], events[at]));
    let surface = history::projection(events).surface;
    lemma_order(events);
    let m = choose|m: int| 0 <= m < surface.len() && surface[m] == item;
    assert forall|k: int| 0 <= k < surface.len() && (#[trigger] surface[k]).seq == old implies corrects(
        surface[k],
        events[at],
    ) by {
        if k < m {
            assert(surface[k].seq < surface[m].seq);
        } else if m < k {
            assert(surface[m].seq < surface[k].seq);
        }
    }
}

/// The messages that are sent are those of the history, one for one.
pub proof fn messages_are_those_of_the_history(surface: Seq<SurfaceView>)
    ensures
        history::messages_of(surface).len() == surface.len(),
        forall|i: int|
            0 <= i < surface.len() ==> #[trigger] history::messages_of(surface)[i]
                == surface[i].message,
{
}

} // verus!
