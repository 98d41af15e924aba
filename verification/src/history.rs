//! The model-facing history of a session: a projection of the log.
//!
//! User messages, assistant messages and tool results become messages; every other event projects
//! nothing. Compaction summaries and replaced results fold the history; a tool call that the log
//! never answered is answered at the end.
use vstd::prelude::*;
use vstd::string::*;

use crate::message;
use crate::message::{CallView, ChatMessage, ChatRole, ImageData, ImageView, MessageView, ToolCallRef};
use crate::session::{SessionEnvelope, SessionEvent};
use crate::stream::ContentBlock;
use crate::text;
use crate::text::str_eq;

verus! {

/// Content of the result that is made up for a tool call that the log never answered.
pub const INTERRUPTED_TOOL_RESULT: &'static str = "[tool execution was interrupted]";

/// What is added to a tool result that takes up images.
pub const MERGED_IMAGES_NOTE: &'static str = "\n[附:工具产生的截图已附在本条结果]";

/// One message of the history and the event it comes from.
#[derive(Debug)]
pub struct SurfaceMessage {
    pub seq: u64,
    /// The message is the result of a tool call that failed.
    pub is_error: bool,
    pub message: ChatMessage,
}

pub struct SurfaceView {
    pub seq: u64,
    pub is_error: bool,
    pub message: MessageView,
}

impl View for SurfaceMessage {
    type V = SurfaceView;

    open spec fn view(&self) -> SurfaceView {
        SurfaceView { seq: self.seq, is_error: self.is_error, message: self.message@ }
    }
}

impl Clone for SurfaceMessage {
    fn clone(&self) -> (copy: Self)
        ensures
            copy@ == self@,
    {
        SurfaceMessage { seq: self.seq, is_error: self.is_error, message: self.message.clone() }
    }
}

/// The views of a list of history messages.
pub open spec fn surface_views(surface: Seq<SurfaceMessage>) -> Seq<SurfaceView> {
    surface.map_values(|item: SurfaceMessage| item@)
}

/// The texts of an answer in a row.
pub open spec fn blocks_text(blocks: Seq<ContentBlock>) -> Seq<char>
    decreases blocks.len(),
{
    if blocks.len() == 0 {
        Seq::empty()
    } else {
        blocks_text(blocks.drop_last()) + (match blocks.last() {
            ContentBlock::Text { text } => text@,
            _ => Seq::empty(),
        })
    }
}

/// The tool calls of an answer, in order.
pub open spec fn blocks_calls(blocks: Seq<ContentBlock>) -> Seq<CallView>
    decreases blocks.len(),
{
    if blocks.len() == 0 {
        Seq::empty()
    } else {
        match blocks.last() {
            ContentBlock::ToolCall { id, name, arguments } => blocks_calls(blocks.drop_last()).push(
                CallView { id: id@, name: name@, arguments: arguments@ },
            ),
            _ => blocks_calls(blocks.drop_last()),
        }
    }
}

/// The ids of a list of calls.
pub open spec fn call_ids(calls: Seq<CallView>) -> Seq<Seq<char>> {
    calls.map_values(|call: CallView| call.id)
}

/// The state of the projection after some events.
pub struct Projection {
    pub surface: Seq<SurfaceView>,
    /// Calls without a result, in order.
    pub unanswered: Seq<Seq<char>>,
    /// Summaries with the first event that stays behind them.
    pub summaries: Seq<(u64, Seq<char>)>,
    /// Images that came while a call was unanswered: the next result takes them up.
    pub images: Seq<ImageView>,
}

/// The first message that stands for the event `seq`.
pub open spec fn position_of(surface: Seq<SurfaceView>, seq: u64, from: int) -> Option<int>
    decreases surface.len() - from,
{
    if from < 0 || from >= surface.len() {
        None
    } else if surface[from].seq == seq {
        Some(from)
    } else {
        position_of(surface, seq, from + 1)
    }
}

/// The history without the messages of the events `from..=to`.
pub open spec fn without_range(surface: Seq<SurfaceView>, from: u64, to: u64) -> Seq<SurfaceView>
    decreases surface.len(),
{
    if surface.len() == 0 {
        Seq::empty()
    } else {
        let rest = without_range(surface.drop_last(), from, to);
        if surface.last().seq < from || surface.last().seq > to {
            rest.push(surface.last())
        } else {
            rest
        }
    }
}

/// The ids without `id`.
pub open spec fn without_id(ids: Seq<Seq<char>>, id: Seq<char>) -> Seq<Seq<char>>
    decreases ids.len(),
{
    if ids.len() == 0 {
        Seq::empty()
    } else if ids.last() != id {
        without_id(ids.drop_last(), id).push(ids.last())
    } else {
        without_id(ids.drop_last(), id)
    }
}

/// The projection after one more event.
pub open spec fn project(p: Projection, envelope: SessionEnvelope) -> Projection {
    let seq = envelope.seq;
    match envelope.event {
        SessionEvent::AgentDelivery { text, .. } => Projection {
            surface: p.surface.push(
                SurfaceView {
                    seq,
                    is_error: false,
                    message: message::plain_message(ChatRole::User, text@),
                },
            ),
            ..p
        },
        SessionEvent::UserMessage { text, images, .. } => if p.unanswered.len() > 0
            && images@.len() > 0 {
            Projection { images: p.images + message::image_views(images@), ..p }
        } else {
            Projection {
                surface: p.surface.push(
                    SurfaceView {
                        seq,
                        is_error: false,
                        message: MessageView {
                            images: message::image_views(images@),
                            ..message::plain_message(ChatRole::User, text@)
                        },
                    },
                ),
                ..p
            }
        },
        SessionEvent::CompactionSummary { summary, replaces_from, replaces_to, keep_from, .. } =>
            Projection {
            surface: without_range(p.surface, replaces_from, replaces_to),
            summaries: p.summaries.push((keep_from, summary@)),
            ..p
        },
        SessionEvent::AssistantMessage { blocks, .. } => {
            let content = blocks_text(blocks@);
            let calls = blocks_calls(blocks@);
            if content.len() == 0 && calls.len() == 0 {
                p
            } else {
                Projection {
                    surface: p.surface.push(
                        SurfaceView {
                            seq,
                            is_error: false,
                            message: MessageView {
                                tool_calls: calls,
                                ..message::plain_message(ChatRole::Assistant, content)
                            },
                        },
                    ),
                    unanswered: p.unanswered + call_ids(calls),
                    ..p
                }
            }
        },
        SessionEvent::ToolResult { call_id, content, is_error, replaces, .. } => {
            let unanswered = without_id(p.unanswered, call_id@);
            let replaced = match replaces {
                Some(old) => position_of(p.surface, old, 0),
                None => None,
            };
            match replaced {
                Some(at) => Projection {
                    surface: p.surface.update(
                        at,
                        SurfaceView {
                            seq: p.surface[at].seq,
                            is_error,
                            message: message::tool_message(call_id@, content@),
                        },
                    ),
                    unanswered,
                    ..p
                },
                None => Projection {
                    surface: p.surface.push(
                        SurfaceView {
                            seq,
                            is_error,
                            message: if p.images.len() == 0 {
                                message::tool_message(call_id@, content@)
                            } else {
                                MessageView {
                                    images: p.images,
                                    ..message::tool_message(
                                        call_id@,
                                        content@ + MERGED_IMAGES_NOTE@,
                                    )
                                }
                            },
                        },
                    ),
                    unanswered,
                    images: Seq::empty(),
                    ..p
                },
            }
        },
        _ => p,
    }
}

/// The projection of a log, before the summaries are placed.
pub open spec fn projection(events: Seq<SessionEnvelope>) -> Projection
    decreases events.len(),
{
    if events.len() == 0 {
        Projection {
            surface: Seq::empty(),
            unanswered: Seq::empty(),
            summaries: Seq::empty(),
            images: Seq::empty(),
        }
    } else {
        project(projection(events.drop_last()), events.last())
    }
}

/// The first position from `from` on whose event is `seq` or later; the end where there is none.
pub open spec fn position_from(surface: Seq<SurfaceView>, seq: u64, from: int) -> int
    decreases surface.len() - from,
{
    if from >= surface.len() {
        surface.len() as int
    } else if surface[from].seq >= seq {
        from
    } else {
        position_from(surface, seq, from + 1)
    }
}

/// The history with a summary before the messages from `keep_from` on.
pub open spec fn place_summary(surface: Seq<SurfaceView>, summary: (u64, Seq<char>)) -> Seq<
    SurfaceView,
> {
    surface.insert(
        position_from(surface, summary.0, 0),
        SurfaceView {
            seq: if summary.0 == 0 {
                0
            } else {
                (summary.0 - 1) as u64
            },
            is_error: false,
            message: message::plain_message(ChatRole::User, summary.1),
        },
    )
}

/// The history with its summaries placed, one after the other.
pub open spec fn place_summaries(
    surface: Seq<SurfaceView>,
    summaries: Seq<(u64, Seq<char>)>,
) -> Seq<SurfaceView>
    decreases summaries.len(),
{
    if summaries.len() == 0 {
        surface
    } else {
        place_summary(place_summaries(surface, summaries.drop_last()), summaries.last())
    }
}

/// The history with a made-up result for each of the calls.
pub open spec fn answer_rest(surface: Seq<SurfaceView>, unanswered: Seq<Seq<char>>) -> Seq<
    SurfaceView,
>
    decreases unanswered.len(),
{
    if unanswered.len() == 0 {
        surface
    } else {
        let before = answer_rest(surface, unanswered.drop_last());
        before.push(
            SurfaceView {
                seq: (u64::MAX - before.len()) as u64,
                is_error: false,
                message: message::tool_message(unanswered.last(), INTERRUPTED_TOOL_RESULT@),
            },
        )
    }
}

/// The history of a log.
pub open spec fn surface_of(events: Seq<SessionEnvelope>) -> Seq<SurfaceView> {
    let p = projection(events);
    answer_rest(place_summaries(p.surface, p.summaries), p.unanswered)
}

/// The messages of the history.
pub open spec fn messages_of(surface: Seq<SurfaceView>) -> Seq<MessageView> {
    surface.map_values(|item: SurfaceView| item.message)
}


/// The texts of an answer in a row.
pub fn text_of_blocks(blocks: &Vec<ContentBlock>) -> (content: String)
    ensures
        content@ == blocks_text(blocks@),
{
    let mut content = String::new();
    let mut i: usize = 0;
    while i < blocks.len()
        invariant
            i <= blocks@.len(),
            content@ == blocks_text(blocks@.take(i as int)),
        decreases blocks@.len() - i,
    {
        assert(blocks@.take(i + 1).drop_last() =~= blocks@.take(i as int));
        if let ContentBlock::Text { text } = &blocks[i] {
            content.append(text.as_str());
        } else {
            assert(content@ + Seq::<char>::empty() =~= content@);
        }
        i += 1;
    }
    assert(blocks@.take(blocks@.len() as int) =~= blocks@);
    content
}

/// The tool calls of an answer, in order.
pub fn calls_of_blocks(blocks: &Vec<ContentBlock>) -> (calls: Vec<ToolCallRef>)
    ensures
        message::call_views(calls@) == blocks_calls(blocks@),
{
    let mut calls: Vec<ToolCallRef> = Vec::new();
    let mut i: usize = 0;
    assert(message::call_views(calls@) =~= Seq::empty());
    while i < blocks.len()
        invariant
            i <= blocks@.len(),
            message::call_views(calls@) == blocks_calls(blocks@.take(i as int)),
        decreases blocks@.len() - i,
    {
        assert(blocks@.take(i + 1).drop_last() =~= blocks@.take(i as int));
        if let ContentBlock::ToolCall { id, name, arguments } = &blocks[i] {
            let call = ToolCallRef {
                id: id.clone(),
                name: name.clone(),
                arguments: arguments.clone(),
            };
            assert(message::call_views(calls@.push(call)) =~= message::call_views(calls@).push(
                call@,
            ));
            calls.push(call);
        }
        i += 1;
    }
    assert(blocks@.take(blocks@.len() as int) =~= blocks@);
    calls
}

/// The projection while it is made.
struct Folding {
    surface: Vec<SurfaceMessage>,
    unanswered: Vec<String>,
    summaries: Vec<(u64, String)>,
    images: Vec<ImageData>,
}

spec fn summary_views(summaries: Seq<(u64, String)>) -> Seq<(u64, Seq<char>)> {
    summaries.map_values(|summary: (u64, String)| (summary.0, summary.1@))
}

impl View for Folding {
    type V = Projection;

    closed spec fn view(&self) -> Projection {
        Projection {
            surface: surface_views(self.surface@),
            unanswered: text::views(self.unanswered@),
            summaries: summary_views(self.summaries@),
            images: message::image_views(self.images@),
        }
    }
}

proof fn lemma_surface_push(surface: Seq<SurfaceMessage>, item: SurfaceMessage)
    ensures
        surface_views(surface.push(item)) == surface_views(surface).push(item@),
{
    assert(surface_views(surface.push(item)) =~= surface_views(surface).push(item@));
}

/// Leaves out the messages of the events `from..=to`.
fn drop_range(surface: Vec<SurfaceMessage>, from: u64, to: u64) -> (kept: Vec<SurfaceMessage>)
    ensures
        surface_views(kept@) == without_range(surface_views(surface@), from, to),
{
    let ghost all = surface_views(surface@);
    let mut kept: Vec<SurfaceMessage> = Vec::new();
    assert(surface_views(kept@) =~= Seq::empty());
    for item in iter: surface
        invariant
            iter.seq() == surface@,
            all == surface_views(surface@),
            surface_views(kept@) == without_range(all.take(iter.index() as int), from, to),
    {
        assert(all.take(iter.index() + 1).drop_last() =~= all.take(iter.index() as int));
        if item.seq < from || item.seq > to {
            proof {
                lemma_surface_push(kept@, item);
            }
            kept.push(item);
        }
    }
    assert(all.take(all.len() as int) =~= all);
    kept
}

/// Leaves out an id.
fn drop_id(ids: &Vec<String>, id: &str) -> (kept: Vec<String>)
    ensures
        text::views(kept@) == without_id(text::views(ids@), id@),
{
    let ghost all = text::views(ids@);
    let mut kept: Vec<String> = Vec::new();
    let mut i: usize = 0;
    assert(text::views(kept@) =~= Seq::empty());
    while i < ids.len()
        invariant
            i <= ids@.len(),
            all == text::views(ids@),
            text::views(kept@) == without_id(all.take(i as int), id@),
        decreases ids@.len() - i,
    {
        assert(all.take(i + 1).drop_last() =~= all.take(i as int));
        if !str_eq(ids[i].as_str(), id) {
            let copy = ids[i].clone();
            assert(text::views(kept@.push(copy)) =~= text::views(kept@).push(copy@));
            kept.push(copy);
        }
        i += 1;
    }
    assert(all.take(all.len() as int) =~= all);
    kept
}

/// Where the first message of an event stands.
fn find_seq(surface: &Vec<SurfaceMessage>, seq: u64) -> (at: Option<usize>)
    ensures
        position_of(surface_views(surface@), seq, 0) == (match at {
            Some(at) => Some(at as int),
            None => None::<int>,
        }),
        at matches Some(at) ==> at < surface@.len(),
{
    let mut i: usize = 0;
    while i < surface.len()
        invariant
            i <= surface@.len(),
            position_of(surface_views(surface@), seq, 0) == position_of(
                surface_views(surface@),
                seq,
                i as int,
            ),
        decreases surface@.len() - i,
    {
        if surface[i].seq == seq {
            return Some(i);
        }
        i += 1;
    }
    None
}

impl Folding {
    /// Takes in one event.
    fn take_in(&mut self, envelope: &SessionEnvelope)
        ensures
            final(self)@ == project(old(self)@, *envelope),
    {
        let ghost before = *self;
        let seq: u64 = envelope.seq;
        match &envelope.event {
            SessionEvent::AgentDelivery { text, .. } => {
                let item = SurfaceMessage {
                    seq,
                    is_error: false,
                    message: ChatMessage::user(text.as_str()),
                };
                proof {
                    lemma_surface_push(self.surface@, item);
                }
                self.surface.push(item);
            },
            SessionEvent::UserMessage { text, images, .. } => {
                let mut copies = images.clone();
                assert(copies@ =~= images@);
                if self.unanswered.len() > 0 && images.len() > 0 {
                    assert(message::image_views(self.images@ + copies@) =~= message::image_views(
                        self.images@,
                    ) + message::image_views(images@));
                    self.images.append(&mut copies);
                } else {
                    let item = SurfaceMessage {
                        seq,
                        is_error: false,
                        message: ChatMessage::user_with_images(text.as_str(), copies),
                    };
                    proof {
                        lemma_surface_push(self.surface@, item);
                    }
                    self.surface.push(item);
                }
            },
            SessionEvent::CompactionSummary {
                summary,
                replaces_from,
                replaces_to,
                keep_from,
                ..
            } => {
                let mut surface: Vec<SurfaceMessage> = Vec::new();
                std::mem::swap(&mut surface, &mut self.surface);
                self.surface = drop_range(surface, *replaces_from, *replaces_to);
                let entry = (*keep_from, summary.clone());
                assert(summary_views(self.summaries@.push(entry)) =~= summary_views(
                    self.summaries@,
                ).push((*keep_from, summary@)));
                self.summaries.push(entry);
            },
            SessionEvent::AssistantMessage { blocks, .. } => {
                let content = text_of_blocks(blocks);
                let calls = calls_of_blocks(blocks);
                if content.as_str().is_empty() && calls.len() == 0 {
                    return ;
                }
                let mut i: usize = 0;
                let ghost ids = call_ids(message::call_views(calls@));
                let ghost start = text::views(self.unanswered@);
                assert(start + ids.take(0) =~= start);
                while i < calls.len()
                    invariant
                        i <= calls@.len(),
                        ids == call_ids(message::call_views(calls@)),
                        text::views(self.unanswered@) == start + ids.take(i as int),
                        self.surface == before.surface,
                        self.summaries == before.summaries,
                        self.images == before.images,
                    decreases calls@.len() - i,
                {
                    let id = calls[i].id.clone();
                    assert(text::views(self.unanswered@.push(id)) =~= text::views(
                        self.unanswered@,
                    ).push(id@));
                    assert(start + ids.take(i + 1) =~= (start + ids.take(i as int)).push(id@));
                    self.unanswered.push(id);
                    i += 1;
                }
                assert(ids.take(ids.len() as int) =~= ids);
                let item = SurfaceMessage {
                    seq,
                    is_error: false,
                    message: ChatMessage::assistant(content.as_str(), None, calls),
                };
                proof {
                    lemma_surface_push(self.surface@, item);
                }
                self.surface.push(item);
            },
            SessionEvent::ToolResult { call_id, content, is_error, replaces, .. } => {
                self.unanswered = drop_id(&self.unanswered, call_id.as_str());
                let replaced: Option<usize> = match replaces {
                    Some(old) => find_seq(&self.surface, *old),
                    None => None,
                };
                if let Some(at) = replaced {
                    let item = SurfaceMessage {
                        seq: self.surface[at].seq,
                        is_error: *is_error,
                        message: ChatMessage::tool_result(call_id.as_str(), content.as_str()),
                    };
                    assert(surface_views(self.surface@.update(at as int, item)) =~= surface_views(
                        self.surface@,
                    ).update(at as int, item@));
                    self.surface.set(at, item);
                    return ;
                }
                let message = if self.images.len() == 0 {
                    assert(message::image_views(self.images@) =~= Seq::empty());
                    ChatMessage::tool_result(call_id.as_str(), content.as_str())
                } else {
                    let mut images: Vec<ImageData> = Vec::new();
                    std::mem::swap(&mut images, &mut self.images);
                    let mut merged = content.clone();
                    merged.append(MERGED_IMAGES_NOTE);
                    let mut message = ChatMessage::tool_result(call_id.as_str(), merged.as_str());
                    message.images = images;
                    assert(message::image_views(self.images@) =~= Seq::empty());
                    message
                };
                let item = SurfaceMessage { seq, is_error: *is_error, message };
                proof {
                    lemma_surface_push(self.surface@, item);
                }
                self.surface.push(item);
            },
            _ => {},
        }
    }
}

/// The model-facing history of a log, with the event that each message comes from.
pub fn derive_surface(events: &[SessionEnvelope]) -> (surface: Vec<SurfaceMessage>)
    ensures
        surface_views(surface@) == surface_of(events@),
{
    let mut folding = Folding {
        surface: Vec::new(),
        unanswered: Vec::new(),
        summaries: Vec::new(),
        images: Vec::new(),
    };
    assert(folding@.surface =~= Seq::empty());
    assert(folding@.unanswered =~= Seq::empty());
    assert(folding@.summaries =~= Seq::empty());
    assert(folding@.images =~= Seq::empty());
    let mut i: usize = 0;
    while i < events.len()
        invariant
            i <= events@.len(),
            folding@ == projection(events@.take(i as int)),
        decreases events@.len() - i,
    {
        assert(events@.take(i + 1).drop_last() =~= events@.take(i as int));
        folding.take_in(&events[i]);
        i += 1;
    }
    assert(events@.take(events@.len() as int) =~= events@);
    let Folding { mut surface, unanswered, summaries, images: _ } = folding;
    let ghost base = surface_views(surface@);
    let ghost all = summary_views(summaries@);
    let mut i: usize = 0;
    while i < summaries.len()
        invariant
            i <= summaries@.len(),
            all == summary_views(summaries@),
            surface_views(surface@) == place_summaries(base, all.take(i as int)),
        decreases summaries@.len() - i,
    {
        assert(all.take(i + 1).drop_last() =~= all.take(i as int));
        place(&mut surface, summaries[i].0, summaries[i].1.as_str());
        i += 1;
    }
    assert(all.take(all.len() as int) =~= all);
    let ghost base = surface_views(surface@);
    let ghost ids = text::views(unanswered@);
    let mut i: usize = 0;
    while i < unanswered.len()
        invariant
            i <= unanswered@.len(),
            ids == text::views(unanswered@),
            surface_views(surface@) == answer_rest(base, ids.take(i as int)),
        decreases unanswered@.len() - i,
    {
        assert(ids.take(i + 1).drop_last() =~= ids.take(i as int));
        let item = SurfaceMessage {
            seq: u64::MAX - surface.len() as u64,
            is_error: false,
            message: ChatMessage::tool_result(unanswered[i].as_str(), INTERRUPTED_TOOL_RESULT),
        };
        proof {
            lemma_surface_push(surface@, item);
        }
        surface.push(item);
        i += 1;
    }
    assert(ids.take(ids.len() as int) =~= ids);
    surface
}

/// Puts a summary before the messages from `keep_from` on.
fn place(surface: &mut Vec<SurfaceMessage>, keep_from: u64, summary: &str)
    ensures
        surface_views(final(surface)@) == place_summary(
            surface_views(old(surface)@),
            (keep_from, summary@),
        ),
{
    let ghost all = surface_views(surface@);
    let mut at: usize = 0;
    while at < surface.len() && surface[at].seq < keep_from
        invariant
            at <= surface@.len(),
            all == surface_views(surface@),
            position_from(all, keep_from, 0) == position_from(all, keep_from, at as int),
        decreases surface@.len() - at,
    {
        at += 1;
    }
    let item = SurfaceMessage {
        seq: keep_from.saturating_sub(1),
        is_error: false,
        message: ChatMessage::user(summary),
    };
    assert(surface_views(surface@.insert(at as int, item)) =~= all.insert(at as int, item@));
    surface.insert(at, item);
}

/// The model-facing history of a log.
pub fn derive_messages(events: &[SessionEnvelope]) -> (messages: Vec<ChatMessage>)
    ensures
        message::message_views(messages@) == messages_of(surface_of(events@)),
{
    let surface = derive_surface(events);
    let mut messages: Vec<ChatMessage> = Vec::new();
    for item in iter: surface
        invariant
            iter.seq() == surface@,
            messages@.len() == iter.index(),
            forall|i: int| 0 <= i < messages@.len() ==> messages@[i]@ == surface@[i]@.message,
    {
        messages.push(item.message);
    }
    assert(message::message_views(messages@) =~= messages_of(surface_views(surface@)));
    messages
}

} // verus!
