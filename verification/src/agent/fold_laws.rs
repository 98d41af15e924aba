//! What holds of the requests for a summary and of what comes of them.
use vstd::prelude::*;

use crate::agent::compact;
use crate::agent::compact::{CompactOutcome, ContextPressure};
use crate::agent::log::{EventView, HeaderView};
use crate::agent::request;
use crate::agent::request::{CompactionResult, RequestLogView};
use crate::history::SurfaceView;
use crate::message::MessageView;
use crate::session::RequestHeaderReason;
use crate::stream::ModelSelection;
use crate::text;
use crate::tool::ToolView;

verus! {

/// A message is summed up without its images: a mark stands behind its text in their place, and
/// everything else stays. One without images stays as it is.
pub proof fn images_leave_a_mark(message: MessageView)
    ensures
        ({
            let bare = compact::without_images(message);
            &&& bare.images.len() == 0
            &&& bare.role == message.role
            &&& bare.reasoning_content == message.reasoning_content
            &&& bare.tool_calls == message.tool_calls
            &&& bare.tool_call_id == message.tool_call_id
            &&& message.images.len() == 0 ==> bare == message
            &&& message.images.len() > 0 && message.content.len() > 0 ==> bare.content
                == message.content + "\n[image]"@
            &&& message.images.len() > 0 && message.content.len() == 0 ==> bare.content == "[image]"@
        }),
{
    assert(message.images.len() == 0 ==> message.images =~= Seq::empty());
}

/// The messages of a history are summed up in their order, none left out.
pub proof fn every_message_is_summed_up(surface: Seq<SurfaceView>, i: int)
    requires
        0 <= i < surface.len(),
    ensures
        compact::imageless(surface).len() == surface.len(),
        compact::imageless(surface)[i].role == surface[i].message.role,
        surface[i].message.images.len() == 0 ==> compact::imageless(surface)[i] == surface[i].message,
        surface[i].message.content.is_prefix_of(compact::imageless(surface)[i].content),
{
    let content = surface[i].message.content;
    let told = compact::imageless(surface)[i].content;
    images_leave_a_mark(surface[i].message);
    assert(content =~= told.subrange(0, content.len() as int));
}

/// The user's own instructions stand where the prompt has the mark for them, and the rest of the
/// prompt stays. A prompt without the mark stays as it is.
pub proof fn instructions_take_their_place(before: Seq<char>, after: Seq<char>, custom: Seq<char>)
    ensures
        !text::has(before + "{CUSTOM_INSTRUCTIONS}"@.drop_last(), "{CUSTOM_INSTRUCTIONS}"@)
            ==> compact::filled(before + "{CUSTOM_INSTRUCTIONS}"@ + after, custom) == before + custom
            + after,
        !text::has(before, "{CUSTOM_INSTRUCTIONS}"@) ==> compact::filled(before, custom) == before,
{
    let mark = "{CUSTOM_INSTRUCTIONS}"@;
    reveal_strlit("{CUSTOM_INSTRUCTIONS}");
    assert(mark.len() == 21);
    text::lemma_find_from(before, mark, 0);
    let all = before + mark + after;
    text::lemma_find_from(all, mark, 0);
    let at = before.len() as int;
    assert(all.subrange(at, at + 21) =~= mark);
    assert(text::occurs_at(all, mark, at));
    let found = text::find_from(all, mark, 0)->0;
    let head = before + mark.drop_last();
    if !text::has(head, mark) {
        if found < at {
            assert(head.subrange(found, found + 21) =~= all.subrange(found, found + 21));
            assert(text::occurs_at(head, mark, found));
        }
        assert(all.take(at) =~= before);
        assert(all.skip(at + 21) =~= after);
    }
}

/// A request that is too long is made shorter by a fifth of its messages, and by one at least.
pub proof fn fifth_is_left_out(len: usize)
    requires
        len <= u32::MAX,
    ensures
        compact::head_to_drop(len) >= 1,
        len < 10 ==> compact::head_to_drop(len) == 1,
        len >= 5 ==> 5 * compact::head_to_drop(len) <= len < 5 * (compact::head_to_drop(len) + 1),
{
}

/// How full the window is, is known where both the window and the use of it are.
pub proof fn pressure_is_known(pressure: ContextPressure)
    ensures
        compact::known_pressure(pressure) is Some <==> (pressure.context_window is Some
            && pressure.context_window->0 > 0 && pressure.projected_tokens is Some),
        compact::known_pressure(pressure) matches Some(known) ==> Some(known.0)
            == pressure.projected_tokens && Some(known.1) == pressure.context_window,
{
}

/// Failures in a row are counted until a summary is made.
pub proof fn failures_are_counted(outcome: CompactOutcome, failures: u32)
    requires
        failures < u32::MAX,
    ensures
        request::failures_after(CompactionResult::Failed, failures) == failures + 1,
        request::failures_after(CompactionResult::Nothing, failures) == failures,
        request::failures_after(CompactionResult::Done(outcome), failures) == 0,
{
}

/// A summary that was made is logged with what it stands for, and nothing is logged without one.
pub proof fn summary_is_logged(turn: u32, step: u32, outcome: CompactOutcome)
    ensures
        ({
            let events = request::compaction_events(turn, step, CompactionResult::Done(outcome));
            &&& events.len() == 1
            &&& events[0] matches EventView::Summary {
                turn: of,
                step: at,
                summary,
                replaces_from,
                replaces_to,
                keep_from,
                pre_tokens,
                post_tokens,
            } && {
                &&& of == turn
                &&& at == step
                &&& summary == outcome.summary@
                &&& replaces_from == outcome.replaces_from
                &&& replaces_to == outcome.replaces_to
                &&& keep_from == outcome.keep_from
                &&& pre_tokens == outcome.pre_tokens
                &&& post_tokens == outcome.post_tokens
            }
        }),
        request::compaction_events(turn, step, CompactionResult::Nothing).len() == 0,
        request::compaction_events(turn, step, CompactionResult::Failed).len() == 0,
{
}

/// The user can call for a summary where summaries are made and a request was made before.
pub proof fn summary_can_be_called_for(enabled: bool, header: Option<HeaderView>)
    ensures
        request::manual_refusal(enabled, header) is None <==> enabled && header is Some,
{
}

/// A request names the model of the session, with its effort, and carries the system prompt and the
/// tools.
pub proof fn request_names_its_model(
    selection: ModelSelection,
    system: Seq<char>,
    tools: Seq<ToolView>,
)
    ensures
        ({
            let header = request::header_of(selection, system, tools);
            &&& header.provider == selection.provider@
            &&& header.model == selection.model@
            &&& header.reasoning_effort is Some == selection.reasoning_effort is Some
            &&& selection.reasoning_effort is Some ==> header.reasoning_effort == Some(
                selection.reasoning_effort->0@,
            )
            &&& header.system == Some(system)
            &&& header.tools == tools
            &&& header.temperature is None
            &&& header.max_tokens is None
            &&& header.stop.len() == 0
        }),
{
}

/// A header is logged as a change where one was sent before in this process, as one that goes on
/// where the log has one, and as the first one else.
pub proof fn header_has_a_reason(logged: RequestLogView)
    ensures
        request::header_reason(logged) == RequestHeaderReason::Change <==> logged.last_header is Some,
        request::header_reason(logged) == RequestHeaderReason::Resume <==> logged.last_header is None
            && logged.has_request_header,
        request::header_reason(logged) == RequestHeaderReason::Initial <==> logged.last_header is None
            && !logged.has_request_header,
{
}

} // verus!
