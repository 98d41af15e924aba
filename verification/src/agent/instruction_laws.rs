//! What holds of the messages by which the harness tells the model of skills and of its context.
use vstd::prelude::*;

use crate::agent::instructions;
use crate::agent::runtime_context;
use crate::browser::script_laws::says;
use crate::json::JsonView;
use crate::session::{SessionEnvelope, SessionEvent};
use crate::text;

verus! {

/// The event is a message of the harness that begins so.
pub open spec fn is_injected(envelope: SessionEnvelope, prefix: Seq<char>) -> bool {
    envelope.event matches SessionEvent::UserMessage { text, injected, .. } && injected
        && prefix.is_prefix_of(text@)
}

/// The last message of the harness that begins so is found, whatever comes behind it; a message of
/// the user is not taken for one.
pub proof fn last_message_of_the_harness_is_found(
    events: Seq<SessionEnvelope>,
    at: int,
    prefix: Seq<char>,
)
    requires
        0 <= at < events.len(),
        is_injected(events[at], prefix),
        forall|i: int| at < i < events.len() ==> !is_injected(#[trigger] events[i], prefix),
    ensures
        instructions::last_injected(events, prefix) == Some(events[at].event->UserMessage_text@),
    decreases events.len(),
{
    if at < events.len() - 1 {
        assert(!is_injected(events[events.len() - 1], prefix));
        let rest = events.drop_last();
        assert forall|i: int| at < i < rest.len() implies !is_injected(#[trigger] rest[i], prefix) by {
            assert(rest[i] == events[i]);
        }
        last_message_of_the_harness_is_found(rest, at, prefix);
    }
}

/// Where the harness sent no such message, none is found.
pub proof fn no_message_of_the_harness_is_made_up(events: Seq<SessionEnvelope>, prefix: Seq<char>)
    requires
        forall|i: int| 0 <= i < events.len() ==> !is_injected(#[trigger] events[i], prefix),
    ensures
        instructions::last_injected(events, prefix) is None,
    decreases events.len(),
{
    if events.len() > 0 {
        assert(!is_injected(events[events.len() - 1], prefix));
        let rest = events.drop_last();
        assert forall|i: int| 0 <= i < rest.len() implies !is_injected(#[trigger] rest[i], prefix) by {
            assert(rest[i] == events[i]);
        }
        no_message_of_the_harness_is_made_up(rest, prefix);
    }
}

/// The last snapshot of the context is found among the messages of the harness.
pub proof fn last_snapshot_is_found(
    events: Seq<SessionEnvelope>,
    is_snapshot: Seq<bool>,
    upto: int,
    at: int,
)
    requires
        0 <= at < upto <= events.len(),
        events[at].event matches SessionEvent::UserMessage { injected, .. } && injected,
        is_snapshot[at],
        forall|i: int|
            at < i < upto ==> !(is_snapshot[i] && ((#[trigger] events[i]).event
                matches SessionEvent::UserMessage { injected, .. } && injected)),
    ensures
        runtime_context::last_snapshot(events, is_snapshot, upto) == Some(
            events[at].event->UserMessage_text@,
        ),
    decreases upto,
{
    if at < upto - 1 {
        let last = events[upto - 1];
        assert(!(is_snapshot[upto - 1] && (last.event matches SessionEvent::UserMessage {
            injected,
            ..
        } && injected)));
        last_snapshot_is_found(events, is_snapshot, upto - 1, at);
    }
}

/// What is sent between the tags of the harness is read back: the body behind the heading's blank
/// line.
pub proof fn sent_body_is_read_back(head: Seq<char>, body: Seq<char>)
    requires
        !text::has(head + "\n"@, "\n\n"@),
        body.len() > 0,
    ensures
        instructions::body_of(instructions::framed(head, body)) == body,
{
    let inner = head + "\n\n"@ + body;
    let open = instructions::REMINDER_OPEN@;
    let close = instructions::REMINDER_CLOSE@;
    assert(instructions::framed(head, body) == open + "\n"@ + inner + ("\n"@ + close)) by {
        assert(open + "\n"@ + head + "\n\n"@ + body + ("\n"@ + close) =~= open + "\n"@ + inner + (
        "\n"@ + close));
    }
    lemma_between(open, inner, close);
    lemma_behind(head, body);
}

proof fn lemma_behind(head: Seq<char>, body: Seq<char>)
    requires
        !text::has(head + "\n"@, "\n\n"@),
    ensures
        text::after_first(head + "\n\n"@ + body, "\n\n"@) == Some(body),
{
    reveal_strlit("\n");
    reveal_strlit("\n\n");
    let inner = head + "\n\n"@ + body;
    let at = head.len() as int;
    text::lemma_find_from(inner, "\n\n"@, 0);
    assert(inner.subrange(at, at + 2) =~= "\n\n"@);
    assert(text::occurs_at(inner, "\n\n"@, at));
    let found = text::find_from(inner, "\n\n"@, 0)->0;
    if found < at {
        let before = head + "\n"@;
        assert(before.subrange(found, found + 2) =~= inner.subrange(found, found + 2));
        assert(text::occurs_at(before, "\n\n"@, found));
    }
    assert(inner.skip(at + 2) =~= body);
}

proof fn lemma_between(open: Seq<char>, inner: Seq<char>, close: Seq<char>)
    requires
        open == instructions::REMINDER_OPEN@,
        close == instructions::REMINDER_CLOSE@,
    ensures
        instructions::reminder_inner(open + "\n"@ + inner + ("\n"@ + close)) == Some(inner),
{
    let feed = "\n"@;
    let rest = inner + (feed + close);
    assert(open + feed + inner + (feed + close) =~= open + (feed + rest));
    lemma_prefix(open, feed + rest);
    lemma_prefix(feed, rest);
    assert(rest =~= (inner + feed) + close);
    lemma_suffix(inner + feed, close);
    lemma_suffix(inner, feed);
}

proof fn lemma_prefix(head: Seq<char>, rest: Seq<char>)
    ensures
        text::after_prefix(head + rest, head) == Some(rest),
{
    assert(head =~= (head + rest).subrange(0, head.len() as int));
    assert((head + rest).skip(head.len() as int) =~= rest);
}

proof fn lemma_suffix(rest: Seq<char>, tail: Seq<char>)
    ensures
        text::before_suffix(rest + tail, tail) == Some(rest),
{
    let all = rest + tail;
    assert(tail =~= all.subrange(all.len() - tail.len(), all.len() as int));
    assert(all.take(all.len() - tail.len()) =~= rest);
}

/// The path that a call names is taken without the space around it, and a blank one is none.
pub proof fn path_of_a_call_is_read(value: JsonView, path: Seq<char>)
    requires
        says(value, "path"@, JsonView::Text(path)),
    ensures
        text::is_blank(path) ==> instructions::path_in(Some(value)) is None,
        !text::is_blank(path) ==> instructions::path_in(Some(value)) == Some(text::trimmed(path)),
        instructions::path_in(None) is None,
{
}

} // verus!
