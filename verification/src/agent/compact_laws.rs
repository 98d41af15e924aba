//! What holds of every compaction: how much of a history it keeps, and what is left of a summary.
use vstd::prelude::*;
use vstd::string::*;

use crate::agent::compact;
use crate::agent::compact::CompactionSettings;
use crate::history::SurfaceView;
use crate::message::{ChatRole, MessageView};
use crate::text;
use crate::text_laws;

verus! {

/// The tokens of a list in all.
pub open spec fn sum(tokens: Seq<u64>) -> int
    decreases tokens.len(),
{
    if tokens.len() == 0 {
        0
    } else {
        tokens[0] + sum(tokens.skip(1))
    }
}

/// Whether a message says something: one of the user, or one of the model that is not blank.
pub open spec fn says(item: SurfaceView) -> bool {
    ||| item.message.role == ChatRole::User
    ||| item.message.role == ChatRole::Assistant && exists|i: int|
        0 <= i < item.message.content.len() && !text::is_space(
            #[trigger] item.message.content[i],
        )
}

/// How many messages of a list say something.
pub open spec fn sayings(surface: Seq<SurfaceView>) -> int
    decreases surface.len(),
{
    if surface.len() == 0 {
        0
    } else {
        (if says(surface[0]) {
            1int
        } else {
            0
        }) + sayings(surface.skip(1))
    }
}

/// The messages from `from` on fill the window that a compaction keeps: they hold as many tokens as
/// it may, or as many tokens and as many texts as it must.
pub open spec fn fills(
    surface: Seq<SurfaceView>,
    tokens: Seq<u64>,
    settings: CompactionSettings,
    from: int,
) -> bool {
    let held = sum(tokens.skip(from));
    ||| held >= settings.max_keep_tokens
    ||| held >= settings.min_keep_tokens && sayings(surface.skip(from))
        >= settings.min_text_messages
}

/// The message at `call` is the last before `result` to make the call that `result` is the result
/// of.
pub open spec fn belongs(surface: Seq<SurfaceView>, call: int, result: int) -> bool {
    &&& 0 <= call < result < surface.len()
    &&& surface[result].message.role == ChatRole::Tool
    &&& surface[result].message.tool_call_id matches Some(id) && makes(surface[call].message, id)
        && forall|i: int| call < i < result ==> !makes((#[trigger] surface[i]).message, id)
}

/// A message makes the call `id`.
pub open spec fn makes(message: MessageView, id: Seq<char>) -> bool {
    exists|k: int| 0 <= k < message.tool_calls.len() && (#[trigger] message.tool_calls[k]).id == id
}

/// Positions of which each is that of the call of the one before it.
pub open spec fn leads_back(surface: Seq<SurfaceView>, chain: Seq<int>) -> bool {
    chain.len() > 0 && forall|k: int|
        0 <= k < chain.len() - 1 ==> belongs(surface, #[trigger] chain[k + 1], chain[k])
}

/// Where a kept window begins, counted from the first message where nothing is folded.
pub open spec fn window_start(start: Option<int>) -> int {
    match start {
        Some(start) => start,
        None => 0,
    }
}

proof fn lemma_tokens(tokens: Seq<u64>, from: int)
    requires
        0 <= from <= tokens.len(),
    ensures
        compact::tokens_from(tokens, from) == sum(tokens.skip(from)),
    decreases tokens.len() - from,
{
    if from < tokens.len() {
        lemma_tokens(tokens, from + 1);
        assert(tokens.skip(from).skip(1) =~= tokens.skip(from + 1));
    }
}

proof fn lemma_texts(surface: Seq<SurfaceView>, from: int)
    requires
        0 <= from <= surface.len(),
    ensures
        compact::texts_from(surface, from) == sayings(surface.skip(from)),
    decreases surface.len() - from,
{
    if from < surface.len() {
        lemma_texts(surface, from + 1);
        assert(surface.skip(from).skip(1) =~= surface.skip(from + 1));
        text_laws::blank_text_is_white_space(surface[from].message.content);
    }
}

proof fn lemma_fills(
    surface: Seq<SurfaceView>,
    tokens: Seq<u64>,
    settings: CompactionSettings,
    from: int,
)
    requires
        0 <= from <= surface.len(),
        tokens.len() == surface.len(),
    ensures
        compact::is_enough(surface, tokens, settings, from) == fills(
            surface,
            tokens,
            settings,
            from,
        ),
{
    lemma_tokens(tokens, from);
    lemma_texts(surface, from);
}

proof fn lemma_latest(
    surface: Seq<SurfaceView>,
    tokens: Seq<u64>,
    settings: CompactionSettings,
    at: int,
)
    requires
        0 <= at < surface.len(),
        tokens.len() == surface.len(),
    ensures
        ({
            let first = compact::latest_enough(surface, tokens, settings, at);
            &&& 0 <= first <= at
            &&& first > 0 ==> fills(surface, tokens, settings, first)
            &&& forall|p: int|
                first < p <= at ==> !#[trigger] fills(surface, tokens, settings, p)
        }),
    decreases at,
{
    lemma_fills(surface, tokens, settings, at);
    if at > 0 && !compact::is_enough(surface, tokens, settings, at) {
        lemma_latest(surface, tokens, settings, at - 1);
    }
}

proof fn lemma_caller(surface: Seq<SurfaceView>, id: Seq<char>, before: int)
    requires
        0 <= before <= surface.len(),
    ensures
        match compact::caller(surface, id, before) {
            Some(at) => 0 <= at < before && makes(surface[at].message, id) && forall|i: int|
                at < i < before ==> !makes((#[trigger] surface[i]).message, id),
            None => forall|i: int|
                0 <= i < before ==> !makes((#[trigger] surface[i]).message, id),
        },
    decreases before,
{
    if before > 0 && !compact::makes_call(surface[before - 1].message, id) {
        lemma_caller(surface, id, before - 1);
    }
}

proof fn lemma_chain(surface: Seq<SurfaceView>, start: int) -> (chain: Seq<int>)
    requires
        0 <= start < surface.len(),
    ensures
        leads_back(surface, chain),
        chain[0] == start,
        chain.last() == compact::unparted(surface, start),
        0 <= chain.last() <= start,
        forall|call: int| !belongs(surface, call, chain.last()),
    decreases start,
{
    if let Some(id) = surface[start].message.tool_call_id {
        lemma_caller(surface, id, start);
    }
    match compact::parted_caller(surface, start) {
        Some(at) => {
            assert(belongs(surface, at, start));
            let rest = lemma_chain(surface, at);
            let chain = seq![start] + rest;
            assert forall|k: int| 0 <= k < chain.len() - 1 implies belongs(
                surface,
                #[trigger] chain[k + 1],
                chain[k],
            ) by {
                if k > 0 {
                    assert(belongs(surface, rest[(k - 1) + 1], rest[k - 1]));
                }
            }
            assert(chain.last() == rest.last());
            chain
        },
        None => {
            assert forall|call: int| !belongs(surface, call, start) by {
                if belongs(surface, call, start) {
                    assert(makes(surface[call].message, surface[start].message.tool_call_id->0));
                }
            }
            seq![start]
        },
    }
}

/// A compaction keeps as little as it may: the last messages that fill its window, and before them
/// only what holds the call of the first of them. What is kept never begins with a result whose call
/// is folded, and something is folded wherever more than that is there.
pub proof fn kept_window_is_the_last_that_fills(
    surface: Seq<SurfaceView>,
    tokens: Seq<u64>,
    settings: CompactionSettings,
) -> (chain: Seq<int>)
    requires
        surface.len() > 0,
        tokens.len() == surface.len(),
    ensures
        leads_back(surface, chain),
        0 <= chain.last() <= chain[0] < surface.len(),
        chain.last() == window_start(compact::keep_start(surface, tokens, settings)),
        compact::keep_start(surface, tokens, settings) != Some(0int),
        chain[0] > 0 ==> fills(surface, tokens, settings, chain[0]),
        forall|p: int|
            chain[0] < p < surface.len() ==> !#[trigger] fills(surface, tokens, settings, p),
        forall|call: int| !belongs(surface, call, chain.last()),
{
    let first = compact::latest_enough(surface, tokens, settings, surface.len() - 1);
    lemma_latest(surface, tokens, settings, surface.len() - 1);
    lemma_chain(surface, first)
}

/// Where the messages from some position on fill the window, and the first of them is no result,
/// all before that position is folded.
pub proof fn full_window_folds_the_rest(
    surface: Seq<SurfaceView>,
    tokens: Seq<u64>,
    settings: CompactionSettings,
    from: int,
)
    requires
        tokens.len() == surface.len(),
        0 < from < surface.len(),
        fills(surface, tokens, settings, from),
        forall|p: int|
            from <= p < surface.len() ==> (#[trigger] surface[p]).message.role != ChatRole::Tool,
    ensures
        compact::keep_start(surface, tokens, settings) matches Some(start) && start >= from,
{
    let chain = kept_window_is_the_last_that_fills(surface, tokens, settings);
    assert(chain[0] >= from);
    if chain.len() > 1 {
        assert(belongs(surface, chain[0int + 1], chain[0]));
    }
}

/// Nothing is folded of an empty history.
pub proof fn empty_history_is_not_folded(tokens: Seq<u64>, settings: CompactionSettings)
    ensures
        compact::keep_start(Seq::empty(), tokens, settings) is None,
{
}

} // verus!
