//! What holds of everything that the tools of a developer keep, whatever has happened.
use vstd::prelude::*;

use crate::browser::recon;
use crate::browser::recon::{BreakpointView, ReconView, ScriptView, CONSOLE_CAP, SCRIPTS_CAP};
use crate::json::JsonView;
use crate::text;

verus! {

/// One thing that happens to a store.
pub enum StoreStep {
    /// An event of a tab comes.
    Heard {
        tab: Seq<char>,
        method: Seq<char>,
        params: JsonView,
        stamp: Option<u64>,
        now_ms: u64,
    },
    /// A tab is gone.
    TabGone { tab: Seq<char> },
    /// The browser has ended.
    Ended,
    BreakpointSet { breakpoint: BreakpointView },
    BreakpointRemoved { id: Seq<char> },
    /// The page that stood still goes on.
    WentOn,
}

/// A store after one thing has happened to it.
pub open spec fn after_step(store: ReconView, step: StoreStep) -> ReconView {
    match step {
        StoreStep::Heard { tab, method, params, stamp, now_ms } => recon::kept(
            store,
            tab,
            method,
            params,
            stamp,
            now_ms,
        ),
        StoreStep::TabGone { tab } => recon::tab_forgotten(store, tab),
        StoreStep::Ended => recon::all_forgotten(store),
        StoreStep::BreakpointSet { breakpoint } => recon::breakpoint_kept(store, breakpoint),
        StoreStep::BreakpointRemoved { id } => recon::breakpoint_dropped(store, id),
        StoreStep::WentOn => recon::resumed(store),
    }
}

/// A new store after a row of things has happened to it.
pub open spec fn store_after(steps: Seq<StoreStep>) -> ReconView
    decreases steps.len(),
{
    if steps.len() == 0 {
        recon::nothing_kept()
    } else {
        after_step(store_after(steps.drop_last()), steps.last())
    }
}

/// Whether the scripts of a tab have ids of their own.
pub open spec fn are_apart(scripts: Seq<ScriptView>) -> bool {
    forall|i: int, j: int|
        0 <= i < j < scripts.len() ==> (#[trigger] scripts[i]).script_id != (#[trigger] scripts[j]).script_id
}

/// Whether the numbers of the messages of a tab grow, up to the last number that was given.
pub open spec fn are_numbered(messages: Seq<recon::ConsoleView>, counter: nat) -> bool {
    &&& forall|i: int, j: int|
        0 <= i < j < messages.len() ==> (#[trigger] messages[i]).seq < (#[trigger] messages[j]).seq
    &&& forall|i: int| 0 <= i < messages.len() ==> (#[trigger] messages[i]).seq <= counter
}

/// Whether what is kept of a tab is in order.
pub open spec fn is_in_order(store: ReconView, tab: Seq<char>) -> bool {
    &&& are_apart(recon::scripts_of(store, tab))
    &&& recon::scripts_of(store, tab).len() <= SCRIPTS_CAP
    &&& are_numbered(recon::messages_of(store, tab), store.counter)
    &&& recon::messages_of(store, tab).len() <= CONSOLE_CAP
}

proof fn lemma_no_script(scripts: Seq<ScriptView>, id: Seq<char>, from: int)
    requires
        0 <= from,
        recon::script_at(scripts, id, from) is None,
    ensures
        forall|i: int| from <= i < scripts.len() ==> (#[trigger] scripts[i]).script_id != id,
    decreases scripts.len() - from,
{
    if from < scripts.len() {
        lemma_no_script(scripts, id, from + 1);
    }
}

proof fn lemma_found_script(scripts: Seq<ScriptView>, id: Seq<char>, from: int)
    requires
        0 <= from,
        recon::script_at(scripts, id, from) is Some,
    ensures
        from <= recon::script_at(scripts, id, from)->0 < scripts.len(),
        scripts[recon::script_at(scripts, id, from)->0].script_id == id,
    decreases scripts.len() - from,
{
    if from < scripts.len() && scripts[from].script_id != id {
        lemma_found_script(scripts, id, from + 1);
    }
}

proof fn lemma_script(scripts: Seq<ScriptView>, script: ScriptView)
    requires
        are_apart(scripts),
        scripts.len() <= SCRIPTS_CAP,
    ensures
        are_apart(recon::with_script(scripts, script)),
        recon::with_script(scripts, script).len() <= SCRIPTS_CAP,
{
    match recon::script_at(scripts, script.script_id, 0) {
        Some(_) => lemma_found_script(scripts, script.script_id, 0),
        None => lemma_no_script(scripts, script.script_id, 0),
    }
}

proof fn lemma_step(store: ReconView, step: StoreStep, tab: Seq<char>)
    requires
        is_in_order(store, tab),
        store.counter < u64::MAX,
    ensures
        is_in_order(after_step(store, step), tab),
        after_step(store, step).counter <= store.counter + 1,
{
    if let StoreStep::Heard { tab: of, method, params, stamp, now_ms } = step {
        if of == tab && method == "Debugger.scriptParsed"@ {
            if let Some(script) = recon::script_told(params) {
                lemma_script(recon::scripts_of(store, tab), script);
            }
        }
    }
}

proof fn lemma_steps(steps: Seq<StoreStep>, tab: Seq<char>)
    requires
        steps.len() <= u64::MAX,
    ensures
        is_in_order(store_after(steps), tab),
        store_after(steps).counter <= steps.len(),
    decreases steps.len(),
{
    if steps.len() > 0 {
        lemma_steps(steps.drop_last(), tab);
        lemma_step(store_after(steps.drop_last()), steps.last(), tab);
    }
}

/// Whatever has happened to a store: the scripts that it keeps of a tab have ids of their own, and
/// are not too many.
pub proof fn scripts_have_ids_of_their_own(steps: Seq<StoreStep>, tab: Seq<char>)
    requires
        steps.len() <= u64::MAX,
    ensures
        are_apart(recon::scripts_of(store_after(steps), tab)),
        recon::scripts_of(store_after(steps), tab).len() <= SCRIPTS_CAP,
{
    lemma_steps(steps, tab);
}

/// Whatever has happened to a store: the numbers of the messages that it keeps of a tab grow, and
/// the messages are not too many, so that the longest list of them holds all.
pub proof fn message_numbers_grow(steps: Seq<StoreStep>, tab: Seq<char>)
    requires
        steps.len() <= u64::MAX,
    ensures
        are_numbered(recon::messages_of(store_after(steps), tab), store_after(steps).counter),
        recon::messages_of(store_after(steps), tab).len() <= CONSOLE_CAP,
        recon::newest(recon::messages_of(store_after(steps), tab), CONSOLE_CAP as nat)
            == recon::messages_of(store_after(steps), tab),
{
    lemma_steps(steps, tab);
}

/// A list of the latest messages has growing numbers, however long it is.
pub proof fn latest_messages_grow(messages: Seq<recon::ConsoleView>, counter: nat, max: nat)
    requires
        are_numbered(messages, counter),
    ensures
        are_numbered(recon::newest(messages, max), counter),
        recon::newest(messages, max).is_suffix_of(messages),
{
    let latest = recon::newest(messages, max);
    assert(latest =~= messages.subrange(messages.len() - latest.len(), messages.len() as int));
}

/// A filter by address leaves out the other scripts and keeps the order; without a filter all
/// scripts are there.
pub proof fn filter_only_leaves_out(scripts: Seq<ScriptView>, part: Seq<char>)
    ensures
        recon::scripts_with(scripts, None) == scripts,
        recon::scripts_with(scripts, Some(part)) == scripts.filter(
            |script: ScriptView| text::has(script.url, part),
        ),
    decreases scripts.len(),
{
    reveal(Seq::filter);
    if scripts.len() > 0 {
        filter_only_leaves_out(scripts.drop_last(), part);
        assert(scripts =~= scripts.drop_last().push(scripts.last()));
    }
}

} // verus!
