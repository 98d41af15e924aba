//! What holds of the scripts, the messages and the breakpoints that are kept of a page.
use vstd::prelude::*;

use crate::browser::recon;
use crate::browser::recon::{
    BreakpointView, ConsoleView, ReconView, ScriptView, ARGUMENTS_CAP, CONSOLE_CAP, FRAMES_CAP,
    SCRIPTS_CAP,
};
use crate::browser::remote;
use crate::json::{JsonView, NumberView};
use crate::text;
use crate::text_laws;

verus! {

/// The value of a key of an object.
pub open spec fn says(value: JsonView, key: Seq<char>, inner: JsonView) -> bool {
    value matches JsonView::Object(members) && members.contains_key(key) && members[key] == inner
}

/// One of the scripts has this id.
pub open spec fn has_id(scripts: Seq<ScriptView>, id: Seq<char>) -> bool {
    exists|i: int| 0 <= i < scripts.len() && (#[trigger] scripts[i]).script_id == id
}

proof fn lemma_script(scripts: Seq<ScriptView>, id: Seq<char>, from: int)
    requires
        0 <= from,
    ensures
        match recon::script_at(scripts, id, from) {
            Some(at) => {
                &&& from <= at < scripts.len()
                &&& scripts[at].script_id == id
                &&& forall|i: int| from <= i < at ==> (#[trigger] scripts[i]).script_id != id
            },
            None => forall|i: int| from <= i < scripts.len() ==> (#[trigger] scripts[i]).script_id != id,
        },
    decreases scripts.len() - from,
{
    if from < scripts.len() && scripts[from].script_id != id {
        lemma_script(scripts, id, from + 1);
    }
}

/// A script that the page has read is listed last, with its id and its address, and is known to
/// belong to its tab. The list loses its first one where it is full, and a script that is listed
/// already changes nothing in it.
pub proof fn read_script_is_listed(
    store: ReconView,
    tab: Seq<char>,
    params: JsonView,
    id: Seq<char>,
    url: Seq<char>,
    stamp: Option<u64>,
    now_ms: u64,
)
    requires
        says(params, "scriptId"@, JsonView::Text(id)),
        says(params, "url"@, JsonView::Text(url)),
        id.len() > 0,
    ensures
        ({
            let before = recon::scripts_of(store, tab);
            let after = recon::kept(store, tab, "Debugger.scriptParsed"@, params, stamp, now_ms);
            let scripts = recon::scripts_of(after, tab);
            &&& has_id(before, id) ==> scripts == before
            &&& !has_id(before, id) ==> {
                &&& scripts.len() > 0
                &&& scripts.last().script_id == id
                &&& scripts.last().url == url
                &&& before.len() < SCRIPTS_CAP ==> scripts.drop_last() == before
                &&& before.len() == SCRIPTS_CAP ==> scripts.drop_last() == before.skip(1)
            }
            &&& after.tabs.contains_key(id) && after.tabs[id] == tab
            &&& after.console == store.console
            &&& after.breakpoints == store.breakpoints
            &&& after.paused == store.paused
        }),
{
    let before = recon::scripts_of(store, tab);
    lemma_script(before, id, 0);
    let after = recon::kept(store, tab, "Debugger.scriptParsed"@, params, stamp, now_ms);
    let scripts = recon::scripts_of(after, tab);
    if let Some(at) = recon::script_at(before, id, 0) {
        assert(before[at].script_id == id);
    } else {
        if before.len() < SCRIPTS_CAP {
            assert(scripts.drop_last() =~= before);
        }
        if before.len() == SCRIPTS_CAP {
            assert(scripts.drop_last() =~= before.skip(1));
        }
    }
}

/// What is told of a script: its length, its first line, whether it is a module, and its hash.
pub proof fn script_is_described(
    params: JsonView,
    id: Seq<char>,
    length: u64,
    line: i64,
    is_module: bool,
    hash: Seq<char>,
)
    requires
        says(params, "scriptId"@, JsonView::Text(id)),
        says(params, "length"@, JsonView::Number(NumberView::Unsigned(length))),
        line >= 0,
        says(params, "startLine"@, JsonView::Number(NumberView::Unsigned(line as u64))),
        says(params, "isModule"@, JsonView::Bool(is_module)),
        says(params, "hash"@, JsonView::Text(hash)),
    ensures
        id.len() == 0 ==> recon::script_told(params) is None,
        id.len() > 0 ==> (recon::script_told(params) matches Some(script) && script.length == length
            && script.start_line == line && script.is_module == is_module && script.hash == hash),
{
}

/// A message of the console is listed last, under the next number, and the list loses its first one
/// where it is full.
pub proof fn message_is_listed(
    store: ReconView,
    tab: Seq<char>,
    params: JsonView,
    level: Seq<char>,
    stamp: Option<u64>,
    now_ms: u64,
)
    requires
        store.counter < u64::MAX,
        says(params, "type"@, JsonView::Text(level)),
    ensures
        ({
            let before = recon::messages_of(store, tab);
            let after = recon::kept(store, tab, "Runtime.consoleAPICalled"@, params, stamp, now_ms);
            let messages = recon::messages_of(after, tab);
            &&& messages.len() > 0
            &&& messages.last().seq == store.counter + 1
            &&& messages.last().level == level
            &&& messages.last().at_ms == (if stamp is Some {
                stamp->0
            } else {
                now_ms
            })
            &&& before.len() < CONSOLE_CAP ==> messages.drop_last() == before
            &&& before.len() == CONSOLE_CAP ==> messages.drop_last() == before.skip(1)
            &&& after.counter == store.counter + 1
            &&& after.scripts == store.scripts
            &&& after.breakpoints == store.breakpoints
            &&& after.paused == store.paused
        }),
{
    reveal_strlit("Debugger.scriptParsed");
    reveal_strlit("Debugger.paused");
    reveal_strlit("Debugger.resumed");
    reveal_strlit("Runtime.consoleAPICalled");
    assert("Runtime.consoleAPICalled"@[0] != "Debugger.scriptParsed"@[0]);
    assert("Runtime.consoleAPICalled"@[0] != "Debugger.paused"@[0]);
    assert("Runtime.consoleAPICalled"@[0] != "Debugger.resumed"@[0]);
    let before = recon::messages_of(store, tab);
    let after = recon::kept(store, tab, "Runtime.consoleAPICalled"@, params, stamp, now_ms);
    let messages = recon::messages_of(after, tab);
    if before.len() < CONSOLE_CAP {
        assert(messages.drop_last() =~= before);
    }
    if before.len() == CONSOLE_CAP {
        assert(messages.drop_last() =~= before.skip(1));
    }
}

/// A message holds what each of its first arguments says, in their order with a space between.
pub proof fn message_says_its_arguments(params: JsonView, items: Seq<JsonView>, at_ms: u64, i: int)
    requires
        says(params, "args"@, JsonView::Array(items)),
        0 <= i < items.len(),
        i < ARGUMENTS_CAP,
    ensures
        text::has(recon::message_told(params, at_ms).text, remote::remote_text(items[i])),
        items.len() == 2 ==> recon::message_told(params, at_ms).text == remote::remote_text(items[0])
            + " "@ + remote::remote_text(items[1]),
{
    let shown = recon::first_few(items, ARGUMENTS_CAP as nat);
    let texts = shown.map_values(|argument: JsonView| remote::remote_text(argument));
    assert(texts[i] == remote::remote_text(items[i]));
    text_laws::joined_text_holds_each(texts, " "@, i);
    if items.len() == 2 {
        let a = seq![texts[0]];
        let b = seq![texts[1]];
        assert(texts =~= a + b);
        text_laws::joined_texts_follow_each_other(a, b, " "@);
        text_laws::joined_texts_follow_each_other(b, a, " "@);
    }
}

/// What a page throws is told as an error, with what it says of itself.
pub proof fn thrown_error_is_listed(
    store: ReconView,
    tab: Seq<char>,
    params: JsonView,
    details: JsonView,
    exception: JsonView,
    said: Seq<char>,
    url: Seq<char>,
    stamp: Option<u64>,
    now_ms: u64,
)
    requires
        store.counter < u64::MAX,
        says(params, "exceptionDetails"@, details),
        says(details, "exception"@, exception),
        says(exception, "description"@, JsonView::Text(said)),
        says(details, "url"@, JsonView::Text(url)),
    ensures
        ({
            let after = recon::kept(store, tab, "Runtime.exceptionThrown"@, params, stamp, now_ms);
            let messages = recon::messages_of(after, tab);
            &&& messages.len() > 0
            &&& messages.last().level == "error"@
            &&& messages.last().text == said
            &&& messages.last().url == url
            &&& messages.last().seq == store.counter + 1
        }),
{
    reveal_strlit("Debugger.scriptParsed");
    reveal_strlit("Debugger.paused");
    reveal_strlit("Debugger.resumed");
    reveal_strlit("Runtime.consoleAPICalled");
    reveal_strlit("Runtime.exceptionThrown");
    assert("Runtime.exceptionThrown"@[0] != "Debugger.scriptParsed"@[0]);
    assert("Runtime.exceptionThrown"@[0] != "Debugger.paused"@[0]);
    assert("Runtime.exceptionThrown"@[0] != "Debugger.resumed"@[0]);
    assert("Runtime.exceptionThrown"@.len() != "Runtime.consoleAPICalled"@.len());
}

/// A page that stands still is known to, with its tab, the reason and its calls; one that goes on
/// is forgotten.
pub proof fn pause_is_known(
    store: ReconView,
    tab: Seq<char>,
    params: JsonView,
    reason: Seq<char>,
    frames: Seq<JsonView>,
    stamp: Option<u64>,
    now_ms: u64,
)
    requires
        says(params, "reason"@, JsonView::Text(reason)),
        says(params, "callFrames"@, JsonView::Array(frames)),
    ensures
        ({
            let after = recon::kept(store, tab, "Debugger.paused"@, params, stamp, now_ms);
            &&& after.paused_tab == Some(tab)
            &&& after.paused matches Some(paused) && {
                &&& paused.tab_id == tab
                &&& paused.reason == reason
                &&& paused.at_ms == now_ms
                &&& paused.frames.len() == if frames.len() > FRAMES_CAP {
                    FRAMES_CAP as nat
                } else {
                    frames.len()
                }
                &&& forall|i: int|
                    0 <= i < paused.frames.len() ==> #[trigger] paused.frames[i]
                        == recon::frame_told(frames[i], recon::scripts_of(store, tab))
            }
            &&& after.scripts == store.scripts
            &&& after.console == store.console
            &&& recon::stands_still(after, Some(tab))
            &&& recon::stands_still(after, None)
            &&& forall|other: Seq<char>|
                other != tab ==> !#[trigger] recon::stands_still(after, Some(other))
        }),
        ({
            let after = recon::kept(store, tab, "Debugger.resumed"@, params, stamp, now_ms);
            &&& after.paused is None
            &&& after.paused_tab is None
            &&& after.scripts == store.scripts
            &&& after.console == store.console
            &&& after.breakpoints == store.breakpoints
            &&& !recon::stands_still(after, None)
            &&& !recon::stands_still(after, Some(tab))
        }),
{
    reveal_strlit("Debugger.scriptParsed");
    reveal_strlit("Debugger.paused");
    reveal_strlit("Debugger.resumed");
    assert("Debugger.scriptParsed"@.len() != "Debugger.paused"@.len());
    assert("Debugger.scriptParsed"@.len() != "Debugger.resumed"@.len());
    assert("Debugger.paused"@.len() != "Debugger.resumed"@.len());
}

/// A call of a page that stands still is told with its id, its function and the address of its
/// script, where that is known.
pub proof fn call_is_told(
    frame: JsonView,
    location: JsonView,
    id: Seq<char>,
    name: Seq<char>,
    script_id: Seq<char>,
    line: i64,
    scripts: Seq<ScriptView>,
    at: int,
)
    requires
        says(frame, "callFrameId"@, JsonView::Text(id)),
        says(frame, "functionName"@, JsonView::Text(name)),
        says(frame, "location"@, location),
        says(location, "scriptId"@, JsonView::Text(script_id)),
        line >= 0,
        says(location, "lineNumber"@, JsonView::Number(NumberView::Unsigned(line as u64))),
        0 <= at <= scripts.len(),
        forall|i: int| 0 <= i < at ==> (#[trigger] scripts[i]).script_id != script_id,
        at < scripts.len() ==> scripts[at].script_id == script_id,
    ensures
        ({
            let told = recon::frame_told(frame, scripts);
            &&& told.call_frame_id == id
            &&& name.len() > 0 ==> told.function_name == name
            &&& told.line_number == line
            &&& at < scripts.len() ==> told.url == scripts[at].url
        }),
{
    lemma_script(scripts, script_id, 0);
}

/// A closed tab's scripts and messages are forgotten, those of the other tabs and all breakpoints
/// stay.
pub proof fn closed_tab_is_forgotten(store: ReconView, tab: Seq<char>, other: Seq<char>)
    requires
        other != tab,
    ensures
        ({
            let after = recon::tab_forgotten(store, tab);
            &&& recon::scripts_of(after, tab).len() == 0
            &&& recon::messages_of(after, tab).len() == 0
            &&& recon::scripts_of(after, other) == recon::scripts_of(store, other)
            &&& recon::messages_of(after, other) == recon::messages_of(store, other)
            &&& after.breakpoints == store.breakpoints
            &&& after.counter == store.counter
        }),
        recon::all_forgotten(store).breakpoints.len() == 0,
        recon::scripts_of(recon::all_forgotten(store), other).len() == 0,
        recon::messages_of(recon::all_forgotten(store), other).len() == 0,
        recon::all_forgotten(store).paused is None,
        recon::all_forgotten(store).counter == store.counter,
{
}

/// A breakpoint is added behind the others, and is taken away by its id with the others left in
/// their order.
pub proof fn breakpoint_comes_and_goes(store: ReconView, told: BreakpointView, at: int)
    requires
        0 <= at < store.breakpoints.len(),
        forall|i: int|
            0 <= i < at ==> (#[trigger] store.breakpoints[i]).breakpoint_id
                != store.breakpoints[at].breakpoint_id,
    ensures
        recon::breakpoint_kept(store, told).breakpoints == store.breakpoints + seq![told],
        recon::breakpoint_dropped(store, store.breakpoints[at].breakpoint_id).breakpoints
            == store.breakpoints.take(at) + store.breakpoints.skip(at + 1),
{
    assert(recon::breakpoint_kept(store, told).breakpoints =~= store.breakpoints + seq![told]);
    lemma_breakpoint(store.breakpoints, at, 0);
    assert(store.breakpoints.remove(at) =~= store.breakpoints.take(at) + store.breakpoints.skip(
        at + 1,
    ));
}

proof fn lemma_breakpoint(breakpoints: Seq<BreakpointView>, at: int, from: int)
    requires
        0 <= from <= at < breakpoints.len(),
        forall|i: int|
            from <= i < at ==> (#[trigger] breakpoints[i]).breakpoint_id
                != breakpoints[at].breakpoint_id,
    ensures
        recon::breakpoint_with(breakpoints, breakpoints[at].breakpoint_id, from) == Some(at),
    decreases at - from,
{
    if from < at {
        lemma_breakpoint(breakpoints, at, from + 1);
    }
}

/// The latest messages are asked for: as many of them as are wanted, and no older one before a
/// newer one that is left out.
pub proof fn latest_messages_are_listed(messages: Seq<ConsoleView>, max: nat)
    ensures
        recon::newest(messages, max).len() == if messages.len() < max {
            messages.len()
        } else {
            max
        },
        forall|i: int|
            0 <= i < recon::newest(messages, max).len() ==> #[trigger] recon::newest(messages, max)[i]
                == messages[messages.len() - recon::newest(messages, max).len() + i],
{
}

} // verus!
