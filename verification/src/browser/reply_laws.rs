//! What holds of the answers of a page, and of what a command makes of them.
use vstd::prelude::*;

use crate::browser::bytes;
use crate::browser::command;
use crate::browser::command::{BrowserCommand, OutcomeView};
use crate::browser::engine::{AskView, EffectView, Part, Reply, StageView, TurnView};
use crate::browser::network;
use crate::browser::network::RequestView;
use crate::browser::replies;
use crate::browser::script_laws::says;
use crate::browser::steps;
use crate::browser::steps::Known;
use crate::browser::tab_laws;
use crate::json::JsonView;
use crate::text;
use crate::text_laws;

verus! {

/// A failure is told with its code and its words, and a value as a success.
pub proof fn outcome_is_told(code: Seq<char>, message: Seq<char>, value: JsonView, elapsed_ms: u64)
    ensures
        ({
            let outcome = command::failure(code, message, elapsed_ms);
            &&& !outcome.ok
            &&& outcome.error == Some((code, message))
            &&& outcome.value is None
            &&& outcome.elapsed_ms == elapsed_ms
        }),
        ({
            let outcome = command::value_outcome(value, elapsed_ms);
            &&& outcome.ok
            &&& outcome.error is None
            &&& outcome.value == Some(value)
            &&& outcome.elapsed_ms == elapsed_ms
        }),
        command::dialog_outcome(value, elapsed_ms).dialog == Some(value),
        command::dialog_outcome(value, elapsed_ms).ok,
        command::image_outcome(code, message, elapsed_ms).image == Some((code, message)),
        command::image_outcome(code, message, elapsed_ms).ok,
{
}

/// A page that tells where it is, is known by that: its tab has that address and title.
pub proof fn page_tells_where_it_is(state: JsonView, url: Seq<char>, title: Seq<char>, elapsed_ms: u64)
    requires
        says(state, "url"@, JsonView::Text(url)),
        says(state, "title"@, JsonView::Text(title)),
        url.len() > 0,
    ensures
        replies::has_read(Ok(state), elapsed_ms) matches TurnView::End { outcome, effect } && outcome.ok
            && outcome.state == Some(state) && effect == (EffectView::Landed { url, title }),
        forall|failed: OutcomeView|
            #[trigger] replies::has_read(Err(failed), elapsed_ms) matches TurnView::End {
                outcome,
                effect,
            } && outcome.ok && outcome.state is None && effect == EffectView::Nothing,
{
}

/// A page has come far enough when it can be used or is complete, and has an address.
pub proof fn page_is_ready(value: JsonView, state: Seq<char>, url: Seq<char>)
    requires
        says(value, "state"@, JsonView::Text(state)),
        says(value, "url"@, JsonView::Text(url)),
    ensures
        replies::is_ready(value) == ((state == "complete"@ || state == "interactive"@) && url.len()
            > 0),
{
}

/// A snapshot is handed out as the page gave it, with the tab that it is of.
pub proof fn snapshot_names_its_tab(
    members: Map<Seq<char>, JsonView>,
    on: Seq<char>,
    elapsed_ms: u64,
    key: Seq<char>,
)
    ensures
        replies::snapshot_outcome(JsonView::Object(members), on, elapsed_ms).ok,
        replies::snapshot_outcome(JsonView::Object(members), on, elapsed_ms).snapshot matches Some(
            told,
        ) && says(told, "tabId"@, JsonView::Text(on)) && (members.contains_key(key) && key
            != "tabId"@ ==> says(told, key, members[key])),
{
}

/// A picture is handed out as it came, and an empty one is a failure.
pub proof fn picture_is_handed_out(value: JsonView, data: Seq<char>, elapsed_ms: u64)
    requires
        says(value, "data"@, JsonView::Text(data)),
    ensures
        data.len() > 0 ==> replies::picture_outcome(value, elapsed_ms).ok && replies::picture_outcome(
            value,
            elapsed_ms,
        ).image == Some((data, "image/png"@)),
        data.len() == 0 ==> !replies::picture_outcome(value, elapsed_ms).ok,
{
}

/// What an expression comes to is handed out, read as JSON where it is; what it throws is a failure
/// in its own words.
pub proof fn expression_is_evaluated(
    value: JsonView,
    raw: JsonView,
    data: JsonView,
    why: Seq<char>,
    elapsed_ms: u64,
)
    ensures
        says(value, "ok"@, JsonView::Bool(true)) && says(value, "data"@, raw) ==> {
            &&& replies::evaluated(value, Some(data), elapsed_ms).ok
            &&& replies::evaluated(value, Some(data), elapsed_ms).value == Some(data)
            &&& replies::evaluated(value, None, elapsed_ms).value == Some(raw)
        },
        says(value, "ok"@, JsonView::Bool(false)) && says(value, "message"@, JsonView::Text(why))
            ==> !replies::evaluated(value, Some(data), elapsed_ms).ok && replies::evaluated(
            value,
            Some(data),
            elapsed_ms,
        ).error == Some(("execution_error"@, why)),
{
}

/// A script that did what it should is followed by a look at the page; one that did not fails with
/// its own words.
pub proof fn script_did_what_it_should(
    value: JsonView,
    usual: Seq<char>,
    why: Seq<char>,
    elapsed_ms: u64,
)
    ensures
        says(value, "ok"@, JsonView::Bool(true)) ==> (replies::has_done(value, usual, elapsed_ms)
            matches TurnView::Ask { stage, .. } && stage is Reading),
        says(value, "ok"@, JsonView::Bool(false)) && says(value, "error"@, JsonView::Text(why)) ==> (
        replies::has_done(value, usual, elapsed_ms) matches TurnView::End { outcome, .. }
            && !outcome.ok && outcome.error == Some(("execution_error"@, why))),
{
}

/// A wait for a selector, a text or its going away is over when the page says so.
pub proof fn wait_is_met(value: JsonView, failed: OutcomeView)
    ensures
        replies::is_met(Part::Selector, Ok(value)) <==> says(value, "hit"@, JsonView::Bool(true)),
        replies::is_met(Part::Shown, Ok(value)) <==> says(value, "present"@, JsonView::Bool(true)),
        replies::is_met(Part::Gone, Ok(value)) <==> says(value, "present"@, JsonView::Bool(false)),
        !replies::is_met(Part::Selector, Err(failed)),
        !replies::is_met(Part::Shown, Err(failed)),
        !replies::is_met(Part::Gone, Err(failed)),
{
}

/// A wait that is not met goes on until its time is over, and then fails as one that took too long.
pub proof fn unmet_wait_ends_in_time(
    asked: BrowserCommand,
    part: Part,
    deadline: u64,
    told: Result<JsonView, OutcomeView>,
    now_ms: u64,
    elapsed_ms: u64,
)
    requires
        !replies::is_met(part, told),
    ensures
        now_ms >= deadline ==> (replies::has_waited(asked, part, deadline, told, now_ms, elapsed_ms)
            matches TurnView::End { outcome, .. } && !outcome.ok && outcome.error is Some
            && (outcome.error->0).0 == "timeout"@),
        now_ms < deadline ==> (replies::has_waited(asked, part, deadline, told, now_ms, elapsed_ms)
            matches TurnView::Ask { ask, stage } && ask is Pause && stage == (StageView::WaitRest {
            deadline,
        })),
{
}

/// A wait looks at all that it is to wait for: first the selector, then the text, then the text that
/// is to go. With nothing left it has succeeded.
pub proof fn wait_looks_at_everything(
    tab_id: Option<String>,
    selector: Option<String>,
    shown: Option<String>,
    gone: Option<String>,
    timeout_ms: Option<u64>,
    deadline: u64,
    elapsed_ms: u64,
)
    ensures
        ({
            let asked = BrowserCommand::WaitFor {
                tab_id,
                selector,
                text: shown,
                text_gone: gone,
                timeout_ms,
            };
            let first = steps::waits(asked, Part::Selector, deadline, elapsed_ms);
            let second = steps::waits(asked, Part::Shown, deadline, elapsed_ms);
            let third = steps::waits(asked, Part::Gone, deadline, elapsed_ms);
            let last = steps::waits(asked, Part::Nothing, deadline, elapsed_ms);
            &&& selector is Some ==> (first matches TurnView::Ask { stage, .. } && stage == (
            StageView::Waiting { part: Part::Selector, deadline }))
            &&& selector is None ==> first == second
            &&& shown is Some ==> (second matches TurnView::Ask { stage, .. } && stage == (
            StageView::Waiting { part: Part::Shown, deadline }))
            &&& shown is None ==> second == third
            &&& gone is Some ==> (third matches TurnView::Ask { stage, .. } && stage == (
            StageView::Waiting { part: Part::Gone, deadline }))
            &&& gone is None ==> third == last
            &&& last matches TurnView::End { outcome, .. } && outcome.ok
            &&& replies::next_part(Part::Selector) == Part::Shown
            &&& replies::next_part(Part::Shown) == Part::Gone
            &&& replies::next_part(Part::Gone) == Part::Nothing
        }),
{
}

/// A tab that was opened comes to the front and is told; why none was opened is told too.
pub proof fn opened_tab_is_told(id: String, why: String, elapsed_ms: u64)
    ensures
        replies::has_opened(Reply::Opened(id), elapsed_ms) matches TurnView::End { outcome, effect }
            && outcome.ok && outcome.value is Some && says(
            outcome.value->0,
            "tabId"@,
            JsonView::Text(id@),
        ) && effect == (EffectView::Front { tab: id@ }),
        replies::has_opened(Reply::NotOpened(why), elapsed_ms) matches TurnView::End {
            outcome,
            effect,
        } && !outcome.ok && outcome.error == Some(("cdp_error"@, why@)) && effect
            == EffectView::Nothing,
{
}

/// A page of the web is gone to; any other address is refused, and named.
pub proof fn only_web_pages_are_gone_to(
    url: String,
    tab_id: Option<String>,
    on: Seq<char>,
    known: Known,
    now_ms: u64,
    elapsed_ms: u64,
)
    ensures
        ({
            let turn = steps::first_step(
                BrowserCommand::Navigate { url, tab_id },
                on,
                known,
                now_ms,
                elapsed_ms,
            );
            if url@ == "about:blank"@ || "http:"@.is_prefix_of(url@) || "https:"@.is_prefix_of(url@) {
                turn matches TurnView::Ask { ask: AskView::Call(call), stage } && call.method
                    == "Page.navigate"@ && says(call.params, "url"@, JsonView::Text(url@)) && stage
                    is Navigating
            } else {
                turn matches TurnView::End { outcome, .. } && !outcome.ok && outcome.error is Some
                    && (outcome.error->0).0 == "navigation_blocked"@ && text::has(
                    (outcome.error->0).1,
                    url@,
                )
            }
        }),
{
    tab_laws::web_pages_are_allowed(url@);
    text_laws::part_of_a_text_occurs("Blocked URL: "@, url@, "(仅允许 http/https)"@);
}

/// The latest requests are listed: fifty of them where nothing is wished, and two hundred at most.
pub proof fn requests_are_listed(requests: Seq<RequestView>, filter: Option<Seq<char>>, max: u32)
    ensures
        ({
            let all = network::matching(requests, filter);
            let n: nat = if max < 200 {
                max as nat
            } else {
                200
            };
            &&& all.len() <= n ==> says(
                steps::requests_value(requests, filter, Some(max)),
                "requests"@,
                JsonView::Array(all),
            )
            &&& all.len() > n ==> says(
                steps::requests_value(requests, filter, Some(max)),
                "requests"@,
                JsonView::Array(all.subrange(all.len() - n, all.len() as int)),
            )
            &&& steps::requests_value(requests, filter, None) == steps::requests_value(
                requests,
                filter,
                Some(50),
            )
        }),
{
    reveal_strlit("requests");
    reveal_strlit("count");
    assert("requests"@.len() == 8 && "count"@.len() == 5);
    let all = network::matching(requests, filter);
    let n: nat = if max < 200 {
        max as nat
    } else {
        200
    };
    if all.len() > n {
        assert(all.skip(all.len() - n) =~= all.subrange(all.len() - n, all.len() as int));
    }
}

/// A snapshot holds as many elements as are wished, but one at least and a thousand at most.
pub proof fn snapshot_is_bounded(wished: u32)
    ensures
        1 <= wished <= 1000 ==> steps::snapshot_size(Some(wished)) == wished,
        wished == 0 ==> steps::snapshot_size(Some(wished)) == 1,
        wished > 1000 ==> steps::snapshot_size(Some(wished)) == 1000,
        steps::snapshot_size(None) == 200,
{
}

/// A dialog is settled as the model wants, with its words where it has some.
pub proof fn dialog_is_settled(accept: bool, words: Seq<char>)
    ensures
        says(steps::dialog_params(accept, None), "accept"@, JsonView::Bool(accept)),
        says(steps::dialog_params(accept, Some(words)), "accept"@, JsonView::Bool(accept)),
        says(steps::dialog_params(accept, Some(words)), "promptText"@, JsonView::Text(words)),
        steps::dialog_params(accept, None) matches JsonView::Object(plain) && !plain.contains_key(
            "promptText"@,
        ),
{
    reveal_strlit("accept");
    reveal_strlit("promptText");
    assert("accept"@.len() == 6 && "promptText"@.len() == 10);
}

/// A body that was sent is told, and that there was none is told as a failure.
pub proof fn sent_body_is_told(id: Seq<char>, entry: JsonView, post: Seq<char>, elapsed_ms: u64)
    requires
        says(entry, "postData"@, JsonView::Text(post)),
    ensures
        post.len() == 0 ==> !steps::sent_body(id, entry, elapsed_ms).ok,
        post.len() > 0 ==> steps::sent_body(id, entry, elapsed_ms).ok,
        post.len() > 0 && !bytes::is_longer(post, 60_000) ==> (steps::sent_body(
            id,
            entry,
            elapsed_ms,
        ).value matches Some(value) && says(value, "body"@, JsonView::Text(post)) && says(
            value,
            "requestId"@,
            JsonView::Text(id),
        )),
{
    reveal_strlit("requestId");
    reveal_strlit("kind");
    reveal_strlit("truncated");
    reveal_strlit("body");
    assert("requestId"@.len() == 9 && "kind"@.len() == 4 && "truncated"@.len() == 9 && "body"@.len()
        == 4);
    assert("requestId"@[0] != "truncated"@[0]);
    assert("kind"@[0] != "body"@[0]);
}

} // verus!
