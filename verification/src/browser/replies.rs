//! What a command asks after a reply, or how it ends.
use vstd::prelude::*;
use vstd::string::*;

use crate::browser::acting;
use crate::browser::acting::{
    act, after_centering, after_dragging, after_locating, after_naming, after_pasting, after_pointing,
    after_refreshing, after_repointing, after_resting,
};
use crate::browser::command;
use crate::browser::command::{BrowserCommand, CommandOutcome, ImagePayload, OutcomeView};
use crate::browser::engine;
use crate::browser::engine::{
    end, later, make, read, read_value, run, wait_time, Ask, Effect, EffectView, Part, Reply, Stage,
    StageView, Turn, TurnView, NAVIGATE_SETTLE_MS, SETTLE_POLL_MS, WAIT_POLL_MS,
};
use crate::browser::scripts;
use crate::browser::scripts::READY_SCRIPT;
use crate::browser::steps;
use crate::browser::steps::{is_true, member_text, tell_got, tell_size, wait_on};
use crate::json;
use crate::json::{object_of, parse, Json, JsonView};
use crate::text;
use crate::text::{cat3, decimal_text, str_eq};

verus! {

/// A page told where it is, or could not.
pub open spec fn has_read(told: Result<JsonView, OutcomeView>, elapsed_ms: u64) -> TurnView {
    match told {
        Ok(state) => TurnView::End {
            outcome: OutcomeView { state: Some(state), ..steps::plain(elapsed_ms) },
            effect: {
                let url = json::text_or(state, "url"@, Seq::empty());
                if url.len() > 0 {
                    EffectView::Landed { url, title: json::text_or(state, "title"@, Seq::empty()) }
                } else {
                    EffectView::Nothing
                }
            },
        },
        Err(_) => engine::ends(steps::plain(elapsed_ms)),
    }
}

fn after_reading(told: Result<Json, CommandOutcome>, elapsed_ms: u64) -> (turn: Turn)
    ensures
        turn@ == has_read(
            match told {
                Ok(state) => Ok(state@),
                Err(outcome) => Err(outcome@),
            },
            elapsed_ms,
        ),
{
    match told {
        Ok(state) => {
            let url = member_text(&state, "url");
            let title = member_text(&state, "title");
            let mut outcome = CommandOutcome::ok_value(Json::Null, elapsed_ms);
            outcome.state = Some(state);
            let effect = if url.as_str().is_empty() {
                Effect::Nothing
            } else {
                Effect::Landed { url, title }
            };
            Turn::End { outcome, effect }
        },
        Err(_) => end(CommandOutcome::ok_value(Json::Null, elapsed_ms)),
    }
}

/// Whether a page that was gone to has come far enough.
pub open spec fn is_ready(value: JsonView) -> bool {
    let state = json::text_or(value, "state"@, Seq::empty());
    (state == "complete"@ || state == "interactive"@) && json::text_or(
        value,
        "url"@,
        Seq::empty(),
    ).len() > 0
}

fn ready(value: &Json) -> (yes: bool)
    ensures
        yes == is_ready(value@),
{
    let state = member_text(value, "state");
    let landed = member_text(value, "url");
    (str_eq(state.as_str(), "complete") || str_eq(state.as_str(), "interactive"))
        && !landed.as_str().is_empty()
}

/// A page that was gone to is looked at.
pub open spec fn settles(deadline: u64) -> TurnView {
    engine::runs(READY_SCRIPT@, StageView::Settling { deadline })
}

fn settle(deadline: u64) -> (turn: Turn)
    ensures
        turn@ == settles(deadline),
{
    run(READY_SCRIPT.to_owned(), Stage::Settling { deadline })
}

/// The outcome of a snapshot, which names its tab.
pub open spec fn snapshot_outcome(value: JsonView, on: Seq<char>, elapsed_ms: u64) -> OutcomeView {
    OutcomeView {
        snapshot: Some(
            match value {
                JsonView::Object(members) => JsonView::Object(
                    members.insert("tabId"@, JsonView::Text(on)),
                ),
                _ => value,
            },
        ),
        ..steps::plain(elapsed_ms)
    }
}

fn tell_snapshot(value: Json, on: &str, elapsed_ms: u64) -> (outcome: CommandOutcome)
    ensures
        outcome@ == snapshot_outcome(value@, on@, elapsed_ms),
{
    let mut value = value;
    let is_object = match &value {
        Json::Object(_) => true,
        _ => false,
    };
    if is_object {
        value.insert("tabId", Json::text(on));
    }
    let mut outcome = CommandOutcome::ok_value(Json::Null, elapsed_ms);
    outcome.snapshot = Some(value);
    outcome
}

/// The outcome of a picture.
pub open spec fn picture_outcome(value: JsonView, elapsed_ms: u64) -> OutcomeView {
    let data = json::text_or(value, "data"@, Seq::empty());
    if data.len() == 0 {
        command::failure("execution_error"@, "screenshot returned empty data"@, elapsed_ms)
    } else {
        OutcomeView { image: Some((data, "image/png"@)), ..steps::plain(elapsed_ms) }
    }
}

fn tell_picture(value: &Json, elapsed_ms: u64) -> (outcome: CommandOutcome)
    ensures
        outcome@ == picture_outcome(value@, elapsed_ms),
{
    let data = member_text(value, "data");
    if data.as_str().is_empty() {
        CommandOutcome::err("execution_error", "screenshot returned empty data", elapsed_ms)
    } else {
        let mut outcome = CommandOutcome::ok_value(Json::Null, elapsed_ms);
        outcome.image = Some(ImagePayload { base64: data, mime_type: "image/png".to_owned() });
        outcome
    }
}

/// The text that an expression came to, which may be JSON.
pub open spec fn data_text(value: JsonView) -> Seq<char> {
    match json::member_text(value, "data"@) {
        Some(data) => data,
        None => "null"@,
    }
}

/// The outcome of an expression, given how the text that it came to reads as JSON.
pub open spec fn evaluated(value: JsonView, data: Option<JsonView>, elapsed_ms: u64) -> OutcomeView {
    if json::member_bool(value, "ok"@) != Some(true) {
        command::failure(
            "execution_error"@,
            json::text_or(value, "message"@, "evaluate error"@),
            elapsed_ms,
        )
    } else {
        command::value_outcome(
            match json::member(value, "data"@) {
                Some(raw) => match data {
                    Some(data) => data,
                    None => raw,
                },
                None => JsonView::Null,
            },
            elapsed_ms,
        )
    }
}

/// The outcome of an expression, given how the text that it came to reads as JSON.
pub fn tell_evaluated(value: &Json, data: Option<Json>, elapsed_ms: u64) -> (outcome: CommandOutcome)
    ensures
        outcome@ == evaluated(value@, command::json_view(data), elapsed_ms),
{
    if !is_true(value, "ok") {
        let why = value.str_or("message", "evaluate error");
        return CommandOutcome::err("execution_error", why.as_str(), elapsed_ms);
    }
    let told = match value.get("data") {
        Some(raw) => match data {
            Some(data) => data,
            None => raw.clone(),
        },
        None => Json::Null,
    };
    CommandOutcome::ok_value(told, elapsed_ms)
}

fn after_evaluating(value: &Json, elapsed_ms: u64) -> (turn: Turn)
    ensures
        turn@ == engine::ends(evaluated(value@, json::parsed(data_text(value@)), elapsed_ms)),
{
    let data = match value.get_str("data") {
        Some(data) => parse(data),
        None => parse("null"),
    };
    end(tell_evaluated(value, data, elapsed_ms))
}

/// A script that does something told whether it did.
pub open spec fn has_done(value: JsonView, usual: Seq<char>, elapsed_ms: u64) -> TurnView {
    if json::member_bool(value, "ok"@) == Some(true) {
        engine::reads()
    } else {
        engine::ends(
            command::failure(
                "execution_error"@,
                json::text_or(value, "error"@, usual),
                elapsed_ms,
            ),
        )
    }
}

fn after_doing(value: &Json, usual: &str, elapsed_ms: u64) -> (turn: Turn)
    ensures
        turn@ == has_done(value@, usual@, elapsed_ms),
{
    if is_true(value, "ok") {
        read()
    } else {
        let why = value.str_or("error", usual);
        end(CommandOutcome::err("execution_error", why.as_str(), elapsed_ms))
    }
}

/// Whether what a wait looked at is as it should be.
pub open spec fn is_met(part: Part, told: Result<JsonView, OutcomeView>) -> bool {
    match told {
        Ok(value) => match part {
            Part::Selector => json::member_bool(value, "hit"@) == Some(true),
            Part::Shown => json::member_bool(value, "present"@) == Some(true),
            Part::Gone => json::member_bool(value, "present"@) == Some(false),
            Part::Nothing => true,
        },
        Err(_) => part == Part::Nothing,
    }
}

/// What a wait looks at next.
pub open spec fn next_part(part: Part) -> Part {
    match part {
        Part::Selector => Part::Shown,
        Part::Shown => Part::Gone,
        Part::Gone => Part::Nothing,
        Part::Nothing => Part::Nothing,
    }
}

/// How long a wait waits.
pub open spec fn wait_limit(asked: BrowserCommand) -> u64 {
    match asked {
        BrowserCommand::WaitFor { timeout_ms, .. } => engine::wait_budget(timeout_ms),
        _ => engine::wait_budget(None),
    }
}

/// A wait has looked at something. It goes on once that is as it should be, and gives up when its
/// time is over.
pub open spec fn has_waited(
    asked: BrowserCommand,
    part: Part,
    deadline: u64,
    told: Result<JsonView, OutcomeView>,
    now_ms: u64,
    elapsed_ms: u64,
) -> TurnView {
    if is_met(part, told) {
        steps::waits(asked, next_part(part), deadline, elapsed_ms)
    } else if now_ms >= deadline {
        engine::ends(
            command::failure(
                "timeout"@,
                "等待条件超时("@ + text::decimal(wait_limit(asked) as nat) + "ms)"@,
                elapsed_ms,
            ),
        )
    } else {
        engine::rests(WAIT_POLL_MS, StageView::WaitRest { deadline })
    }
}

fn met(part: Part, told: &Result<Json, CommandOutcome>) -> (yes: bool)
    ensures
        yes == is_met(
            part,
            match *told {
                Ok(value) => Ok(value@),
                Err(outcome) => Err(outcome@),
            },
        ),
{
    match told {
        Ok(value) => match part {
            Part::Selector => is_true(value, "hit"),
            Part::Shown => is_true(value, "present"),
            Part::Gone => match value.get_bool("present") {
                Some(present) => !present,
                None => false,
            },
            Part::Nothing => true,
        },
        Err(_) => match part {
            Part::Nothing => true,
            _ => false,
        },
    }
}

fn after_waiting(
    asked: &BrowserCommand,
    part: Part,
    deadline: u64,
    told: Result<Json, CommandOutcome>,
    now_ms: u64,
    elapsed_ms: u64,
) -> (turn: Turn)
    ensures
        turn@ == has_waited(
            *asked,
            part,
            deadline,
            match told {
                Ok(value) => Ok(value@),
                Err(outcome) => Err(outcome@),
            },
            now_ms,
            elapsed_ms,
        ),
{
    if met(part, &told) {
        let next = match part {
            Part::Selector => Part::Shown,
            Part::Shown => Part::Gone,
            Part::Gone => Part::Nothing,
            Part::Nothing => Part::Nothing,
        };
        return wait_on(asked, next, deadline, elapsed_ms);
    }
    if now_ms >= deadline {
        let limit = match asked {
            BrowserCommand::WaitFor { timeout_ms, .. } => wait_time(*timeout_ms),
            _ => wait_time(None),
        };
        let why = cat3("等待条件超时(", decimal_text(limit).as_str(), "ms)");
        return end(CommandOutcome::err("timeout", why.as_str(), elapsed_ms));
    }
    Turn::Ask { ask: Ask::Pause { ms: WAIT_POLL_MS }, stage: Stage::WaitRest { deadline } }
}

/// The outcome that a flag tells.
pub open spec fn flagged(key: Seq<char>, flag: bool, elapsed_ms: u64) -> OutcomeView {
    command::value_outcome(steps::flag_value(key, flag), elapsed_ms)
}

fn tell_flag(key: &str, flag: bool, elapsed_ms: u64) -> (outcome: CommandOutcome)
    ensures
        outcome@ == flagged(key@, flag, elapsed_ms),
{
    CommandOutcome::ok_value(object_of(key, Json::Bool(flag)), elapsed_ms)
}

/// A tab was opened, or was not.
pub open spec fn has_opened(reply: Reply, elapsed_ms: u64) -> TurnView {
    match reply {
        Reply::Opened(id) => TurnView::End {
            outcome: command::value_outcome(
                JsonView::Object(map!["tabId"@ => JsonView::Text(id@)]),
                elapsed_ms,
            ),
            effect: EffectView::Front { tab: id@ },
        },
        Reply::NotOpened(why) => engine::ends(
            command::failure("cdp_error"@, why@, elapsed_ms),
        ),
        Reply::Failed(outcome) => engine::ends(outcome@),
        _ => engine::ends(steps::plain(elapsed_ms)),
    }
}

fn after_opening(reply: Reply, elapsed_ms: u64) -> (turn: Turn)
    ensures
        turn@ == has_opened(reply, elapsed_ms),
{
    match reply {
        Reply::Opened(id) => {
            let value = object_of("tabId", Json::Text(id.clone()));
            Turn::End {
                outcome: CommandOutcome::ok_value(value, elapsed_ms),
                effect: Effect::Front { tab: id },
            }
        },
        Reply::NotOpened(why) => end(CommandOutcome::err("cdp_error", why.as_str(), elapsed_ms)),
        Reply::Failed(outcome) => end(outcome),
        _ => end(CommandOutcome::ok_value(Json::Null, elapsed_ms)),
    }
}

/// The locator of a click.
pub open spec fn click_locator(asked: BrowserCommand) -> Option<Seq<char>> {
    match asked {
        BrowserCommand::Click { locator, .. } => text::opt_view(locator),
        _ => None,
    }
}

/// What a command goes on with, where a call or a script came to something.
pub open spec fn goes_on(
    asked: BrowserCommand,
    on: Seq<char>,
    stage: StageView,
    value: JsonView,
    now_ms: u64,
    elapsed_ms: u64,
) -> TurnView {
    match stage {
        StageView::Locating => match click_locator(asked) {
            Some(locator) => acting::located(locator, value),
            None => engine::reads(),
        },
        StageView::Naming { aim } => acting::named(aim, value),
        StageView::Centering { aim } => acting::centered(asked, aim, value),
        StageView::Pointing { aim } => acting::pointed(asked, aim, value, now_ms),
        StageView::Repointing { aim, deadline } => acting::repointed(
            asked,
            aim,
            deadline,
            value,
            now_ms,
        ),
        StageView::Acting { left, paste } => acting::acts(asked, left, paste),
        StageView::Pasting => acting::has_pasted(value),
        StageView::Navigating => settles(engine::after(now_ms, NAVIGATE_SETTLE_MS)),
        StageView::Snapshotting => engine::ends(snapshot_outcome(value, on, elapsed_ms)),
        StageView::Shooting => engine::ends(picture_outcome(value, elapsed_ms)),
        StageView::Probing => engine::ends(command::value_outcome(value, elapsed_ms)),
        StageView::Evaluating => engine::ends(
            evaluated(value, json::parsed(data_text(value)), elapsed_ms),
        ),
        StageView::Choosing => has_done(value, "select failed"@, elapsed_ms),
        StageView::Checking => has_done(value, "check failed"@, elapsed_ms),
        StageView::Dialog => TurnView::End {
            outcome: flagged("handled"@, true, elapsed_ms),
            effect: EffectView::DialogGone { told: true },
        },
        StageView::Sizing => match asked {
            BrowserCommand::ViewportSet { width, height, .. } => TurnView::End {
                outcome: command::value_outcome(steps::size_value(width, height), elapsed_ms),
                effect: EffectView::Sized { size: Some((width, height)) },
            },
            _ => engine::reads(),
        },
        StageView::Body { mime } => match asked {
            BrowserCommand::NetworkGetBody { request_id, .. } => engine::ends(
                steps::got_body(request_id@, mime, value, elapsed_ms),
            ),
            _ => engine::reads(),
        },
        _ => engine::reads(),
    }
}

/// What a command asks after a reply, or how it ends. Most commands end with the failure of the first
/// thing that fails.
pub open spec fn step(
    asked: BrowserCommand,
    on: Seq<char>,
    stage: StageView,
    reply: Reply,
    now_ms: u64,
    elapsed_ms: u64,
) -> TurnView {
    let told = engine::value_of(reply);
    match stage {
        StageView::Refreshing { aim, deadline } => engine::runs(
            scripts::center_script(aim.reference),
            StageView::Repointing { aim, deadline },
        ),
        StageView::Resting { aim, deadline } => acting::refreshes(aim, deadline),
        StageView::Dragging { from, to } => acting::dragged(asked, from, to, reply),
        StageView::Reading => has_read(told, elapsed_ms),
        StageView::Settling { deadline } => if told matches Ok(value) && is_ready(value) {
            engine::reads()
        } else {
            engine::rests(SETTLE_POLL_MS, StageView::SettleRest { deadline })
        },
        StageView::SettleRest { deadline } => if now_ms >= deadline {
            engine::reads()
        } else {
            settles(deadline)
        },
        StageView::Back => if told is Err {
            engine::makes(
                "Page.navigateToHistoryEntry"@,
                JsonView::Object(Map::empty()),
                StageView::Moving,
            )
        } else {
            engine::reads()
        },
        StageView::Moving => engine::reads(),
        StageView::Waiting { part, deadline } => has_waited(
            asked,
            part,
            deadline,
            told,
            now_ms,
            elapsed_ms,
        ),
        StageView::WaitRest { deadline } => steps::waits(
            asked,
            Part::Selector,
            deadline,
            elapsed_ms,
        ),
        StageView::Opening => has_opened(reply, elapsed_ms),
        StageView::Shutting => engine::ends(flagged("closed"@, true, elapsed_ms)),
        StageView::Fronting => TurnView::End {
            outcome: flagged("activated"@, true, elapsed_ms),
            effect: EffectView::Front { tab: on },
        },
        StageView::Unsizing => TurnView::End {
            outcome: flagged("reset"@, true, elapsed_ms),
            effect: EffectView::Sized { size: None },
        },
        StageView::Streaming => engine::ends(
            flagged("streaming"@, asked is StartScreencast, elapsed_ms),
        ),
        _ => match told {
            Ok(value) => goes_on(asked, on, stage, value, now_ms, elapsed_ms),
            Err(outcome) => if stage is Dialog {
                TurnView::End { outcome, effect: EffectView::DialogGone { told: false } }
            } else {
                engine::ends(outcome)
            },
        },
    }
}

/// Whether what a command shows of what came back can be cut.
pub open spec fn got_fits(stage: StageView, reply: Reply) -> bool {
    stage is Body ==> (engine::value_of(reply) matches Ok(value) ==> steps::can_cut(
        json::text_or(value, "body"@, Seq::empty()),
    ))
}

fn go_on(
    asked: &BrowserCommand,
    on: &str,
    stage: Stage,
    value: Json,
    now_ms: u64,
    elapsed_ms: u64,
) -> (turn: Turn)
    requires
        stage@ is Body ==> steps::can_cut(json::text_or(value@, "body"@, Seq::empty())),
    ensures
        turn@ == goes_on(*asked, on@, stage@, value@, now_ms, elapsed_ms),
{
    match stage {
        Stage::Locating => {
            let has_locator = match asked {
                BrowserCommand::Click { locator, .. } => locator.is_some(),
                _ => false,
            };
            if has_locator {
                after_locating(asked, &value)
            } else {
                read()
            }
        },
        Stage::Naming { aim } => after_naming(aim, &value),
        Stage::Centering { aim } => after_centering(asked, aim, &value),
        Stage::Pointing { aim } => after_pointing(asked, aim, &value, now_ms),
        Stage::Repointing { aim, deadline } => after_repointing(
            asked,
            aim,
            deadline,
            &value,
            now_ms,
        ),
        Stage::Acting { left, paste } => act(asked, left, paste),
        Stage::Pasting => after_pasting(&value),
        Stage::Navigating => settle(later(now_ms, NAVIGATE_SETTLE_MS)),
        Stage::Snapshotting => end(tell_snapshot(value, on, elapsed_ms)),
        Stage::Shooting => end(tell_picture(&value, elapsed_ms)),
        Stage::Probing => end(CommandOutcome::ok_value(value, elapsed_ms)),
        Stage::Evaluating => after_evaluating(&value, elapsed_ms),
        Stage::Choosing => after_doing(&value, "select failed", elapsed_ms),
        Stage::Checking => after_doing(&value, "check failed", elapsed_ms),
        Stage::Dialog => Turn::End {
            outcome: tell_flag("handled", true, elapsed_ms),
            effect: Effect::DialogGone { told: true },
        },
        Stage::Sizing => match asked {
            BrowserCommand::ViewportSet { width, height, .. } => Turn::End {
                outcome: CommandOutcome::ok_value(tell_size(*width, *height), elapsed_ms),
                effect: Effect::Sized { size: Some((*width, *height)) },
            },
            _ => read(),
        },
        Stage::Body { mime } => match asked {
            BrowserCommand::NetworkGetBody { request_id, .. } => end(
                tell_got(request_id.as_str(), mime.as_str(), &value, elapsed_ms),
            ),
            _ => read(),
        },
        _ => read(),
    }
}

/// What a command asks after a reply, or how it ends.
pub fn advance(
    asked: &BrowserCommand,
    on: &str,
    stage: Stage,
    reply: Reply,
    now_ms: u64,
    elapsed_ms: u64,
) -> (turn: Turn)
    requires
        got_fits(stage@, reply),
    ensures
        turn@ == step(*asked, on@, stage@, reply, now_ms, elapsed_ms),
{
    match stage {
        Stage::Refreshing { aim, deadline } => after_refreshing(aim, deadline),
        Stage::Resting { aim, deadline } => after_resting(aim, deadline),
        Stage::Dragging { from, to } => after_dragging(asked, from, to, reply),
        Stage::Reading => after_reading(read_value(reply), elapsed_ms),
        Stage::Settling { deadline } => {
            let done = match read_value(reply) {
                Ok(value) => ready(&value),
                Err(_) => false,
            };
            if done {
                read()
            } else {
                Turn::Ask {
                    ask: Ask::Pause { ms: SETTLE_POLL_MS },
                    stage: Stage::SettleRest { deadline },
                }
            }
        },
        Stage::SettleRest { deadline } => if now_ms >= deadline {
            read()
        } else {
            settle(deadline)
        },
        Stage::Back => match read_value(reply) {
            Ok(_) => read(),
            Err(_) => make("Page.navigateToHistoryEntry", json::object(), Stage::Moving),
        },
        Stage::Moving => read(),
        Stage::Waiting { part, deadline } => after_waiting(
            asked,
            part,
            deadline,
            read_value(reply),
            now_ms,
            elapsed_ms,
        ),
        Stage::WaitRest { deadline } => wait_on(asked, Part::Selector, deadline, elapsed_ms),
        Stage::Opening => after_opening(reply, elapsed_ms),
        Stage::Shutting => end(tell_flag("closed", true, elapsed_ms)),
        Stage::Fronting => Turn::End {
            outcome: tell_flag("activated", true, elapsed_ms),
            effect: Effect::Front { tab: on.to_owned() },
        },
        Stage::Unsizing => Turn::End {
            outcome: tell_flag("reset", true, elapsed_ms),
            effect: Effect::Sized { size: None },
        },
        Stage::Streaming => {
            let streams = match asked {
                BrowserCommand::StartScreencast { .. } => true,
                _ => false,
            };
            end(tell_flag("streaming", streams, elapsed_ms))
        },
        stage => match read_value(reply) {
            Ok(value) => go_on(asked, on, stage, value, now_ms, elapsed_ms),
            Err(outcome) => {
                let settles_dialog = match &stage {
                    Stage::Dialog => true,
                    _ => false,
                };
                if settles_dialog {
                    Turn::End { outcome, effect: Effect::DialogGone { told: false } }
                } else {
                    end(outcome)
                }
            },
        },
    }
}

/// The moment until which a command looks for an element, or waits.
pub open spec fn deadline_of(stage: StageView) -> Option<u64> {
    match stage {
        StageView::Refreshing { deadline, .. } => Some(deadline),
        StageView::Repointing { deadline, .. } => Some(deadline),
        StageView::Resting { deadline, .. } => Some(deadline),
        StageView::Settling { deadline } => Some(deadline),
        StageView::SettleRest { deadline } => Some(deadline),
        StageView::Waiting { deadline, .. } => Some(deadline),
        StageView::WaitRest { deadline } => Some(deadline),
        _ => None,
    }
}

/// A deadline is not moved: while a command looks for the same element, or waits for the same thing,
/// it does so until the moment that was set at first. Only the end of a drag, which comes after its
/// start, gets a time of its own.
pub proof fn deadline_is_kept(
    asked: BrowserCommand,
    on: Seq<char>,
    stage: StageView,
    reply: Reply,
    now_ms: u64,
    elapsed_ms: u64,
)
    requires
        deadline_of(stage) is Some,
        !(asked is Drag),
    ensures
        match step(asked, on, stage, reply, now_ms, elapsed_ms) {
            TurnView::Ask { stage: next, .. } => deadline_of(next) is Some ==> deadline_of(next)
                == deadline_of(stage),
            TurnView::End { .. } => true,
        },
{
}

/// Whatever a page replies, a command that looks for an element or waits does not pause once its time
/// is over.
pub proof fn late_command_does_not_pause(
    asked: BrowserCommand,
    on: Seq<char>,
    stage: StageView,
    reply: Reply,
    now_ms: u64,
    elapsed_ms: u64,
)
    requires
        stage is Repointing || stage is Waiting,
        deadline_of(stage)->0 <= now_ms,
    ensures
        step(asked, on, stage, reply, now_ms, elapsed_ms) matches TurnView::Ask { ask, .. }
            ==> !(ask is Pause),
{
}

/// No page outside the web is gone to.
pub proof fn only_allowed_addresses_are_gone_to(
    asked: BrowserCommand,
    on: Seq<char>,
    known: steps::Known,
    now_ms: u64,
    elapsed_ms: u64,
)
    requires
        asked is Navigate,
    ensures
        steps::first_step(asked, on, known, now_ms, elapsed_ms) is Ask <==> engine::is_allowed(
            asked->Navigate_url@,
        ),
{
}

} // verus!
