//! How a command finds the place that it acts on, and acts there.
use vstd::prelude::*;
use vstd::string::*;

use crate::browser::calls;
use crate::browser::calls::{
    click_calls, copy_number, drag_calls, hover_call, press_calls, select_all_calls, wheel_call, Call,
    CallView, Spot, SpotView,
};
use crate::browser::command;
use crate::browser::command::{BrowserCommand, CommandOutcome, Measure, OutcomeView, Point};
use crate::browser::engine;
use crate::browser::engine::{
    end, later, read, run, starts_with_ref_prefix, Aim, AimView, Ask, AskView, Reply, Stage,
    StageView, Turn, TurnView, REFRESH_WINDOW_MS, SNAPSHOT_DOM_MAX, WAIT_POLL_MS,
};
use crate::browser::scripts;
use crate::browser::scripts::{locate_js, paste_text_js, resolve_ref_center_js, snapshot_js};
use crate::json;
use crate::json::{print_float, Json, JsonNumber, JsonView, NumberView};
use crate::text;
use crate::text::{cat2, cat5, decimal_text, signed_text};

verus! {

/// How many elements the snapshot holds that is taken when an element has gone.
pub const REFRESH_MAX: u32 = 300;

/// The text that a command pastes.
pub open spec fn pasted(asked: BrowserCommand) -> Seq<char> {
    match asked {
        BrowserCommand::Fill { value, .. } => value@,
        BrowserCommand::Type { text, .. } => text@,
        _ => Seq::empty(),
    }
}

/// The calls that are left are made; then a text is pasted if it is asked for, and the page is asked
/// where it is.
pub open spec fn acts(asked: BrowserCommand, left: Seq<CallView>, paste: bool) -> TurnView {
    if left.len() > 0 {
        TurnView::Ask {
            ask: AskView::Call(left[0]),
            stage: StageView::Acting { left: left.drop_first(), paste },
        }
    } else if paste {
        engine::runs(scripts::paste_script(pasted(asked)), StageView::Pasting)
    } else {
        engine::reads()
    }
}

pub(crate) fn act(asked: &BrowserCommand, left: Vec<Call>, paste: bool) -> (turn: Turn)
    ensures
        turn@ == acts(*asked, calls::call_views(left@), paste),
{
    let mut left = left;
    if left.len() > 0 {
        let ghost all = calls::call_views(left@);
        let first = left.remove(0);
        assert(calls::call_views(left@) =~= all.drop_first());
        Turn::Ask { ask: Ask::Call(first), stage: Stage::Acting { left, paste } }
    } else if paste {
        let script = match asked {
            BrowserCommand::Fill { value, .. } => paste_text_js(value.as_str()),
            BrowserCommand::Type { text, .. } => paste_text_js(text.as_str()),
            _ => paste_text_js(""),
        };
        proof {
            reveal_strlit("");
            assert(""@ =~= Seq::empty());
        }
        run(script, Stage::Pasting)
    } else {
        read()
    }
}

/// The button that a click uses.
pub open spec fn click_button(button: Option<Seq<char>>) -> Seq<char> {
    match button {
        Some(button) => button,
        None => "left"@,
    }
}

/// How far the wheel turns: one step down, where nothing is said.
pub open spec fn turn_of(wished: Option<Measure>, usual: Seq<char>) -> NumberView {
    match wished {
        Some(wished) => wished@.value,
        None => NumberView::Float(usual),
    }
}

fn wheel_turn(wished: &Option<Measure>, usual: &str) -> (number: JsonNumber)
    ensures
        number@ == turn_of(*wished, usual@),
{
    match wished {
        Some(wished) => copy_number(&wished.value),
        None => JsonNumber::Float(usual.to_owned()),
    }
}

/// What a command does at the place that it found, and whether it pastes a text then.
pub open spec fn deeds(asked: BrowserCommand, spot: SpotView) -> (Seq<CallView>, bool) {
    match asked {
        BrowserCommand::Click { button, double_click, .. } => (
            calls::click(
                spot,
                click_button(text::opt_view(button)),
                if double_click == Some(true) {
                    2
                } else {
                    1
                },
            ),
            false,
        ),
        BrowserCommand::Fill { .. } => (
            calls::click(spot, "left"@, 1) + calls::select_all(),
            true,
        ),
        BrowserCommand::Type { .. } => (calls::click(spot, "left"@, 1), true),
        BrowserCommand::Press { key, .. } => (
            calls::click(spot, "left"@, 1) + calls::press(key@),
            false,
        ),
        BrowserCommand::Scroll { delta_x, delta_y, .. } => (
            seq![calls::wheel(spot, turn_of(delta_x, "0.0"@), turn_of(delta_y, "360.0"@))],
            false,
        ),
        BrowserCommand::Hover { .. } => (seq![calls::hover(spot)], false),
        _ => (Seq::empty(), false),
    }
}

fn joined(first: Vec<Call>, second: Vec<Call>) -> (both: Vec<Call>)
    ensures
        calls::call_views(both@) == calls::call_views(first@) + calls::call_views(second@),
{
    let mut both = first;
    let mut second = second;
    let ghost (a, b) = (both@, second@);
    both.append(&mut second);
    assert(calls::call_views(both@) =~= calls::call_views(a) + calls::call_views(b));
    both
}

fn one_call(call: Call) -> (calls: Vec<Call>)
    ensures
        calls::call_views(calls@) == seq![call@],
{
    let mut calls: Vec<Call> = Vec::new();
    calls.push(call);
    assert(calls::call_views(calls@) =~= seq![call@]);
    calls
}

fn list_deeds(asked: &BrowserCommand, spot: &Spot) -> (done: (Vec<Call>, bool))
    ensures
        calls::call_views(done.0@) == deeds(*asked, spot@).0,
        done.1 == deeds(*asked, spot@).1,
{
    match asked {
        BrowserCommand::Click { button, double_click, .. } => {
            let double = match double_click {
                Some(double) => *double,
                None => false,
            };
            let count: u64 = if double {
                2
            } else {
                1
            };
            let calls = match button {
                Some(button) => click_calls(spot, button.as_str(), count),
                None => click_calls(spot, "left", count),
            };
            (calls, false)
        },
        BrowserCommand::Fill { .. } => (
            joined(click_calls(spot, "left", 1), select_all_calls()),
            true,
        ),
        BrowserCommand::Type { .. } => (click_calls(spot, "left", 1), true),
        BrowserCommand::Press { key, .. } => (
            joined(click_calls(spot, "left", 1), press_calls(key.as_str())),
            false,
        ),
        BrowserCommand::Scroll { delta_x, delta_y, .. } => {
            let call = wheel_call(spot, wheel_turn(delta_x, "0.0"), wheel_turn(delta_y, "360.0"));
            (one_call(call), false)
        },
        BrowserCommand::Hover { .. } => (one_call(hover_call(spot)), false),
        _ => {
            let none: Vec<Call> = Vec::new();
            assert(calls::call_views(none@) =~= Seq::empty());
            (none, false)
        },
    }
}

/// An element is looked for: by the reference that a snapshot gave it, or else by a locator.
pub open spec fn aims(reference: Seq<char>, from: Option<SpotView>) -> TurnView {
    let aim = AimView { reference, from };
    if engine::is_ref(reference) {
        engine::runs(scripts::center_script(reference), StageView::Pointing { aim })
    } else {
        engine::runs(scripts::locate_script(reference), StageView::Naming { aim })
    }
}

fn aim_at(reference: String, from: Option<Spot>) -> (turn: Turn)
    ensures
        turn@ == aims(reference@, engine::spot_view(from)),
{
    if starts_with_ref_prefix(reference.as_str()) {
        let script = resolve_ref_center_js(reference.as_str());
        run(script, Stage::Pointing { aim: Aim { reference, from } })
    } else {
        let script = locate_js(reference.as_str());
        run(script, Stage::Naming { aim: Aim { reference, from } })
    }
}

/// The place that two numbers name, if both are there.
pub open spec fn place(x: Option<Measure>, y: Option<Measure>) -> Option<SpotView> {
    match (x, y) {
        (Some(x), Some(y)) => Some(SpotView { x: x@.value, y: y@.value }),
        _ => None,
    }
}

/// The place that a point is, if there is one.
pub open spec fn point_place(point: Option<Point>) -> Option<SpotView> {
    match point {
        Some(point) => Some(SpotView { x: point.x@.value, y: point.y@.value }),
        None => None,
    }
}

fn spot_at(x: &Option<Measure>, y: &Option<Measure>) -> (spot: Option<Spot>)
    ensures
        engine::spot_view(spot) == place(*x, *y),
{
    match (x, y) {
        (Some(x), Some(y)) => Some(Spot::at(x, y)),
        _ => None,
    }
}

fn point_spot(point: &Option<Point>) -> (spot: Option<Spot>)
    ensures
        engine::spot_view(spot) == point_place(*point),
{
    match point {
        Some(point) => Some(Spot::at(&point.x, &point.y)),
        None => None,
    }
}

/// The outcome of a command that says no place.
pub open spec fn no_place() -> OutcomeView {
    command::failure("bad_arguments"@, "需要 ref 或 x/y 坐标"@, 0)
}

/// A drag has both its ends: the places between them are asked for.
pub open spec fn drags(from: SpotView, to: SpotView) -> TurnView {
    TurnView::Ask {
        ask: AskView::Between { from, to },
        stage: StageView::Dragging { from, to },
    }
}

fn drag(from: Spot, to: Spot) -> (turn: Turn)
    ensures
        turn@ == drags(from@, to@),
{
    let ask = Ask::Between { from: from.clone(), to: to.clone() };
    Turn::Ask { ask, stage: Stage::Dragging { from, to } }
}

/// A drag has its start, and looks for its end.
pub open spec fn seeks_end(to_ref: Option<Seq<char>>, to: Option<SpotView>, from: SpotView) -> TurnView {
    match to_ref {
        Some(reference) => aims(reference, Some(from)),
        None => match to {
            Some(to) => drags(from, to),
            None => engine::ends(no_place()),
        },
    }
}

/// A command has found a place. A drag whose start this is looks for its end.
pub open spec fn found(asked: BrowserCommand, spot: SpotView, from: Option<SpotView>) -> TurnView {
    match asked {
        BrowserCommand::Drag { to_ref, to, .. } => match from {
            Some(from) => drags(from, spot),
            None => seeks_end(text::opt_view(to_ref), point_place(to), spot),
        },
        _ => acts(asked, deeds(asked, spot).0, deeds(asked, spot).1),
    }
}

fn find(asked: &BrowserCommand, spot: Spot, from: Option<Spot>) -> (turn: Turn)
    ensures
        turn@ == found(*asked, spot@, engine::spot_view(from)),
{
    match asked {
        BrowserCommand::Drag { to_ref, to, .. } => match from {
            Some(from) => drag(from, spot),
            None => match to_ref {
                Some(reference) => aim_at(reference.clone(), Some(spot)),
                None => match point_spot(to) {
                    Some(to) => drag(spot, to),
                    None => end(CommandOutcome::err("bad_arguments", "需要 ref 或 x/y 坐标", 0)),
                },
            },
        },
        _ => {
            let (calls, paste) = list_deeds(asked, &spot);
            act(asked, calls, paste)
        },
    }
}

/// A command looks for its place: by a reference, or else it is the one that it says.
pub open spec fn seeks(asked: BrowserCommand, reference: Option<Seq<char>>, spot: Option<SpotView>) -> TurnView {
    match reference {
        Some(reference) => aims(reference, None),
        None => match spot {
            Some(spot) => found(asked, spot, None),
            None => engine::ends(no_place()),
        },
    }
}

fn seek(asked: &BrowserCommand, reference: &Option<String>, spot: Option<Spot>) -> (turn: Turn)
    ensures
        turn@ == seeks(*asked, text::opt_view(*reference), engine::spot_view(spot)),
{
    match reference {
        Some(reference) => aim_at(reference.clone(), None),
        None => match spot {
            Some(spot) => find(asked, spot, None),
            None => end(CommandOutcome::err("bad_arguments", "需要 ref 或 x/y 坐标", 0)),
        },
    }
}

/// What a command that acts on a page asks first; `None` for the others.
pub open spec fn starts(asked: BrowserCommand) -> Option<TurnView> {
    match asked {
        BrowserCommand::Click { reference, locator, x, y, .. } => Some(
            match locator {
                Some(locator) => engine::runs(
                    scripts::locate_script(locator@),
                    StageView::Locating,
                ),
                None => seeks(asked, text::opt_view(reference), place(x, y)),
            },
        ),
        BrowserCommand::Type { reference, .. } => Some(
            match reference {
                Some(reference) => aims(reference@, None),
                None => acts(asked, Seq::empty(), true),
            },
        ),
        BrowserCommand::Fill { reference, .. } => Some(aims(reference@, None)),
        BrowserCommand::Press { key, reference, .. } => Some(
            match reference {
                Some(reference) => aims(reference@, None),
                None => acts(asked, calls::press(key@), false),
            },
        ),
        BrowserCommand::Scroll { reference, x, y, .. } => Some(
            seeks(asked, text::opt_view(reference), place(x, y)),
        ),
        BrowserCommand::Hover { reference, x, y, .. } => Some(
            seeks(asked, text::opt_view(reference), place(x, y)),
        ),
        BrowserCommand::Drag { from_ref, from, .. } => Some(
            seeks(asked, text::opt_view(from_ref), point_place(from)),
        ),
        _ => None,
    }
}

/// What a command that acts on a page asks first.
pub fn start(asked: &BrowserCommand) -> (turn: Option<Turn>)
    ensures
        match turn {
            Some(turn) => starts(*asked) == Some(turn@),
            None => starts(*asked) is None,
        },
{
    match asked {
        BrowserCommand::Click { reference, locator, x, y, .. } => Some(
            match locator {
                Some(locator) => run(locate_js(locator.as_str()), Stage::Locating),
                None => seek(asked, reference, spot_at(x, y)),
            },
        ),
        BrowserCommand::Type { reference, .. } => Some(
            match reference {
                Some(reference) => aim_at(reference.clone(), None),
                None => {
                    let none: Vec<Call> = Vec::new();
                    assert(calls::call_views(none@) =~= Seq::empty());
                    act(asked, none, true)
                },
            },
        ),
        BrowserCommand::Fill { reference, .. } => Some(aim_at(reference.clone(), None)),
        BrowserCommand::Press { key, reference, .. } => Some(
            match reference {
                Some(reference) => aim_at(reference.clone(), None),
                None => act(asked, press_calls(key.as_str()), false),
            },
        ),
        BrowserCommand::Scroll { reference, x, y, .. } => Some(
            seek(asked, reference, spot_at(x, y)),
        ),
        BrowserCommand::Hover { reference, x, y, .. } => Some(
            seek(asked, reference, spot_at(x, y)),
        ),
        BrowserCommand::Drag { from_ref, from, .. } => Some(
            seek(asked, from_ref, point_spot(from)),
        ),
        _ => None,
    }
}

/// Whether a script has found the middle of an element.
pub open spec fn has_center(value: JsonView) -> bool {
    json::member_bool(value, "found"@) == Some(true)
}

/// The largest whole number up to which floating point holds every whole number.
pub const WHOLE_LIMIT: u64 = 9_007_199_254_740_992;

/// A number as one in floating point. What becomes of a whole number that floating point may not
/// hold is given by the text that is printed for it.
pub open spec fn as_float(number: NumberView) -> NumberView {
    match number {
        NumberView::Unsigned(n) => if n <= WHOLE_LIMIT {
            NumberView::Float(text::decimal(n as nat) + ".0"@)
        } else {
            NumberView::Float(json::float_text(n))
        },
        NumberView::Negative(n) => if -n <= WHOLE_LIMIT {
            NumberView::Float(text::signed_decimal(n as int) + ".0"@)
        } else {
            NumberView::Float("-"@ + json::float_text((-n) as u64))
        },
        NumberView::Float(_) => number,
    }
}

/// A number that a script tells; zero where it tells none.
pub open spec fn told_number(value: JsonView, key: Seq<char>) -> NumberView {
    match json::member(value, key) {
        Some(JsonView::Number(n)) => as_float(n),
        _ => NumberView::Float("0.0"@),
    }
}

/// The middle of an element, as a script tells it.
pub open spec fn center(value: JsonView) -> SpotView {
    SpotView { x: told_number(value, "cx"@), y: told_number(value, "cy"@) }
}

fn to_float(number: &JsonNumber) -> (float: JsonNumber)
    ensures
        float@ == as_float(number@),
{
    match number {
        JsonNumber::Unsigned(n) => if *n <= WHOLE_LIMIT {
            JsonNumber::Float(cat2(decimal_text(*n).as_str(), ".0"))
        } else {
            JsonNumber::Float(print_float(*n))
        },
        JsonNumber::Negative(n) => if *n >= -9_007_199_254_740_992i64 {
            JsonNumber::Float(cat2(signed_text(*n).as_str(), ".0"))
        } else {
            let size: u64 = (-(*n as i128)) as u64;
            JsonNumber::Float(cat2("-", print_float(size).as_str()))
        },
        JsonNumber::Float(_) => copy_number(number),
    }
}

fn read_number(value: &Json, key: &str) -> (number: JsonNumber)
    ensures
        number@ == told_number(value@, key@),
{
    match value.get(key) {
        Some(Json::Number(n)) => to_float(n),
        _ => JsonNumber::Float("0.0".to_owned()),
    }
}

fn read_center(value: &Json) -> (spot: Spot)
    ensures
        spot@ == center(value@),
{
    Spot { x: read_number(value, "cx"), y: read_number(value, "cy") }
}

fn finds_center(value: &Json) -> (yes: bool)
    ensures
        yes == has_center(value@),
{
    match value.get_bool("found") {
        Some(found) => found,
        None => false,
    }
}

/// Why an element has no middle.
pub open spec fn reason(value: JsonView) -> Seq<char> {
    json::text_or(value, "reason"@, "stale_ref"@)
}

/// The outcome of a command whose locator finds nothing.
pub open spec fn not_located(locator: Seq<char>) -> OutcomeView {
    command::failure("locator_not_found"@, "未找到元素: "@ + locator, 0)
}

/// A snapshot is taken anew.
pub open spec fn refreshes(aim: AimView, deadline: u64) -> TurnView {
    engine::runs(
        scripts::snapshot_script(REFRESH_MAX, SNAPSHOT_DOM_MAX, false),
        StageView::Refreshing { aim, deadline },
    )
}

fn refresh(aim: Aim, deadline: u64) -> (turn: Turn)
    ensures
        turn@ == refreshes(aim@, deadline),
{
    run(snapshot_js(REFRESH_MAX, SNAPSHOT_DOM_MAX, false), Stage::Refreshing { aim, deadline })
}

/// A locator was looked for on behalf of a click. What it gave is looked for like a reference.
pub open spec fn located(locator: Seq<char>, value: JsonView) -> TurnView {
    match json::member_text(value, "ref"@) {
        Some(reference) => aims(reference, None),
        None => engine::ends(not_located(locator)),
    }
}

/// A reference was looked for as a locator.
pub open spec fn named(aim: AimView, value: JsonView) -> TurnView {
    match json::member_text(value, "ref"@) {
        Some(reference) => engine::runs(
            scripts::center_script(reference),
            StageView::Centering { aim },
        ),
        None => engine::ends(not_located(aim.reference)),
    }
}

/// The middle of an element that a locator found was looked for.
pub open spec fn centered(asked: BrowserCommand, aim: AimView, value: JsonView) -> TurnView {
    if has_center(value) {
        found(asked, center(value), aim.from)
    } else {
        engine::ends(
            command::failure(
                "ref_not_found"@,
                "定位器 "@ + aim.reference + " 解析后元素不可用("@ + reason(value) + ")"@,
                0,
            ),
        )
    }
}

/// The middle of an element was looked for. Where it has gone, the snapshot is taken anew for some
/// time.
pub open spec fn pointed(asked: BrowserCommand, aim: AimView, value: JsonView, now_ms: u64) -> TurnView {
    if has_center(value) {
        found(asked, center(value), aim.from)
    } else {
        refreshes(aim, engine::after(now_ms, REFRESH_WINDOW_MS))
    }
}

/// The middle of an element was looked for again.
pub open spec fn repointed(
    asked: BrowserCommand,
    aim: AimView,
    deadline: u64,
    value: JsonView,
    now_ms: u64,
) -> TurnView {
    if has_center(value) {
        found(asked, center(value), aim.from)
    } else if now_ms >= deadline {
        engine::ends(
            command::failure(
                "ref_not_found"@,
                "ref "@ + aim.reference + " 不可用("@ + reason(value)
                    + ";已自动刷新重试仍失败,请重新 snapshot)"@,
                0,
            ),
        )
    } else {
        engine::rests(WAIT_POLL_MS, StageView::Resting { aim, deadline })
    }
}

pub(crate) fn after_locating(asked: &BrowserCommand, value: &Json) -> (turn: Turn)
    requires
        asked is Click,
        asked->Click_locator is Some,
    ensures
        turn@ == located(asked->Click_locator->0@, value@),
{
    match value.get_str("ref") {
        Some(reference) => aim_at(reference.to_owned(), None),
        None => match asked {
            BrowserCommand::Click { locator: Some(locator), .. } => {
                let why = cat2("未找到元素: ", locator.as_str());
                end(CommandOutcome::err("locator_not_found", why.as_str(), 0))
            },
            _ => read(),
        },
    }
}

pub(crate) fn after_naming(aim: Aim, value: &Json) -> (turn: Turn)
    ensures
        turn@ == named(aim@, value@),
{
    match value.get_str("ref") {
        Some(reference) => run(resolve_ref_center_js(reference), Stage::Centering { aim }),
        None => {
            let why = cat2("未找到元素: ", aim.reference.as_str());
            end(CommandOutcome::err("locator_not_found", why.as_str(), 0))
        },
    }
}

pub(crate) fn after_centering(asked: &BrowserCommand, aim: Aim, value: &Json) -> (turn: Turn)
    ensures
        turn@ == centered(*asked, aim@, value@),
{
    if finds_center(value) {
        return find(asked, read_center(value), aim.from);
    }
    let reason = value.str_or("reason", "stale_ref");
    let why = cat5("定位器 ", aim.reference.as_str(), " 解析后元素不可用(", reason.as_str(), ")");
    end(CommandOutcome::err("ref_not_found", why.as_str(), 0))
}

pub(crate) fn after_pointing(asked: &BrowserCommand, aim: Aim, value: &Json, now_ms: u64) -> (turn: Turn)
    ensures
        turn@ == pointed(*asked, aim@, value@, now_ms),
{
    if finds_center(value) {
        find(asked, read_center(value), aim.from)
    } else {
        refresh(aim, later(now_ms, REFRESH_WINDOW_MS))
    }
}

pub(crate) fn after_refreshing(aim: Aim, deadline: u64) -> (turn: Turn)
    ensures
        turn@ == engine::runs(
            scripts::center_script(aim@.reference),
            StageView::Repointing { aim: aim@, deadline },
        ),
{
    run(resolve_ref_center_js(aim.reference.as_str()), Stage::Repointing { aim, deadline })
}

pub(crate) fn after_repointing(
    asked: &BrowserCommand,
    aim: Aim,
    deadline: u64,
    value: &Json,
    now_ms: u64,
) -> (turn: Turn)
    ensures
        turn@ == repointed(*asked, aim@, deadline, value@, now_ms),
{
    if finds_center(value) {
        return find(asked, read_center(value), aim.from);
    }
    if now_ms >= deadline {
        let reason = value.str_or("reason", "stale_ref");
        let why = cat5(
            "ref ",
            aim.reference.as_str(),
            " 不可用(",
            reason.as_str(),
            ";已自动刷新重试仍失败,请重新 snapshot)",
        );
        return end(CommandOutcome::err("ref_not_found", why.as_str(), 0));
    }
    Turn::Ask { ask: Ask::Pause { ms: WAIT_POLL_MS }, stage: Stage::Resting { aim, deadline } }
}

pub(crate) fn after_resting(aim: Aim, deadline: u64) -> (turn: Turn)
    ensures
        turn@ == refreshes(aim@, deadline),
{
    refresh(aim, deadline)
}

/// The way of a drag is known.
pub open spec fn dragged(asked: BrowserCommand, from: SpotView, to: SpotView, reply: Reply) -> TurnView {
    acts(
        asked,
        calls::drag(
            from,
            match reply {
                Reply::Spots(spots) => calls::spot_views(spots@),
                _ => Seq::empty(),
            },
            to,
        ),
        false,
    )
}

pub(crate) fn after_dragging(asked: &BrowserCommand, from: Spot, to: Spot, reply: Reply) -> (turn: Turn)
    ensures
        turn@ == dragged(*asked, from@, to@, reply),
{
    let between = match reply {
        Reply::Spots(spots) => spots,
        _ => {
            let none: Vec<Spot> = Vec::new();
            assert(calls::spot_views(none@) =~= Seq::empty());
            none
        },
    };
    act(asked, drag_calls(&from, &between, &to), false)
}

/// A text was pasted.
pub open spec fn has_pasted(value: JsonView) -> TurnView {
    if json::member_bool(value, "ok"@) == Some(true) {
        engine::reads()
    } else {
        engine::ends(
            command::failure(
                "execution_error"@,
                json::text_or(value, "error"@, "paste failed"@),
                0,
            ),
        )
    }
}

pub(crate) fn after_pasting(value: &Json) -> (turn: Turn)
    ensures
        turn@ == has_pasted(value@),
{
    let done = match value.get_bool("ok") {
        Some(ok) => ok,
        None => false,
    };
    if done {
        read()
    } else {
        let why = value.str_or("error", "paste failed");
        end(CommandOutcome::err("execution_error", why.as_str(), 0))
    }
}

} // verus!
