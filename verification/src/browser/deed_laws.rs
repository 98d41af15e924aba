//! What holds of the mouse and the keys, and of finding the place at which they act.
use vstd::prelude::*;

use crate::browser::acting;
use crate::browser::calls;
use crate::browser::calls::{CallView, SpotView};
use crate::browser::command::BrowserCommand;
use crate::browser::engine::{AimView, AskView, StageView, TurnView};
use crate::browser::script_laws::says;
use crate::browser::scripts;
use crate::json;
use crate::json::{JsonView, NumberView};
use crate::text;
use crate::text_laws;

verus! {

/// The mouse does something of this kind at this place.
pub open spec fn is_mouse_at(call: CallView, kind: Seq<char>, spot: SpotView) -> bool {
    &&& call.method == "Input.dispatchMouseEvent"@
    &&& says(call.params, "type"@, JsonView::Text(kind))
    &&& says(call.params, "x"@, JsonView::Number(spot.x))
    &&& says(call.params, "y"@, JsonView::Number(spot.y))
}

/// A button of the mouse is in play, for the so-many-th time in a row.
pub open spec fn is_of_button(call: CallView, button: Seq<char>, count: u64) -> bool {
    &&& says(call.params, "button"@, JsonView::Text(button))
    &&& says(call.params, "clickCount"@, JsonView::Number(NumberView::Unsigned(count)))
}

/// The keys do something of this kind with this key.
pub open spec fn is_key(call: CallView, kind: Seq<char>, key: Seq<char>) -> bool {
    &&& call.method == "Input.dispatchKeyEvent"@
    &&& says(call.params, "type"@, JsonView::Text(kind))
    &&& says(call.params, "key"@, JsonView::Text(key))
}

proof fn lemma_mouse_names()
    ensures
        "type"@.len() == 4,
        "x"@ != "y"@,
        "x"@.len() == 1,
        "y"@.len() == 1,
        "button"@.len() == 6,
        "clickCount"@.len() == 10,
        "buttons"@.len() == 7,
{
    reveal_strlit("type");
    reveal_strlit("x");
    reveal_strlit("y");
    reveal_strlit("button");
    reveal_strlit("clickCount");
    reveal_strlit("buttons");
    assert("x"@[0] != "y"@[0]);
}

/// A click moves the mouse to its place, and there its button goes down and then up.
pub proof fn click_goes_down_and_up(spot: SpotView, button: Seq<char>, count: u64)
    ensures
        ({
            let made = calls::click(spot, button, count);
            &&& made.len() == 3
            &&& is_mouse_at(made[0], "mouseMoved"@, spot)
            &&& is_mouse_at(made[1], "mousePressed"@, spot) && is_of_button(made[1], button, count)
            &&& is_mouse_at(made[2], "mouseReleased"@, spot) && is_of_button(made[2], button, count)
        }),
{
    lemma_mouse_names();
}

/// A drag takes hold where it begins, goes over the places between in their order, and lets go where
/// it ends.
pub proof fn drag_goes_from_here_to_there(from: SpotView, between: Seq<SpotView>, to: SpotView)
    ensures
        ({
            let made = calls::drag(from, between, to);
            &&& made.len() == between.len() + 3
            &&& is_mouse_at(made[0], "mouseMoved"@, from)
            &&& is_mouse_at(made[1], "mousePressed"@, from) && is_of_button(made[1], "left"@, 1)
            &&& forall|i: int|
                0 <= i < between.len() ==> is_mouse_at(
                    #[trigger] made[i + 2],
                    "mouseMoved"@,
                    between[i],
                )
            &&& is_mouse_at(made.last(), "mouseReleased"@, to)
            &&& is_of_button(made.last(), "left"@, 1)
        }),
{
    lemma_mouse_names();
    let made = calls::drag(from, between, to);
    assert forall|i: int| 0 <= i < between.len() implies is_mouse_at(
        #[trigger] made[i + 2],
        "mouseMoved"@,
        between[i],
    ) by {
        assert(made[i + 2] == calls::pull(between[i]));
    }
}

/// A key goes down and then up.
pub proof fn key_goes_down_and_up(key: Seq<char>)
    ensures
        calls::press(key).len() == 2,
        is_key(calls::press(key)[0], "keyDown"@, key),
        is_key(calls::press(key)[1], "keyUp"@, key),
{
    reveal_strlit("type");
    reveal_strlit("key");
    reveal_strlit("code");
    reveal_strlit("windowsVirtualKeyCode");
    assert("type"@.len() == 4 && "key"@.len() == 3 && "code"@.len() == 4
        && "windowsVirtualKeyCode"@.len() == 21);
    assert("type"@[0] != "code"@[0]);
}

/// The wheel turns at its place by as much as is wished.
pub proof fn wheel_turns_as_wished(spot: SpotView, dx: NumberView, dy: NumberView)
    ensures
        is_mouse_at(calls::wheel(spot, dx, dy), "mouseWheel"@, spot),
        says(calls::wheel(spot, dx, dy).params, "deltaX"@, JsonView::Number(dx)),
        says(calls::wheel(spot, dx, dy).params, "deltaY"@, JsonView::Number(dy)),
{
    lemma_mouse_names();
    reveal_strlit("deltaX");
    reveal_strlit("deltaY");
    assert("deltaX"@.len() == 6 && "deltaY"@.len() == 6);
    assert("deltaX"@[5] != "deltaY"@[5]);
}

/// Where a place is found: a click is made there, twice where it is a double one. A field is filled
/// after what was in it is selected; a text that is typed is added to it.
pub proof fn deeds_are_those_asked_for(asked: BrowserCommand, spot: SpotView)
    ensures
        asked matches BrowserCommand::Click { button, double_click, .. } ==> {
            let (made, paste) = acting::deeds(asked, spot);
            &&& made == calls::click(
                spot,
                if button is Some {
                    button->0@
                } else {
                    "left"@
                },
                if double_click == Some(true) {
                    2
                } else {
                    1
                },
            )
            &&& !paste
        },
        asked is Fill ==> {
            let (made, paste) = acting::deeds(asked, spot);
            &&& made.take(3) == calls::click(spot, "left"@, 1)
            &&& made.skip(3) == calls::select_all()
            &&& paste
        },
        asked is Type ==> acting::deeds(asked, spot) == (calls::click(spot, "left"@, 1), true),
        asked matches BrowserCommand::Press { key, .. } ==> {
            let (made, paste) = acting::deeds(asked, spot);
            &&& made.take(3) == calls::click(spot, "left"@, 1)
            &&& made.skip(3) == calls::press(key@)
            &&& !paste
        },
        asked is Hover ==> acting::deeds(asked, spot).0.len() == 1 && is_mouse_at(
            acting::deeds(asked, spot).0[0],
            "mouseMoved"@,
            spot,
        ),
        asked matches BrowserCommand::Fill { value, .. } ==> acting::pasted(asked) == value@,
        asked matches BrowserCommand::Type { text, .. } ==> acting::pasted(asked) == text@,
{
    lemma_mouse_names();
    let made = acting::deeds(asked, spot).0;
    if asked is Fill {
        assert(made.take(3) =~= calls::click(spot, "left"@, 1));
        assert(made.skip(3) =~= calls::select_all());
    }
    if let BrowserCommand::Press { key, .. } = asked {
        assert(made.take(3) =~= calls::click(spot, "left"@, 1));
        assert(made.skip(3) =~= calls::press(key@));
    }
}

/// The calls of a command are made one after the other; when none is left its text is pasted, if it
/// has one.
pub proof fn calls_are_made_in_turn(
    asked: BrowserCommand,
    call: CallView,
    rest: Seq<CallView>,
    paste: bool,
)
    ensures
        acting::acts(asked, seq![call] + rest, paste) == (TurnView::Ask {
            ask: AskView::Call(call),
            stage: StageView::Acting { left: rest, paste },
        }),
        acting::acts(asked, Seq::empty(), true) matches TurnView::Ask {
            ask: AskView::Eval { script },
            stage,
        } && stage is Pasting && text::has(script, json::quoted(acting::pasted(asked))),
        acting::acts(asked, Seq::empty(), false) matches TurnView::Ask { stage, .. } && stage is Reading,
{
    assert((seq![call] + rest).drop_first() =~= rest);
    text_laws::part_of_a_text_occurs(
        "(async function(){\nvar text="@,
        json::quoted(acting::pasted(asked)),
        scripts::PASTE_BODY@,
    );
}

/// An element that is found is acted on in its middle. One that is not found is looked for anew
/// until the time is over, and the command then fails.
pub proof fn element_is_acted_on_in_its_middle(
    asked: BrowserCommand,
    aim: AimView,
    value: JsonView,
    deadline: u64,
    now_ms: u64,
)
    ensures
        says(value, "found"@, JsonView::Bool(true)) ==> {
            let turn = acting::found(asked, acting::center(value), aim.from);
            &&& acting::pointed(asked, aim, value, now_ms) == turn
            &&& acting::repointed(asked, aim, deadline, value, now_ms) == turn
            &&& acting::centered(asked, aim, value) == turn
        },
        !says(value, "found"@, JsonView::Bool(true)) ==> {
            &&& acting::pointed(asked, aim, value, now_ms) matches TurnView::Ask { stage, .. }
                && stage is Refreshing
            &&& now_ms >= deadline ==> (acting::repointed(asked, aim, deadline, value, now_ms)
                matches TurnView::End { outcome, .. } && !outcome.ok && outcome.error is Some
                && (outcome.error->0).0 == "ref_not_found"@)
            &&& now_ms < deadline ==> acting::repointed(asked, aim, deadline, value, now_ms) is Ask
            &&& acting::centered(asked, aim, value) matches TurnView::End { outcome, .. }
                && !outcome.ok
        },
        forall|n: NumberView|
            n is Float && #[trigger] says(value, "cx"@, JsonView::Number(n)) ==> acting::center(
                value,
            ).x == n,
        forall|n: NumberView|
            n is Float && #[trigger] says(value, "cy"@, JsonView::Number(n)) ==> acting::center(
                value,
            ).y == n,
{
}

/// A drag that has found both its ends goes from the first to the second.
pub proof fn drag_has_two_ends(asked: BrowserCommand, from: SpotView, to: SpotView)
    requires
        asked is Drag,
    ensures
        acting::found(asked, to, Some(from)) == (TurnView::Ask {
            ask: AskView::Between { from, to },
            stage: StageView::Dragging { from, to },
        }),
        asked matches BrowserCommand::Drag { to_ref: None, to: Some(point), .. } ==> acting::found(
            asked,
            from,
            None,
        ) matches TurnView::Ask { ask: AskView::Between { from: begins, to: ends }, .. } && begins
            == from && ends.x == point.x@.value && ends.y == point.y@.value,
{
}

/// A command that names neither an element nor a place fails.
pub proof fn place_is_needed(asked: BrowserCommand)
    ensures
        asked matches BrowserCommand::Hover { reference: None, x: None, .. } ==> (acting::starts(asked)
            matches Some(TurnView::End { outcome, .. }) && !outcome.ok),
        asked matches BrowserCommand::Click { reference: None, locator: None, x: None, .. } ==> (
        acting::starts(asked) matches Some(TurnView::End { outcome, .. }) && !outcome.ok),
        asked matches BrowserCommand::Drag { from_ref: None, from: None, .. } ==> (acting::starts(asked)
            matches Some(TurnView::End { outcome, .. }) && !outcome.ok),
{
}

/// A locator of a click is looked for in the page, and what it finds is acted on; where it finds
/// nothing the command fails, naming it.
pub proof fn locator_is_looked_for(locator: Seq<char>, value: JsonView, reference: Seq<char>)
    ensures
        says(value, "ref"@, JsonView::Text(reference)) ==> acting::located(locator, value)
            == acting::aims(reference, None),
        (value matches JsonView::Object(members) && !members.contains_key("ref"@)) ==> (
        acting::located(locator, value) matches TurnView::End { outcome, .. } && !outcome.ok
            && outcome.error is Some && (outcome.error->0).0 == "locator_not_found"@ && text::has(
            (outcome.error->0).1,
            locator,
        )),
{
    text_laws::part_of_a_text_occurs("未找到元素: "@, locator, Seq::empty());
    assert("未找到元素: "@ + locator + Seq::<char>::empty() =~= "未找到元素: "@ + locator);
}

} // verus!
