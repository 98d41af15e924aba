//! The calls that act on a page: the mouse and the keys.
use vstd::prelude::*;
use vstd::string::*;

use crate::browser::command::Measure;
use crate::json;
use crate::json::{object, object_of, Json, JsonNumber, JsonView, NumberView};
use crate::text::str_eq;

verus! {

/// A place on a page.
#[derive(Debug)]
pub struct Spot {
    pub x: JsonNumber,
    pub y: JsonNumber,
}

pub struct SpotView {
    pub x: NumberView,
    pub y: NumberView,
}

impl View for Spot {
    type V = SpotView;

    open spec fn view(&self) -> SpotView {
        SpotView { x: self.x@, y: self.y@ }
    }
}

/// The views of some places.
pub open spec fn spot_views(spots: Seq<Spot>) -> Seq<SpotView> {
    spots.map_values(|spot: Spot| spot@)
}

pub(crate) fn copy_number(number: &JsonNumber) -> (copy: JsonNumber)
    ensures
        copy@ == number@,
{
    match number {
        JsonNumber::Unsigned(n) => JsonNumber::Unsigned(*n),
        JsonNumber::Negative(n) => JsonNumber::Negative(*n),
        JsonNumber::Float(text) => JsonNumber::Float(text.clone()),
    }
}

impl Spot {
    /// The place that two numbers name.
    pub fn at(x: &Measure, y: &Measure) -> (spot: Self)
        ensures
            spot@ == (SpotView { x: x@.value, y: y@.value }),
    {
        Spot { x: copy_number(&x.value), y: copy_number(&y.value) }
    }
}

impl Clone for Spot {
    fn clone(&self) -> (copy: Self)
        ensures
            copy@ == self@,
    {
        Spot { x: copy_number(&self.x), y: copy_number(&self.y) }
    }
}

/// A call of the browser.
#[derive(Debug)]
pub struct Call {
    pub method: String,
    pub params: Json,
}

pub struct CallView {
    pub method: Seq<char>,
    pub params: JsonView,
}

impl View for Call {
    type V = CallView;

    open spec fn view(&self) -> CallView {
        CallView { method: self.method@, params: self.params@ }
    }
}

/// The views of some calls.
pub open spec fn call_views(calls: Seq<Call>) -> Seq<CallView> {
    calls.map_values(|call: Call| call@)
}

/// A call.
pub fn call(method: &str, params: Json) -> (call: Call)
    ensures
        call@ == (CallView { method: method@, params: params@ }),
{
    Call { method: method.to_owned(), params }
}

fn push_call(calls: &mut Vec<Call>, call: Call)
    ensures
        final(calls)@ == old(calls)@.push(call),
        call_views(final(calls)@) == call_views(old(calls)@).push(call@),
{
    calls.push(call);
    assert(call_views(calls@) =~= call_views(old(calls)@).push(call@));
}

/// What the mouse does at a place.
pub open spec fn mouse_params(kind: Seq<char>, spot: SpotView) -> JsonView {
    JsonView::Object(
        map![
            "type"@ => JsonView::Text(kind),
            "x"@ => JsonView::Number(spot.x),
            "y"@ => JsonView::Number(spot.y),
        ],
    )
}

/// What a button of the mouse does at a place.
pub open spec fn button_params(kind: Seq<char>, spot: SpotView, button: Seq<char>, count: u64) -> JsonView {
    JsonView::Object(
        map![
            "type"@ => JsonView::Text(kind),
            "x"@ => JsonView::Number(spot.x),
            "y"@ => JsonView::Number(spot.y),
            "button"@ => JsonView::Text(button),
            "clickCount"@ => json::whole(count),
        ],
    )
}

fn mouse(kind: &str, spot: &Spot) -> (params: Json)
    ensures
        params@ == mouse_params(kind@, spot@),
{
    let mut params = object();
    params.insert("type", Json::text(kind));
    params.insert("x", Json::Number(copy_number(&spot.x)));
    params.insert("y", Json::Number(copy_number(&spot.y)));
    params
}

fn mouse_button(kind: &str, spot: &Spot, button: &str, count: u64) -> (params: Json)
    ensures
        params@ == button_params(kind@, spot@, button@, count),
{
    let mut params = mouse(kind, spot);
    params.insert("button", Json::text(button));
    params.insert("clickCount", Json::Number(JsonNumber::Unsigned(count)));
    params
}

/// A call of the mouse.
pub open spec fn mouse_call(params: JsonView) -> CallView {
    CallView { method: "Input.dispatchMouseEvent"@, params }
}

/// A call of the keys.
pub open spec fn key_call(params: JsonView) -> CallView {
    CallView { method: "Input.dispatchKeyEvent"@, params }
}

/// The mouse moves to a place.
pub open spec fn hover(spot: SpotView) -> CallView {
    mouse_call(mouse_params("mouseMoved"@, spot))
}

/// The mouse moves to a place.
pub fn hover_call(spot: &Spot) -> (made: Call)
    ensures
        made@ == hover(spot@),
{
    call("Input.dispatchMouseEvent", mouse("mouseMoved", spot))
}

/// A click: the mouse moves to a place, and its button goes down and up.
pub open spec fn click(spot: SpotView, button: Seq<char>, count: u64) -> Seq<CallView> {
    seq![
        hover(spot),
        mouse_call(button_params("mousePressed"@, spot, button, count)),
        mouse_call(button_params("mouseReleased"@, spot, button, count)),
    ]
}

/// A click.
pub fn click_calls(spot: &Spot, button: &str, count: u64) -> (calls: Vec<Call>)
    ensures
        call_views(calls@) == click(spot@, button@, count),
{
    let mut calls: Vec<Call> = Vec::new();
    push_call(&mut calls, hover_call(spot));
    push_call(
        &mut calls,
        call("Input.dispatchMouseEvent", mouse_button("mousePressed", spot, button, count)),
    );
    push_call(
        &mut calls,
        call("Input.dispatchMouseEvent", mouse_button("mouseReleased", spot, button, count)),
    );
    assert(call_views(calls@) =~= click(spot@, button@, count));
    calls
}

/// The name and the number of a key; unknown for most of those that write something.
pub open spec fn key_of(key: Seq<char>) -> Option<(Seq<char>, u64)> {
    if key == "Enter"@ {
        Some(("Enter"@, 13))
    } else if key == "Tab"@ {
        Some(("Tab"@, 9))
    } else if key == "Escape"@ {
        Some(("Escape"@, 27))
    } else if key == "Backspace"@ {
        Some(("Backspace"@, 8))
    } else if key == "Delete"@ {
        Some(("Delete"@, 46))
    } else if key == "ArrowUp"@ {
        Some(("ArrowUp"@, 38))
    } else if key == "ArrowDown"@ {
        Some(("ArrowDown"@, 40))
    } else if key == "ArrowLeft"@ {
        Some(("ArrowLeft"@, 37))
    } else if key == "ArrowRight"@ {
        Some(("ArrowRight"@, 39))
    } else if key == "Home"@ {
        Some(("Home"@, 36))
    } else if key == "End"@ {
        Some(("End"@, 35))
    } else if key == "PageUp"@ {
        Some(("PageUp"@, 33))
    } else if key == "PageDown"@ {
        Some(("PageDown"@, 34))
    } else if key == "Space"@ || key == " "@ {
        Some(("Space"@, 32))
    } else if key == "a"@ || key == "A"@ {
        Some(("KeyA"@, 65))
    } else if key == "c"@ || key == "C"@ {
        Some(("KeyC"@, 67))
    } else if key == "v"@ || key == "V"@ {
        Some(("KeyV"@, 86))
    } else if key == "x"@ || key == "X"@ {
        Some(("KeyX"@, 88))
    } else {
        None
    }
}

/// The name and the number of a key.
pub fn key_code(key: &str) -> (code: Option<(&'static str, u64)>)
    ensures
        match code {
            Some((name, number)) => key_of(key@) == Some((name@, number)),
            None => key_of(key@) is None,
        },
{
    if str_eq(key, "Enter") {
        Some(("Enter", 13))
    } else if str_eq(key, "Tab") {
        Some(("Tab", 9))
    } else if str_eq(key, "Escape") {
        Some(("Escape", 27))
    } else if str_eq(key, "Backspace") {
        Some(("Backspace", 8))
    } else if str_eq(key, "Delete") {
        Some(("Delete", 46))
    } else if str_eq(key, "ArrowUp") {
        Some(("ArrowUp", 38))
    } else if str_eq(key, "ArrowDown") {
        Some(("ArrowDown", 40))
    } else if str_eq(key, "ArrowLeft") {
        Some(("ArrowLeft", 37))
    } else if str_eq(key, "ArrowRight") {
        Some(("ArrowRight", 39))
    } else if str_eq(key, "Home") {
        Some(("Home", 36))
    } else if str_eq(key, "End") {
        Some(("End", 35))
    } else if str_eq(key, "PageUp") {
        Some(("PageUp", 33))
    } else if str_eq(key, "PageDown") {
        Some(("PageDown", 34))
    } else if str_eq(key, "Space") || str_eq(key, " ") {
        Some(("Space", 32))
    } else if str_eq(key, "a") || str_eq(key, "A") {
        Some(("KeyA", 65))
    } else if str_eq(key, "c") || str_eq(key, "C") {
        Some(("KeyC", 67))
    } else if str_eq(key, "v") || str_eq(key, "V") {
        Some(("KeyV", 86))
    } else if str_eq(key, "x") || str_eq(key, "X") {
        Some(("KeyX", 88))
    } else {
        None
    }
}

/// What a key does.
pub open spec fn key_params(key: Seq<char>, kind: Seq<char>) -> JsonView {
    match key_of(key) {
        Some((code, number)) => JsonView::Object(
            map![
                "key"@ => JsonView::Text(key),
                "code"@ => JsonView::Text(code),
                "windowsVirtualKeyCode"@ => json::whole(number),
                "type"@ => JsonView::Text(kind),
            ],
        ),
        None => JsonView::Object(
            map!["key"@ => JsonView::Text(key), "type"@ => JsonView::Text(kind)],
        ),
    }
}

fn key_event(key: &str, kind: &str) -> (params: Json)
    ensures
        params@ == key_params(key@, kind@),
{
    let mut params = object_of("key", Json::text(key));
    if let Some((code, number)) = key_code(key) {
        params.insert("code", Json::text(code));
        params.insert("windowsVirtualKeyCode", Json::Number(JsonNumber::Unsigned(number)));
    }
    params.insert("type", Json::text(kind));
    params
}

/// A key goes down and up.
pub open spec fn press(key: Seq<char>) -> Seq<CallView> {
    seq![key_call(key_params(key, "keyDown"@)), key_call(key_params(key, "keyUp"@))]
}

/// A key goes down and up.
pub fn press_calls(key: &str) -> (calls: Vec<Call>)
    ensures
        call_views(calls@) == press(key@),
{
    let mut calls: Vec<Call> = Vec::new();
    push_call(&mut calls, call("Input.dispatchKeyEvent", key_event(key, "keyDown")));
    push_call(&mut calls, call("Input.dispatchKeyEvent", key_event(key, "keyUp")));
    assert(call_views(calls@) =~= press(key@));
    calls
}

/// What the keys that select everything do.
pub open spec fn select_all_params(kind: Seq<char>) -> JsonView {
    JsonView::Object(
        map![
            "modifiers"@ => json::whole(2),
            "type"@ => JsonView::Text(kind),
            "key"@ => JsonView::Text("a"@),
            "code"@ => JsonView::Text("KeyA"@),
            "windowsVirtualKeyCode"@ => json::whole(65),
        ],
    )
}

fn select_all_event(kind: &str) -> (params: Json)
    ensures
        params@ == select_all_params(kind@),
{
    let mut params = object();
    params.insert("modifiers", Json::Number(JsonNumber::Unsigned(2)));
    params.insert("type", Json::text(kind));
    params.insert("key", Json::text("a"));
    params.insert("code", Json::text("KeyA"));
    params.insert("windowsVirtualKeyCode", Json::Number(JsonNumber::Unsigned(65)));
    params
}

/// The keys that select everything.
pub open spec fn select_all() -> Seq<CallView> {
    seq![key_call(select_all_params("keyDown"@)), key_call(select_all_params("keyUp"@))]
}

/// The keys that select everything.
pub fn select_all_calls() -> (calls: Vec<Call>)
    ensures
        call_views(calls@) == select_all(),
{
    let mut calls: Vec<Call> = Vec::new();
    push_call(&mut calls, call("Input.dispatchKeyEvent", select_all_event("keyDown")));
    push_call(&mut calls, call("Input.dispatchKeyEvent", select_all_event("keyUp")));
    assert(call_views(calls@) =~= select_all());
    calls
}

/// The wheel turns at a place.
pub open spec fn wheel(spot: SpotView, dx: NumberView, dy: NumberView) -> CallView {
    mouse_call(
        JsonView::Object(
            map![
                "type"@ => JsonView::Text("mouseWheel"@),
                "x"@ => JsonView::Number(spot.x),
                "y"@ => JsonView::Number(spot.y),
                "deltaX"@ => JsonView::Number(dx),
                "deltaY"@ => JsonView::Number(dy),
            ],
        ),
    )
}

/// The wheel turns at a place.
pub fn wheel_call(spot: &Spot, dx: JsonNumber, dy: JsonNumber) -> (made: Call)
    ensures
        made@ == wheel(spot@, dx@, dy@),
{
    let mut params = mouse("mouseWheel", spot);
    params.insert("deltaX", Json::Number(dx));
    params.insert("deltaY", Json::Number(dy));
    call("Input.dispatchMouseEvent", params)
}

/// The mouse moves to a place with its button down.
pub open spec fn pull(spot: SpotView) -> CallView {
    mouse_call(
        JsonView::Object(
            map![
                "type"@ => JsonView::Text("mouseMoved"@),
                "x"@ => JsonView::Number(spot.x),
                "y"@ => JsonView::Number(spot.y),
                "button"@ => JsonView::Text("left"@),
                "buttons"@ => json::whole(1),
            ],
        ),
    )
}

fn pull_call(spot: &Spot) -> (made: Call)
    ensures
        made@ == pull(spot@),
{
    let mut params = mouse("mouseMoved", spot);
    params.insert("button", Json::text("left"));
    params.insert("buttons", Json::Number(JsonNumber::Unsigned(1)));
    call("Input.dispatchMouseEvent", params)
}

/// The mouse takes hold of a place, moves over some others and lets go at the last.
pub open spec fn drag(from: SpotView, between: Seq<SpotView>, to: SpotView) -> Seq<CallView> {
    seq![hover(from), mouse_call(button_params("mousePressed"@, from, "left"@, 1))]
        + between.map_values(|spot: SpotView| pull(spot))
        + seq![mouse_call(button_params("mouseReleased"@, to, "left"@, 1))]
}

/// The mouse takes hold of a place, moves over some others and lets go at the last.
pub fn drag_calls(from: &Spot, between: &Vec<Spot>, to: &Spot) -> (calls: Vec<Call>)
    ensures
        call_views(calls@) == drag(from@, spot_views(between@), to@),
{
    let mut calls: Vec<Call> = Vec::new();
    push_call(&mut calls, hover_call(from));
    push_call(
        &mut calls,
        call("Input.dispatchMouseEvent", mouse_button("mousePressed", from, "left", 1)),
    );
    let ghost start = call_views(calls@);
    let ghost pulls = spot_views(between@).map_values(|spot: SpotView| pull(spot));
    assert(start =~= seq![
        hover(from@),
        mouse_call(button_params("mousePressed"@, from@, "left"@, 1)),
    ]);
    assert(start + pulls.take(0) =~= start);
    let mut i: usize = 0;
    while i < between.len()
        invariant
            i <= between@.len(),
            pulls == spot_views(between@).map_values(|spot: SpotView| pull(spot)),
            call_views(calls@) == start + pulls.take(i as int),
        decreases between@.len() - i,
    {
        push_call(&mut calls, pull_call(&between[i]));
        assert(start + pulls.take(i + 1) =~= (start + pulls.take(i as int)).push(pulls[i as int]));
        i += 1;
    }
    assert(pulls.take(pulls.len() as int) =~= pulls);
    push_call(
        &mut calls,
        call("Input.dispatchMouseEvent", mouse_button("mouseReleased", to, "left", 1)),
    );
    assert(call_views(calls@) =~= drag(from@, spot_views(between@), to@));
    calls
}

} // verus!
