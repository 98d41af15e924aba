//! How a command is carried out on a page: what is asked of the page.
//!
//! [`plan`] turns a command into work on a page, or into an outcome where no page is needed.
use vstd::prelude::*;
use vstd::string::*;

use crate::browser::command;
use crate::browser::command::{BrowserCommand, ClipRect, CommandOutcome, Measure, OutcomeView, Point};
use crate::browser::network;
use crate::browser::network::NetworkLog;
use crate::browser::tabs;
use crate::browser::tabs::{optional_text, RegistryView, TabRegistry, TAB_LIMIT};
use crate::browser::target;
use crate::browser::target::{
    escape_js_string, normalize_target, parse_button, pick_target, Button,
};
use crate::json;
use crate::json::{object, object_of, Json, JsonNumber, JsonView, NumberView};
use crate::map::TextMap;
use crate::text;
use crate::text::{cat2, cat3, cat5, str_eq};

verus! {

/// What is asked of a page.
#[derive(Debug, PartialEq)]
#[allow(inconsistent_fields)]
pub enum PageWork {
    /// Open a page and go to an address, unless it is the blank page.
    Open { url: String },
    /// Close a page; its pictures are stopped before.
    ClosePage { tab: String, stop_screencast: bool },
    /// Put a page in front.
    BringToFront { tab: String },
    Goto { tab: String, url: String },
    GoBack { tab: String },
    GoForward { tab: String },
    Reload { tab: String },
    /// Read the elements of a page.
    Elements { tab: String, max: Option<u32> },
    Picture { tab: String, full_page: bool, clip: Option<ClipRect> },
    ClickElement { tab: String, target: String, button: Button, count: u32 },
    ClickAt { tab: String, x: Measure, y: Measure },
    FillIn { tab: String, target: String, value: String },
    /// Type into an element, or wherever the keys go.
    TypeText { tab: String, target: Option<String>, text: String },
    /// Press a key on an element, or wherever the keys go.
    PressKey { tab: String, target: Option<String>, key: String },
    HoverElement { tab: String, target: String },
    HoverAt { tab: String, x: Measure, y: Measure },
    ScrollTo { tab: String, target: String },
    /// Turn the wheel, at a place where one is given.
    Wheel { tab: String, at: Option<Point>, dx: Measure, dy: Measure },
    Choose { tab: String, target: String, values: Vec<String> },
    SetChecked { tab: String, target: String, checked: bool },
    DragElement { tab: String, from: String, to: String },
    DragPoint { tab: String, from: Point, to: Point },
    /// Run a script that says what stands at a place.
    InfoScript { tab: String, script: String },
    /// Run a script of the model.
    RunScript { tab: String, script: String },
    WaitElement { tab: String, selector: String, timeout_ms: u64 },
    /// Wait until a script says that a text is there, or that it is gone.
    WaitText { tab: String, script: String, text: String, gone: bool, timeout_ms: u64 },
    SettleDialog { tab: String, accept: bool, prompt_text: Option<String> },
    /// Give a page a size; `reset` says that it is the one from the start.
    Resize { tab: String, width: u32, height: u32, reset: bool },
    ReadBody { request_id: String },
    /// Send the pictures of a page; those of another are stopped before.
    StartPictures { tab: String, stop_first: Option<String> },
    StopPictures { tab: String },
}

/// What a page answers.
#[derive(Debug)]
pub enum PageReply {
    /// It failed, for this reason.
    Failed(String),
    /// What comes first failed: no page could be opened, or the mouse could not be moved.
    Unready(String),
    Done,
    /// It went somewhere: the status of the answer, and where it is now.
    Moved { status: Option<u16>, url: String, title: String },
    /// Its elements, and where it is now.
    Read { elements: String, url: String, title: String },
    /// The bytes of a picture.
    Picture(Vec<u8>),
    /// What a script came to.
    Value(Json),
    /// The values that were chosen.
    Chosen(Vec<String>),
    /// A body and its content type.
    Body { content_type: String, bytes: Vec<u8> },
}

/// What a command comes to before a page is asked.
pub enum Plan {
    Work(PageWork),
    Answer(CommandOutcome),
}

/// What a browser tells its watchers.
#[derive(Debug, PartialEq)]
#[allow(inconsistent_fields)]
pub enum BrowserEvent {
    /// The tabs have changed, or another is in front.
    TabsChanged,
    /// A picture of a tab, with the size of its page.
    Frame { tab_id: String, data: String, viewport: Option<FrameViewport> },
    DialogOpened { tab_id: String, kind: String, message: String },
    DialogClosed { tab_id: String },
    Navigated { tab_id: String, url: String, title: String },
    /// The model wants the user to see the browser.
    VisualModeRequested,
    /// A tab stands still at a breakpoint.
    DebuggerPaused { tab_id: String, reason: String, frames: Vec<Json> },
    /// A tab goes on.
    DebuggerResumed { tab_id: String },
    Exited,
}

/// The size of a page.
#[derive(Debug, Clone, Copy, PartialEq, Eq, Structural)]
pub struct FrameViewport {
    pub width: u32,
    pub height: u32,
}

/// What the planner knows.
pub struct Desk<'a> {
    pub registry: &'a TabRegistry,
    /// The dialogs that are open, tab by tab.
    pub dialogs: &'a TextMap<Json>,
    pub network: &'a NetworkLog,
    /// The requests whose bodies can be read.
    pub bodies: &'a TextMap<String>,
    /// The size that a page has from the start.
    pub viewport: (u32, u32),
}

/// Why a click, a hover or a drag is refused that says no place.
pub const CLICK_NEEDS: &'static str = "click 需要 ref/locator 或 x,y";

pub const HOVER_NEEDS: &'static str = "hover 需要 ref/locator 或 x,y";

pub const DRAG_NEEDS: &'static str = "drag 需要 fromRef/toRef 或 from/to";

pub const WAIT_NEEDS: &'static str = "waitFor 需要 selector / text / textGone 之一";

/// How long a page is waited for, where nothing is said.
pub const DEFAULT_WAIT_MS: u64 = 30_000;

/// The script that says what stands at a place.
pub open spec fn info_script(x: Seq<char>, y: Seq<char>) -> Seq<char> {
    "() => { const el = document.elementFromPoint("@ + x + ", "@ + y
        + "); if (!el) return null; const r = el.getBoundingClientRect(); return { tag: el.tagName, id: el.id, cls: el.className, text: (el.innerText||'').slice(0,200), rect: {x:r.x,y:r.y,width:r.width,height:r.height} }; }"@
}

/// The script that waits for a text, or for its end.
pub open spec fn text_script(text: Seq<char>, gone: bool) -> Seq<char> {
    if gone {
        "() => !(document.body && document.body.innerText.includes('"@ + target::script_text(text)
            + "'))"@
    } else {
        "() => document.body && document.body.innerText.includes('"@ + target::script_text(text)
            + "')"@
    }
}

/// The script that makes a page draw itself anew, so that its first picture comes.
pub const REPAINT_SCRIPT: &'static str =
    "() => { const el = document.documentElement; el.style.opacity = el.style.opacity === '0.999' ? '' : '0.999'; }";

pub open spec fn measures(x: Option<Measure>, y: Option<Measure>, at: Option<Point>) -> bool {
    match (x, y) {
        (Some(x), Some(y)) => at matches Some(point) && point.x@ == x@ && point.y@ == y@,
        _ => at is None,
    }
}

/// How far the wheel turns, where nothing is said.
pub open spec fn wheel_default(shown: Seq<char>, value: Seq<char>) -> command::MeasureView {
    command::MeasureView { shown, value: NumberView::Float(value) }
}

/// How far the wheel turns.
pub open spec fn turned(delta: Option<Measure>, otherwise: command::MeasureView) -> command::MeasureView {
    match delta {
        Some(delta) => delta@,
        None => otherwise,
    }
}

/// Why a command is refused that names its tab rightly, if it is.
pub open spec fn refused(asked: BrowserCommand) -> Option<Seq<char>> {
    match asked {
        BrowserCommand::Click { reference, locator, x, y, .. } => if target::picked(
            text::opt_view(reference),
            text::opt_view(locator),
        ) is None && (x is None || y is None) {
            Some(CLICK_NEEDS@)
        } else {
            None
        },
        BrowserCommand::Hover { reference, x, y, .. } => if reference is None && (x is None
            || y is None) {
            Some(HOVER_NEEDS@)
        } else {
            None
        },
        BrowserCommand::Drag { from_ref, to_ref, from, to, .. } => if (from_ref is None
            || to_ref is None) && (from is None || to is None) {
            Some(DRAG_NEEDS@)
        } else {
            None
        },
        BrowserCommand::WaitFor { selector, text, text_gone, .. } => if selector is None
            && text is None && text_gone is None {
            Some(WAIT_NEEDS@)
        } else {
            None
        },
        _ => None,
    }
}

/// Whether work on a page is what a command asks of a tab.
pub open spec fn carries(
    work: PageWork,
    asked: BrowserCommand,
    on: Seq<char>,
    registry: RegistryView,
    viewport: (u32, u32),
) -> bool {
    match asked {
        BrowserCommand::NewTab { url } => work matches PageWork::Open { url: goes } && goes@ == (
        match url {
            Some(url) => url@,
            None => "about:blank"@,
        }),
        BrowserCommand::Close { .. } => work matches PageWork::ClosePage { tab, stop_screencast }
            && tab@ == on && stop_screencast == (registry.screencast == Some(on)),
        BrowserCommand::Activate { tab_id } => work matches PageWork::BringToFront { tab } && tab@
            == tab_id@,
        BrowserCommand::Navigate { url, .. } => work matches PageWork::Goto { tab, url: goes }
            && tab@ == on && goes@ == url@,
        BrowserCommand::Back { .. } => work matches PageWork::GoBack { tab } && tab@ == on,
        BrowserCommand::Forward { .. } => work matches PageWork::GoForward { tab } && tab@ == on,
        BrowserCommand::Reload { .. } => work matches PageWork::Reload { tab } && tab@ == on,
        BrowserCommand::Snapshot { max_elements, .. } => work matches PageWork::Elements { tab, max }
            && tab@ == on && max == max_elements,
        BrowserCommand::Screenshot { full_page, clip, .. } => work matches PageWork::Picture {
            tab,
            full_page: whole,
            clip: part,
        } && tab@ == on && whole == (full_page == Some(true)) && match (clip, part) {
            (Some(clip), Some(part)) => clip.x@ == part.x@ && clip.y@ == part.y@ && clip.width@
                == part.width@ && clip.height@ == part.height@,
            (None, None) => true,
            _ => false,
        },
        BrowserCommand::Click { reference, locator, x, y, button, double_click, .. } => match target::picked(
            text::opt_view(reference),
            text::opt_view(locator),
        ) {
            Some(place) => work matches PageWork::ClickElement { tab, target, button: pressed, count }
                && tab@ == on && target@ == place && pressed == target::button_named(
                text::opt_view(button),
            ) && count == (if double_click == Some(true) {
                2u32
            } else {
                1
            }),
            None => work matches PageWork::ClickAt { tab, x: at_x, y: at_y } && tab@ == on && x
                is Some && at_x@ == x->0@ && y is Some && at_y@ == y->0@,
        },
        BrowserCommand::Fill { reference, value, .. } => work matches PageWork::FillIn {
            tab,
            target,
            value: filled,
        } && tab@ == on && target@ == target::selector(reference@) && filled@ == value@,
        BrowserCommand::Type { reference, text, .. } => work matches PageWork::TypeText {
            tab,
            target,
            text: typed,
        } && tab@ == on && text::opt_view(target) == target::picked(
            text::opt_view(reference),
            None,
        ) && typed@ == text@,
        BrowserCommand::Press { key, reference, .. } => work matches PageWork::PressKey {
            tab,
            target,
            key: pressed,
        } && tab@ == on && text::opt_view(target) == target::picked(
            text::opt_view(reference),
            None,
        ) && pressed@ == key@,
        BrowserCommand::Hover { reference, x, y, .. } => match reference {
            Some(reference) => work matches PageWork::HoverElement { tab, target } && tab@ == on
                && target@ == target::selector(reference@),
            None => work matches PageWork::HoverAt { tab, x: at_x, y: at_y } && tab@ == on && x
                is Some && at_x@ == x->0@ && y is Some && at_y@ == y->0@,
        },
        BrowserCommand::Scroll { reference, x, y, delta_x, delta_y, .. } => match reference {
            Some(reference) => work matches PageWork::ScrollTo { tab, target } && tab@ == on
                && target@ == target::selector(reference@),
            None => work matches PageWork::Wheel { tab, at, dx, dy } && tab@ == on && measures(
                x,
                y,
                at,
            ) && dx@ == turned(delta_x, wheel_default("0"@, "0.0"@)) && dy@ == turned(
                delta_y,
                wheel_default("360"@, "360.0"@),
            ),
        },
        BrowserCommand::Select { reference, values, .. } => work matches PageWork::Choose {
            tab,
            target,
            values: chosen,
        } && tab@ == on && target@ == target::selector(reference@) && text::views(chosen@)
            == text::views(values@),
        BrowserCommand::Check { reference, checked, .. } => work matches PageWork::SetChecked {
            tab,
            target,
            checked: sets,
        } && tab@ == on && target@ == target::selector(reference@) && sets == (checked != Some(
            false,
        )),
        BrowserCommand::Drag { from_ref, to_ref, from, to, .. } => match (from_ref, to_ref) {
            (Some(from_ref), Some(to_ref)) => work matches PageWork::DragElement {
                tab,
                from: source,
                to: goal,
            } && tab@ == on && source@ == target::selector(from_ref@) && goal@ == target::selector(
                to_ref@,
            ),
            _ => work matches PageWork::DragPoint { tab, from: source, to: goal } && tab@ == on
                && from is Some && to is Some && source.x@ == from->0.x@ && source.y@ == from->0.y@
                && goal.x@ == to->0.x@ && goal.y@ == to->0.y@,
        },
        BrowserCommand::ElementInfo { x, y, .. } => work matches PageWork::InfoScript { tab, script }
            && tab@ == on && script@ == info_script(x@.shown, y@.shown),
        BrowserCommand::Evaluate { expression, .. } => work matches PageWork::RunScript {
            tab,
            script,
        } && tab@ == on && script@ == expression@,
        BrowserCommand::WaitFor { selector, text, text_gone, timeout_ms, .. } => {
            let limit = match timeout_ms {
                Some(ms) => ms,
                None => DEFAULT_WAIT_MS,
            };
            match (selector, text, text_gone) {
                (Some(selector), _, _) => work matches PageWork::WaitElement {
                    tab,
                    selector: waits,
                    timeout_ms: ms,
                } && tab@ == on && waits@ == selector@ && ms == limit,
                (None, Some(wanted), _) => work matches PageWork::WaitText {
                    tab,
                    script,
                    text: waits,
                    gone,
                    timeout_ms: ms,
                } && tab@ == on && script@ == text_script(wanted@, false) && waits@ == wanted@
                    && !gone && ms == limit,
                (None, None, Some(unwanted)) => work matches PageWork::WaitText {
                    tab,
                    script,
                    text: waits,
                    gone,
                    timeout_ms: ms,
                } && tab@ == on && script@ == text_script(unwanted@, true) && waits@ == unwanted@
                    && gone && ms == limit,
                _ => false,
            }
        },
        BrowserCommand::HandleDialog { accept, prompt_text, .. } => work matches PageWork::SettleDialog {
            tab,
            accept: accepts,
            prompt_text: says,
        } && tab@ == on && accepts == accept && text::opt_view(says) == text::opt_view(prompt_text),
        BrowserCommand::ViewportSet { width, height, .. } => work matches PageWork::Resize {
            tab,
            width: w,
            height: h,
            reset,
        } && tab@ == on && w == width && h == height && !reset,
        BrowserCommand::ViewportReset { .. } => work matches PageWork::Resize {
            tab,
            width: w,
            height: h,
            reset,
        } && tab@ == on && w == viewport.0 && h == viewport.1 && reset,
        BrowserCommand::NetworkGetBody { request_id, .. } => work matches PageWork::ReadBody {
            request_id: id,
        } && id@ == request_id@,
        BrowserCommand::StartScreencast { .. } => work matches PageWork::StartPictures {
            tab,
            stop_first,
        } && tab@ == on && text::opt_view(stop_first) == (match registry.screencast {
            Some(other) => if tabs::knows(registry, other) {
                Some(other)
            } else {
                None
            },
            None => None,
        }),
        BrowserCommand::StopScreencast { .. } => work matches PageWork::StopPictures { tab } && tab@
            == on,
        BrowserCommand::GetState { .. } => false,
        BrowserCommand::List => false,
        BrowserCommand::GetDialog { .. } => false,
        BrowserCommand::NetworkList { .. } => false,
    }
}

/// The tab that the id of a request begins with.
pub open spec fn request_tab(request_id: Seq<char>) -> Seq<char> {
    match text::find_from(request_id, "-r"@, 0) {
        Some(at) => request_id.take(at),
        None => request_id,
    }
}

/// What a request sent, as far as it is known.
pub open spec fn sent_body(requests: Seq<network::RequestView>, request_id: Seq<char>) -> JsonView {
    match network::request_at(requests, request_id, 0) {
        Some(at) => match json::member(requests[at].1, "postData"@) {
            Some(data) => data,
            None => JsonView::Null,
        },
        None => JsonView::Null,
    }
}

/// The outcome of a command that no page is needed for, given the tab that it works on.
pub open spec fn direct(asked: BrowserCommand, on: Seq<char>, desk: Desk) -> Option<OutcomeView> {
    match asked {
        BrowserCommand::GetState { .. } => Some(
            command::value_outcome(
                JsonView::Object(
                    map![
                        "activeTabId"@ => tabs::text_or_null(desk.registry@.active),
                        "tabs"@ => tabs::listing(desk.registry@),
                    ],
                ),
                0,
            ),
        ),
        BrowserCommand::List => Some(
            command::value_outcome(
                JsonView::Object(map!["tabs"@ => tabs::listing(desk.registry@)]),
                0,
            ),
        ),
        BrowserCommand::GetDialog { .. } => Some(
            command::dialog_outcome(
                if desk.dialogs@.contains_key(on) {
                    desk.dialogs@[on]@
                } else {
                    JsonView::Null
                },
                0,
            ),
        ),
        BrowserCommand::HandleDialog { .. } => if desk.dialogs@.contains_key(on) {
            None
        } else {
            Some(
                command::failure(
                    "not_found"@,
                    "tab "@ + on + " 没有挂起的弹窗(先 getDialog 确认)"@,
                    0,
                ),
            )
        },
        BrowserCommand::NetworkList { url_filter, max, .. } => Some(
            command::value_outcome(
                JsonView::Object(
                    map![
                        "requests"@ => JsonView::Array(
                            network::last_entries(
                                network::matching(
                                    desk.network.of_tab(on),
                                    text::opt_view(url_filter),
                                ),
                                match max {
                                    Some(max) => max as nat,
                                    None => 100,
                                },
                            ),
                        ),
                    ],
                ),
                0,
            ),
        ),
        BrowserCommand::NetworkGetBody { request_id, body_kind, .. } => if text::opt_view(body_kind)
            == Some("request"@) {
            Some(
                command::value_outcome(
                    JsonView::Object(
                        map![
                            "requestId"@ => JsonView::Text(request_id@),
                            "body"@ => sent_body(
                                desk.network.of_tab(request_tab(request_id@)),
                                request_id@,
                            ),
                        ],
                    ),
                    0,
                ),
            )
        } else if desk.bodies@.contains_key(request_id@) {
            None
        } else {
            Some(
                command::failure(
                    "not_found"@,
                    "找不到请求 "@ + request_id@ + " 的响应体(可能已被清理或请求尚未完成)"@,
                    0,
                ),
            )
        },
        BrowserCommand::StartScreencast { .. } => if desk.registry@.screencast == Some(on) {
            Some(
                command::value_outcome(
                    JsonView::Object(map!["streaming"@ => JsonView::Bool(true)]),
                    0,
                ),
            )
        } else {
            None
        },
        _ => None,
    }
}

/// Whether a command works on one tab, named or in front.
pub open spec fn on_a_tab(asked: BrowserCommand) -> bool {
    !(asked is GetState) && !(asked is List) && !(asked is NewTab) && !(asked is Activate)
}

/// The tab that a command works on, or why it is refused.
pub open spec fn tab_for(asked: BrowserCommand, registry: RegistryView) -> Result<
    Seq<char>,
    Seq<char>,
> {
    match asked {
        BrowserCommand::NewTab { .. } => if registry.tabs.len() >= TAB_LIMIT {
            Err("标签页已达上限(32);先关闭不用的标签页"@)
        } else {
            Ok(Seq::empty())
        },
        BrowserCommand::Activate { tab_id } => if tabs::knows(registry, tab_id@) {
            Ok(tab_id@)
        } else {
            Err("tab 不存在: "@ + tab_id@)
        },
        _ => if on_a_tab(asked) {
            tabs::resolved(registry, command::named_tab(asked))
        } else {
            Ok(Seq::empty())
        },
    }
}

/// Why a command is refused, if it is.
pub open spec fn refusal(asked: BrowserCommand, registry: RegistryView) -> Option<Seq<char>> {
    match tab_for(asked, registry) {
        Ok(_) => refused(asked),
        Err(why) => Some(why),
    }
}

fn str_of(text: &Option<String>) -> (part: Option<&str>)
    ensures
        text::opt_str_view(part) == text::opt_view(*text),
{
    match text {
        Some(text) => Some(text.as_str()),
        None => None,
    }
}

fn target_of(reference: &Option<String>) -> (target: Option<String>)
    ensures
        text::opt_view(target) == target::picked(text::opt_view(*reference), None),
{
    match reference {
        Some(reference) => Some(normalize_target(reference.as_str())),
        None => None,
    }
}

fn measure_or(delta: &Option<Measure>, shown: &str, value: &str) -> (measure: Measure)
    ensures
        measure@ == turned(*delta, wheel_default(shown@, value@)),
{
    match delta {
        Some(delta) => delta.clone(),
        None => Measure { shown: shown.to_owned(), value: JsonNumber::Float(value.to_owned()) },
    }
}

fn copy_clip(clip: &Option<ClipRect>) -> (copy: Option<ClipRect>)
    ensures
        match (*clip, copy) {
            (Some(clip), Some(part)) => clip.x@ == part.x@ && clip.y@ == part.y@ && clip.width@
                == part.width@ && clip.height@ == part.height@,
            (None, None) => true,
            _ => false,
        },
{
    match clip {
        Some(clip) => Some(
            ClipRect {
                x: clip.x.clone(),
                y: clip.y.clone(),
                width: clip.width.clone(),
                height: clip.height.clone(),
            },
        ),
        None => None,
    }
}

fn info_script_text(x: &Measure, y: &Measure) -> (script: String)
    ensures
        script@ == info_script(x@.shown, y@.shown),
{
    cat5(
        "() => { const el = document.elementFromPoint(",
        x.shown.as_str(),
        ", ",
        y.shown.as_str(),
        "); if (!el) return null; const r = el.getBoundingClientRect(); return { tag: el.tagName, id: el.id, cls: el.className, text: (el.innerText||'').slice(0,200), rect: {x:r.x,y:r.y,width:r.width,height:r.height} }; }",
    )
}

fn text_script_text(text: &str, gone: bool) -> (script: String)
    ensures
        script@ == text_script(text@, gone),
{
    let escaped = escape_js_string(text);
    if gone {
        cat3(
            "() => !(document.body && document.body.innerText.includes('",
            escaped.as_str(),
            "'))",
        )
    } else {
        cat3(
            "() => document.body && document.body.innerText.includes('",
            escaped.as_str(),
            "')",
        )
    }
}

fn plan_place(asked: &BrowserCommand, tab: String) -> (work: Result<PageWork, String>)
    requires
        asked is Click || asked is Hover || asked is Drag || asked is WaitFor,
    ensures
        match work {
            Ok(work) => refused(*asked) is None && forall|registry: RegistryView, viewport: (u32, u32)|
                #[trigger] carries(work, *asked, tab@, registry, viewport),
            Err(why) => refused(*asked) == Some(why@),
        },
{
    match asked {
        BrowserCommand::Click { reference, locator, x, y, button, double_click, .. } => {
            match pick_target(str_of(reference), str_of(locator)) {
                Some(target) => Ok(
                    PageWork::ClickElement {
                        tab,
                        target,
                        button: parse_button(str_of(button)),
                        count: match double_click {
                            Some(true) => 2,
                            _ => 1,
                        },
                    },
                ),
                None => match (x, y) {
                    (Some(x), Some(y)) => Ok(PageWork::ClickAt { tab, x: x.clone(), y: y.clone() }),
                    _ => Err(CLICK_NEEDS.to_owned()),
                },
            }
        },
        BrowserCommand::Hover { reference, x, y, .. } => match reference {
            Some(reference) => Ok(
                PageWork::HoverElement { tab, target: normalize_target(reference.as_str()) },
            ),
            None => match (x, y) {
                (Some(x), Some(y)) => Ok(PageWork::HoverAt { tab, x: x.clone(), y: y.clone() }),
                _ => Err(HOVER_NEEDS.to_owned()),
            },
        },
        BrowserCommand::Drag { from_ref, to_ref, from, to, .. } => match (from_ref, to_ref) {
            (Some(from_ref), Some(to_ref)) => Ok(
                PageWork::DragElement {
                    tab,
                    from: normalize_target(from_ref.as_str()),
                    to: normalize_target(to_ref.as_str()),
                },
            ),
            _ => match (from, to) {
                (Some(from), Some(to)) => Ok(
                    PageWork::DragPoint { tab, from: from.clone(), to: to.clone() },
                ),
                _ => Err(DRAG_NEEDS.to_owned()),
            },
        },
        BrowserCommand::WaitFor { selector, text, text_gone, timeout_ms, .. } => {
            let limit: u64 = match timeout_ms {
                Some(ms) => *ms,
                None => DEFAULT_WAIT_MS,
            };
            if let Some(selector) = selector {
                return Ok(
                    PageWork::WaitElement { tab, selector: selector.clone(), timeout_ms: limit },
                );
            }
            if let Some(wanted) = text {
                return Ok(
                    PageWork::WaitText {
                        tab,
                        script: text_script_text(wanted.as_str(), false),
                        text: wanted.clone(),
                        gone: false,
                        timeout_ms: limit,
                    },
                );
            }
            match text_gone {
                Some(unwanted) => Ok(
                    PageWork::WaitText {
                        tab,
                        script: text_script_text(unwanted.as_str(), true),
                        text: unwanted.clone(),
                        gone: true,
                        timeout_ms: limit,
                    },
                ),
                None => Err(WAIT_NEEDS.to_owned()),
            }
        },
        _ => Err(String::new()),
    }
}

fn plan_input(asked: &BrowserCommand, tab: String) -> (work: Option<PageWork>)
    ensures
        match work {
            Some(work) => refused(*asked) is None && forall|registry: RegistryView, viewport: (
                u32,
                u32,
            )| #[trigger] carries(work, *asked, tab@, registry, viewport),
            None => !(asked is Fill) && !(asked is Type) && !(asked is Press) && !(asked is Scroll)
                && !(asked is Select) && !(asked is Check),
        },
{
    match asked {
        BrowserCommand::Fill { reference, value, .. } => Some(
            PageWork::FillIn {
                tab,
                target: normalize_target(reference.as_str()),
                value: value.clone(),
            },
        ),
        BrowserCommand::Type { reference, text, .. } => Some(
            PageWork::TypeText { tab, target: target_of(reference), text: text.clone() },
        ),
        BrowserCommand::Press { key, reference, .. } => Some(
            PageWork::PressKey { tab, target: target_of(reference), key: key.clone() },
        ),
        BrowserCommand::Scroll { reference, x, y, delta_x, delta_y, .. } => match reference {
            Some(reference) => Some(
                PageWork::ScrollTo { tab, target: normalize_target(reference.as_str()) },
            ),
            None => {
                let at = match (x, y) {
                    (Some(x), Some(y)) => Some(Point { x: x.clone(), y: y.clone() }),
                    _ => None,
                };
                Some(
                    PageWork::Wheel {
                        tab,
                        at,
                        dx: measure_or(delta_x, "0", "0.0"),
                        dy: measure_or(delta_y, "360", "360.0"),
                    },
                )
            },
        },
        BrowserCommand::Select { reference, values, .. } => {
            let chosen = values.clone();
            assert(chosen@ =~= values@);
            Some(
                PageWork::Choose {
                    tab,
                    target: normalize_target(reference.as_str()),
                    values: chosen,
                },
            )
        },
        BrowserCommand::Check { reference, checked, .. } => Some(
            PageWork::SetChecked {
                tab,
                target: normalize_target(reference.as_str()),
                checked: match checked {
                    Some(false) => false,
                    _ => true,
                },
            },
        ),
        _ => None,
    }
}

fn plan_view(asked: &BrowserCommand, tab: String, registry: &TabRegistry, viewport: (u32, u32)) -> (work:
    Option<PageWork>)
    ensures
        match work {
            Some(work) => refused(*asked) is None && carries(work, *asked, tab@, registry@, viewport),
            None => !(asked is Close) && !(asked is Navigate) && !(asked is Back)
                && !(asked is Forward) && !(asked is Reload) && !(asked is Snapshot)
                && !(asked is Screenshot) && !(asked is ElementInfo) && !(asked is Evaluate)
                && !(asked is HandleDialog) && !(asked is ViewportSet) && !(asked is ViewportReset)
                && !(asked is NetworkGetBody) && !(asked is StartScreencast)
                && !(asked is StopScreencast),
        },
{
    match asked {
        BrowserCommand::Close { .. } => {
            let stop_screencast = registry.is_screencast(tab.as_str());
            Some(PageWork::ClosePage { tab, stop_screencast })
        },
        BrowserCommand::Navigate { url, .. } => Some(PageWork::Goto { tab, url: url.clone() }),
        BrowserCommand::Back { .. } => Some(PageWork::GoBack { tab }),
        BrowserCommand::Forward { .. } => Some(PageWork::GoForward { tab }),
        BrowserCommand::Reload { .. } => Some(PageWork::Reload { tab }),
        BrowserCommand::Snapshot { max_elements, .. } => Some(
            PageWork::Elements { tab, max: *max_elements },
        ),
        BrowserCommand::Screenshot { full_page, clip, .. } => Some(
            PageWork::Picture {
                tab,
                full_page: match full_page {
                    Some(true) => true,
                    _ => false,
                },
                clip: copy_clip(clip),
            },
        ),
        BrowserCommand::ElementInfo { x, y, .. } => Some(
            PageWork::InfoScript { tab, script: info_script_text(x, y) },
        ),
        BrowserCommand::Evaluate { expression, .. } => Some(
            PageWork::RunScript { tab, script: expression.clone() },
        ),
        BrowserCommand::HandleDialog { accept, prompt_text, .. } => Some(
            PageWork::SettleDialog { tab, accept: *accept, prompt_text: prompt_text.clone() },
        ),
        BrowserCommand::ViewportSet { width, height, .. } => Some(
            PageWork::Resize { tab, width: *width, height: *height, reset: false },
        ),
        BrowserCommand::ViewportReset { .. } => Some(
            PageWork::Resize { tab, width: viewport.0, height: viewport.1, reset: true },
        ),
        BrowserCommand::NetworkGetBody { request_id, .. } => Some(
            PageWork::ReadBody { request_id: request_id.clone() },
        ),
        BrowserCommand::StartScreencast { .. } => {
            let stop_first = match registry.screencast_tab() {
                Some(other) => if registry.has_tab(other.as_str()) {
                    Some(other.clone())
                } else {
                    None
                },
                None => None,
            };
            Some(PageWork::StartPictures { tab, stop_first })
        },
        BrowserCommand::StopScreencast { .. } => Some(PageWork::StopPictures { tab }),
        _ => None,
    }
}

fn tab_of_request(request_id: &str) -> (tab: String)
    ensures
        tab@ == request_tab(request_id@),
{
    let chars = text::chars_of(request_id);
    let mark = text::chars_of("-r");
    proof {
        text::lemma_find_from(chars@, mark@, 0);
    }
    match text::find_chars(&chars, &mark, 0) {
        Some(at) => {
            assert(chars@.subrange(0, at as int) =~= chars@.take(at as int));
            text::slice_text(&chars, 0, at)
        },
        None => request_id.to_owned(),
    }
}

fn answer_directly(asked: &BrowserCommand, tab: &str, desk: &Desk) -> (outcome: Option<CommandOutcome>)
    ensures
        direct(*asked, tab@, *desk) == (match outcome {
            Some(outcome) => Some(outcome@),
            None => None::<OutcomeView>,
        }),
{
    match asked {
        BrowserCommand::GetState { .. } => {
            let mut value = object();
            value.insert("activeTabId", optional_text(desk.registry.active_tab()));
            value.insert("tabs", desk.registry.tab_list());
            Some(CommandOutcome::ok_value(value, 0))
        },
        BrowserCommand::List => Some(
            CommandOutcome::ok_value(object_of("tabs", desk.registry.tab_list()), 0),
        ),
        BrowserCommand::GetDialog { .. } => {
            let dialog = match desk.dialogs.get(tab) {
                Some(dialog) => dialog.clone(),
                None => Json::Null,
            };
            Some(CommandOutcome::ok_dialog(dialog, 0))
        },
        BrowserCommand::HandleDialog { .. } => {
            if desk.dialogs.get(tab).is_some() {
                return None;
            }
            let why = cat3("tab ", tab, " 没有挂起的弹窗(先 getDialog 确认)");
            Some(CommandOutcome::err("not_found", why.as_str(), 0))
        },
        BrowserCommand::NetworkList { url_filter, max, .. } => {
            let limit: u32 = match max {
                Some(max) => *max,
                None => 100,
            };
            let entries = desk.network.list(tab, str_of(url_filter), limit);
            Some(CommandOutcome::ok_value(object_of("requests", Json::array(entries)), 0))
        },
        BrowserCommand::NetworkGetBody { request_id, body_kind, .. } => {
            let id = request_id.as_str();
            let wants_request = match body_kind {
                Some(kind) => str_eq(kind.as_str(), "request"),
                None => false,
            };
            if wants_request {
                let body = match desk.network.entry(tab_of_request(id).as_str(), id) {
                    Some(entry) => match entry.get("postData") {
                        Some(data) => data.clone(),
                        None => Json::Null,
                    },
                    None => Json::Null,
                };
                let mut value = object();
                value.insert("requestId", Json::text(id));
                value.insert("body", body);
                return Some(CommandOutcome::ok_value(value, 0));
            }
            if desk.bodies.get(id).is_some() {
                return None;
            }
            let why = cat3("找不到请求 ", id, " 的响应体(可能已被清理或请求尚未完成)");
            Some(CommandOutcome::err("not_found", why.as_str(), 0))
        },
        BrowserCommand::StartScreencast { .. } => {
            if desk.registry.is_screencast(tab) {
                Some(CommandOutcome::ok_value(object_of("streaming", Json::Bool(true)), 0))
            } else {
                None
            }
        },
        _ => None,
    }
}

fn choose_tab(asked: &BrowserCommand, registry: &TabRegistry) -> (tab: Result<String, String>)
    ensures
        match tab {
            Ok(tab) => tab_for(*asked, registry@) == Ok::<_, Seq<char>>(tab@),
            Err(why) => tab_for(*asked, registry@) == Err::<Seq<char>, _>(why@),
        },
{
    match asked {
        BrowserCommand::NewTab { .. } => if registry.len() >= TAB_LIMIT {
            Err("标签页已达上限(32);先关闭不用的标签页".to_owned())
        } else {
            Ok(String::new())
        },
        BrowserCommand::Activate { tab_id } => if registry.has_tab(tab_id.as_str()) {
            Ok(tab_id.clone())
        } else {
            Err(cat2("tab 不存在: ", tab_id.as_str()))
        },
        BrowserCommand::GetState { .. } => Ok(String::new()),
        BrowserCommand::List => Ok(String::new()),
        _ => registry.resolve(asked.tab_id_probe()),
    }
}

/// What a command asks of a page, or what it comes to where no page is needed, or why it is refused.
pub fn plan(asked: &BrowserCommand, desk: &Desk) -> (planned: Result<Plan, String>)
    ensures
        match planned {
            Err(why) => refusal(*asked, desk.registry@) == Some(why@),
            Ok(Plan::Answer(outcome)) => refusal(*asked, desk.registry@) is None && direct(
                *asked,
                tab_for(*asked, desk.registry@)->Ok_0,
                *desk,
            ) == Some(outcome@),
            Ok(Plan::Work(work)) => {
                let on = tab_for(*asked, desk.registry@)->Ok_0;
                &&& refusal(*asked, desk.registry@) is None
                &&& direct(*asked, on, *desk) is None
                &&& carries(work, *asked, on, desk.registry@, desk.viewport)
            },
        },
{
    let tab = match choose_tab(asked, desk.registry) {
        Ok(tab) => tab,
        Err(why) => {
            return Err(why);
        },
    };
    if let Some(outcome) = answer_directly(asked, tab.as_str(), desk) {
        return Ok(Plan::Answer(outcome));
    }
    match asked {
        BrowserCommand::NewTab { url } => {
            let goes = match url {
                Some(url) => url.clone(),
                None => "about:blank".to_owned(),
            };
            return Ok(Plan::Work(PageWork::Open { url: goes }));
        },
        BrowserCommand::Activate { tab_id } => {
            return Ok(Plan::Work(PageWork::BringToFront { tab: tab_id.clone() }));
        },
        BrowserCommand::Click { .. } => {
            return planned_place(asked, tab, desk);
        },
        BrowserCommand::Hover { .. } => {
            return planned_place(asked, tab, desk);
        },
        BrowserCommand::Drag { .. } => {
            return planned_place(asked, tab, desk);
        },
        BrowserCommand::WaitFor { .. } => {
            return planned_place(asked, tab, desk);
        },
        _ => {},
    }
    if let Some(work) = plan_input(asked, tab.clone()) {
        return Ok(Plan::Work(work));
    }
    match plan_view(asked, tab, desk.registry, desk.viewport) {
        Some(work) => Ok(Plan::Work(work)),
        None => Err(String::new()),
    }
}

fn planned_place(asked: &BrowserCommand, tab: String, desk: &Desk) -> (planned: Result<Plan, String>)
    requires
        asked is Click || asked is Hover || asked is Drag || asked is WaitFor,
    ensures
        match planned {
            Err(why) => refused(*asked) == Some(why@),
            Ok(Plan::Answer(_)) => false,
            Ok(Plan::Work(work)) => refused(*asked) is None && carries(
                work,
                *asked,
                tab@,
                desk.registry@,
                desk.viewport,
            ),
        },
{
    match plan_place(asked, tab) {
        Ok(work) => Ok(Plan::Work(work)),
        Err(why) => Err(why),
    }
}

} // verus!
