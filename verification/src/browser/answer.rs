//! What the answer of a page comes to: the outcome of the command, the state of the tabs, and what
//! the watchers are told.
use vstd::prelude::*;
use vstd::string::*;
use vstd::utf8::*;

use crate::browser::bytes;
use crate::browser::bytes::{encode_base64, is_utf8, read_lossy};
use crate::browser::command;
use crate::browser::command::{CommandOutcome, Measure, OutcomeView};
use crate::browser::page::{BrowserEvent, FrameViewport, PageReply, PageWork};
use crate::browser::tabs;
use crate::browser::tabs::{RegistryView, TabRegistry};
use crate::browser::target;
use crate::browser::target::{error_code, is_text_body, limit_elements};
use crate::json;
use crate::json::{object, object_of, Json, JsonNumber, JsonView};
use crate::text;
use crate::text::{cat2, cat4};

verus! {

/// A failure that names what it was about.
pub open spec fn about(what: Seq<char>, place: Seq<char>, error: Seq<char>) -> Seq<char> {
    what + "("@ + place + "): "@ + error
}

/// A failure at a target, or at none.
pub open spec fn about_target(what: Seq<char>, target: Option<String>, error: Seq<char>) -> Seq<char> {
    match target {
        Some(target) => about(what, target@, error),
        None => what + ": "@ + error,
    }
}

/// Why work on a page failed, in words.
pub open spec fn failure_text(work: PageWork, error: Seq<char>) -> Seq<char> {
    match work {
        PageWork::Open { .. } => "导航失败: "@ + error,
        PageWork::ClosePage { .. } => "关闭标签页失败: "@ + error,
        PageWork::BringToFront { .. } => error,
        PageWork::Goto { .. } => "导航失败: "@ + error,
        PageWork::GoBack { .. } => "后退失败: "@ + error,
        PageWork::GoForward { .. } => "前进失败: "@ + error,
        PageWork::Reload { .. } => "刷新失败: "@ + error,
        PageWork::Elements { .. } => "生成页面快照失败: "@ + error,
        PageWork::Picture { .. } => "截图失败: "@ + error,
        PageWork::ClickElement { target, .. } => about("点击失败"@, target@, error),
        PageWork::ClickAt { x, y, .. } => about("点击失败"@, x@.shown + ","@ + y@.shown, error),
        PageWork::FillIn { target, .. } => about("填值失败"@, target@, error),
        PageWork::TypeText { target, .. } => about_target("输入失败"@, target, error),
        PageWork::PressKey { target, .. } => about_target("按键失败"@, target, error),
        PageWork::HoverElement { target, .. } => about("悬停失败"@, target@, error),
        PageWork::HoverAt { x, y, .. } => about("悬停失败"@, x@.shown + ","@ + y@.shown, error),
        PageWork::ScrollTo { target, .. } => about("滚动到元素失败"@, target@, error),
        PageWork::Wheel { .. } => "滚动失败: "@ + error,
        PageWork::Choose { target, .. } => about("选择失败"@, target@, error),
        PageWork::SetChecked { target, checked, .. } => about(
            if checked {
                "勾选失败"@
            } else {
                "取消勾选失败"@
            },
            target@,
            error,
        ),
        PageWork::DragElement { .. } => "拖拽失败: "@ + error,
        PageWork::DragPoint { .. } => "拖拽失败: "@ + error,
        PageWork::InfoScript { .. } => "取元素信息失败: "@ + error,
        PageWork::RunScript { .. } => "求值失败: "@ + error,
        PageWork::WaitElement { selector, .. } => about("等待选择器失败"@, selector@, error),
        PageWork::WaitText { text, gone, .. } => about(
            if gone {
                "等待文本消失失败"@
            } else {
                "等待文本失败"@
            },
            text@,
            error,
        ),
        PageWork::SettleDialog { accept, .. } => if accept {
            "接受弹窗失败: "@ + error
        } else {
            "关闭弹窗失败: "@ + error
        },
        PageWork::Resize { reset, .. } => if reset {
            "重置视口失败: "@ + error
        } else {
            "设置视口失败: "@ + error
        },
        PageWork::ReadBody { .. } => "取响应体失败: "@ + error,
        PageWork::StartPictures { .. } => "开启画面失败: "@ + error,
        PageWork::StopPictures { .. } => "停止画面失败: "@ + error,
    }
}

/// Why what comes before work on a page failed, in words.
pub open spec fn unready_text(work: PageWork, error: Seq<char>) -> Seq<char> {
    match work {
        PageWork::Open { .. } => "新建标签页失败: "@ + error,
        PageWork::Wheel { .. } => "移动鼠标失败: "@ + error,
        _ => failure_text(work, error),
    }
}

/// Why work on a page failed, if it did. A page that does not come to the front is no failure.
pub open spec fn failed(work: PageWork, reply: PageReply) -> Option<Seq<char>> {
    if work is BringToFront {
        None
    } else {
        match reply {
            PageReply::Failed(error) => Some(failure_text(work, error@)),
            PageReply::Unready(error) => Some(unready_text(work, error@)),
            _ => None,
        }
    }
}

fn at_target(what: &str, target: &str, error: &str) -> (text: String)
    ensures
        text@ == about(what@, target@, error@),
{
    let head = cat4(what, "(", target, "): ");
    cat2(head.as_str(), error)
}

fn at_optional(what: &str, target: &Option<String>, error: &str) -> (text: String)
    ensures
        text@ == about_target(what@, *target, error@),
{
    match target {
        Some(target) => at_target(what, target.as_str(), error),
        None => text::cat3(what, ": ", error),
    }
}

fn at_place(what: &str, x: &Measure, y: &Measure, error: &str) -> (text: String)
    ensures
        text@ == about(what@, x@.shown + ","@ + y@.shown, error@),
{
    let place = text::cat3(x.shown.as_str(), ",", y.shown.as_str());
    at_target(what, place.as_str(), error)
}

/// Why work on a page failed, in words.
pub fn describe_failure(work: &PageWork, error: &str) -> (text: String)
    ensures
        text@ == failure_text(*work, error@),
{
    match work {
        PageWork::Open { .. } => cat2("导航失败: ", error),
        PageWork::ClosePage { .. } => cat2("关闭标签页失败: ", error),
        PageWork::BringToFront { .. } => error.to_owned(),
        PageWork::Goto { .. } => cat2("导航失败: ", error),
        PageWork::GoBack { .. } => cat2("后退失败: ", error),
        PageWork::GoForward { .. } => cat2("前进失败: ", error),
        PageWork::Reload { .. } => cat2("刷新失败: ", error),
        PageWork::Elements { .. } => cat2("生成页面快照失败: ", error),
        PageWork::Picture { .. } => cat2("截图失败: ", error),
        PageWork::ClickElement { target, .. } => at_target("点击失败", target.as_str(), error),
        PageWork::ClickAt { x, y, .. } => at_place("点击失败", x, y, error),
        PageWork::FillIn { target, .. } => at_target("填值失败", target.as_str(), error),
        PageWork::TypeText { target, .. } => at_optional("输入失败", target, error),
        PageWork::PressKey { target, .. } => at_optional("按键失败", target, error),
        PageWork::HoverElement { target, .. } => at_target("悬停失败", target.as_str(), error),
        PageWork::HoverAt { x, y, .. } => at_place("悬停失败", x, y, error),
        PageWork::ScrollTo { target, .. } => at_target("滚动到元素失败", target.as_str(), error),
        PageWork::Wheel { .. } => cat2("滚动失败: ", error),
        PageWork::Choose { target, .. } => at_target("选择失败", target.as_str(), error),
        PageWork::SetChecked { target, checked, .. } => at_target(
            if *checked {
                "勾选失败"
            } else {
                "取消勾选失败"
            },
            target.as_str(),
            error,
        ),
        PageWork::DragElement { .. } => cat2("拖拽失败: ", error),
        PageWork::DragPoint { .. } => cat2("拖拽失败: ", error),
        PageWork::InfoScript { .. } => cat2("取元素信息失败: ", error),
        PageWork::RunScript { .. } => cat2("求值失败: ", error),
        PageWork::WaitElement { selector, .. } => at_target(
            "等待选择器失败",
            selector.as_str(),
            error,
        ),
        PageWork::WaitText { text, gone, .. } => at_target(
            if *gone {
                "等待文本消失失败"
            } else {
                "等待文本失败"
            },
            text.as_str(),
            error,
        ),
        PageWork::SettleDialog { accept, .. } => if *accept {
            cat2("接受弹窗失败: ", error)
        } else {
            cat2("关闭弹窗失败: ", error)
        },
        PageWork::Resize { reset, .. } => if *reset {
            cat2("重置视口失败: ", error)
        } else {
            cat2("设置视口失败: ", error)
        },
        PageWork::ReadBody { .. } => cat2("取响应体失败: ", error),
        PageWork::StartPictures { .. } => cat2("开启画面失败: ", error),
        PageWork::StopPictures { .. } => cat2("停止画面失败: ", error),
    }
}

fn describe_unready(work: &PageWork, error: &str) -> (text: String)
    ensures
        text@ == unready_text(*work, error@),
{
    match work {
        PageWork::Open { .. } => cat2("新建标签页失败: ", error),
        PageWork::Wheel { .. } => cat2("移动鼠标失败: ", error),
        _ => describe_failure(work, error),
    }
}

/// The status that a page went with.
pub open spec fn status_of(reply: PageReply) -> JsonView {
    match reply {
        PageReply::Moved { status: Some(status), .. } => json::whole(status as u64),
        _ => JsonView::Null,
    }
}

/// Where a page is.
pub open spec fn url_of(reply: PageReply) -> Seq<char> {
    match reply {
        PageReply::Moved { url, .. } => url@,
        PageReply::Read { url, .. } => url@,
        _ => Seq::empty(),
    }
}

/// The title of a page.
pub open spec fn title_of(reply: PageReply) -> Seq<char> {
    match reply {
        PageReply::Moved { title, .. } => title@,
        PageReply::Read { title, .. } => title@,
        _ => Seq::empty(),
    }
}

/// The elements of a page.
pub open spec fn elements_of(reply: PageReply) -> Seq<char> {
    match reply {
        PageReply::Read { elements, .. } => elements@,
        _ => Seq::empty(),
    }
}

/// What a script came to.
pub open spec fn value_of(reply: PageReply) -> JsonView {
    match reply {
        PageReply::Value(value) => value@,
        _ => JsonView::Null,
    }
}

/// A picture.
pub open spec fn picture_of(reply: PageReply) -> Seq<char> {
    match reply {
        PageReply::Picture(picture) => bytes::base64_text(picture@),
        _ => Seq::empty(),
    }
}

/// The values that were chosen.
pub open spec fn chosen_of(reply: PageReply) -> Seq<JsonView> {
    match reply {
        PageReply::Chosen(values) => values@.map_values(|value: String| JsonView::Text(value@)),
        _ => Seq::empty(),
    }
}

/// A body: as text where it is text, and else in base64.
pub open spec fn body_of(reply: PageReply) -> (Seq<char>, bool) {
    match reply {
        PageReply::Body { content_type, bytes } => if target::is_text_type(
            target::lowercased(content_type@),
            valid_utf8(bytes@),
        ) {
            (bytes::lossy_text(bytes@), false)
        } else {
            (bytes::base64_text(bytes@), true)
        },
        _ => (Seq::empty(), false),
    }
}

/// Whether the bytes of a reply can be written in base64.
pub open spec fn fits(reply: PageReply) -> bool {
    match reply {
        PageReply::Picture(picture) => picture@.len() <= usize::MAX / 2,
        PageReply::Body { bytes, .. } => bytes@.len() <= usize::MAX / 2,
        _ => true,
    }
}

/// One member with a text.
pub open spec fn told(key: Seq<char>, text: Seq<char>) -> JsonView {
    JsonView::Object(map![key => JsonView::Text(text)])
}

/// One member with a list of two.
pub open spec fn told_two(key: Seq<char>, first: JsonView, second: JsonView) -> JsonView {
    JsonView::Object(map![key => JsonView::Array(seq![first, second])])
}

/// How long a text is, in bytes.
pub open spec fn byte_len(text: Seq<char>) -> u64 {
    encode_utf8(text).len() as u64
}

/// What work on a page came to, where it did not fail.
pub open spec fn done(work: PageWork, reply: PageReply, registry: RegistryView) -> OutcomeView {
    match work {
        PageWork::Picture { .. } => command::image_outcome(picture_of(reply), "image/png"@, 0),
        _ => command::value_outcome(done_value(work, reply, registry), 0),
    }
}

/// The value that work on a page came to.
pub open spec fn done_value(work: PageWork, reply: PageReply, registry: RegistryView) -> JsonView {
    match work {
        PageWork::Open { url } => JsonView::Object(
            map![
                "tabId"@ => JsonView::Text(tabs::tab_name(registry.issued + 1)),
                "url"@ => JsonView::Text(url@),
                "title"@ => JsonView::Text(title_of(reply)),
            ],
        ),
        PageWork::ClosePage { tab, .. } => told("closed"@, tab@),
        PageWork::BringToFront { tab } => told("activeTabId"@, tab@),
        PageWork::Goto { url, .. } => JsonView::Object(
            map!["url"@ => JsonView::Text(url@), "status"@ => status_of(reply)],
        ),
        PageWork::GoBack { .. } => moved_value(reply),
        PageWork::GoForward { .. } => moved_value(reply),
        PageWork::Reload { .. } => moved_value(reply),
        PageWork::Elements { max, .. } => JsonView::Object(
            map![
                "url"@ => JsonView::Text(url_of(reply)),
                "title"@ => JsonView::Text(title_of(reply)),
                "elements"@ => JsonView::Text(target::limited(elements_of(reply), max).0),
                "truncated"@ => JsonView::Bool(target::limited(elements_of(reply), max).1),
            ],
        ),
        PageWork::Picture { .. } => JsonView::Null,
        PageWork::ClickElement { target, .. } => told("clicked"@, target@),
        PageWork::ClickAt { x, y, .. } => told_two(
            "clickedAt"@,
            JsonView::Number(x@.value),
            JsonView::Number(y@.value),
        ),
        PageWork::FillIn { target, .. } => told("filled"@, target@),
        PageWork::TypeText { text, .. } => JsonView::Object(
            map!["typed"@ => json::whole(byte_len(text@))],
        ),
        PageWork::PressKey { key, .. } => told("pressed"@, key@),
        PageWork::HoverElement { target, .. } => told("hovered"@, target@),
        PageWork::HoverAt { x, y, .. } => told_two(
            "hoveredAt"@,
            JsonView::Number(x@.value),
            JsonView::Number(y@.value),
        ),
        PageWork::ScrollTo { target, .. } => told("scrolledTo"@, target@),
        PageWork::Wheel { dx, dy, .. } => told_two(
            "scrolled"@,
            JsonView::Number(dx@.value),
            JsonView::Number(dy@.value),
        ),
        PageWork::Choose { .. } => JsonView::Object(
            map!["selected"@ => JsonView::Array(chosen_of(reply))],
        ),
        PageWork::SetChecked { target, .. } => told("checked"@, target@),
        PageWork::DragElement { from, to, .. } => told_two(
            "dragged"@,
            JsonView::Text(from@),
            JsonView::Text(to@),
        ),
        PageWork::DragPoint { .. } => JsonView::Object(map!["dragged"@ => JsonView::Bool(true)]),
        PageWork::InfoScript { .. } => value_of(reply),
        PageWork::RunScript { .. } => value_of(reply),
        PageWork::WaitElement { selector, .. } => told("found"@, selector@),
        PageWork::WaitText { text, gone, .. } => told(
            if gone {
                "textGone"@
            } else {
                "foundText"@
            },
            text@,
        ),
        PageWork::SettleDialog { accept, .. } => JsonView::Object(
            map!["accepted"@ => JsonView::Bool(accept)],
        ),
        PageWork::Resize { width, height, .. } => JsonView::Object(
            map!["width"@ => json::whole(width as u64), "height"@ => json::whole(height as u64)],
        ),
        PageWork::ReadBody { request_id } => body_value(
            request_id@,
            body_of(reply).0,
            body_of(reply).1,
        ),
        PageWork::StartPictures { .. } => JsonView::Object(
            map!["streaming"@ => JsonView::Bool(true)],
        ),
        PageWork::StopPictures { .. } => JsonView::Object(
            map!["streaming"@ => JsonView::Bool(false)],
        ),
    }
}

/// Where a page went.
pub open spec fn moved_value(reply: PageReply) -> JsonView {
    JsonView::Object(
        map!["url"@ => JsonView::Text(url_of(reply)), "status"@ => status_of(reply)],
    )
}

/// The tabs after work on a page. The pictures of a tab that is closed are stopped even where the
/// tab does not close.
pub open spec fn tabs_after(
    work: PageWork,
    reply: PageReply,
    registry: RegistryView,
    now_ms: u64,
) -> RegistryView {
    let fails = failed(work, reply) is Some;
    match work {
        PageWork::Open { url } => if fails {
            registry
        } else {
            RegistryView {
                active: Some(tabs::tab_name(registry.issued + 1)),
                ..tabs::opened(registry, url@, title_of(reply), now_ms)
            }
        },
        PageWork::ClosePage { tab, stop_screencast } => {
            let stopped = if stop_screencast {
                RegistryView { screencast: None, ..registry }
            } else {
                registry
            };
            if fails {
                stopped
            } else {
                tabs::closed(stopped, tab@)
            }
        },
        PageWork::BringToFront { tab } => RegistryView { active: Some(tab@), ..registry },
        PageWork::Goto { tab, .. } => seen_page(tab@, reply, registry, now_ms, fails),
        PageWork::GoBack { tab } => seen_page(tab@, reply, registry, now_ms, fails),
        PageWork::GoForward { tab } => seen_page(tab@, reply, registry, now_ms, fails),
        PageWork::Reload { tab } => seen_page(tab@, reply, registry, now_ms, fails),
        PageWork::Elements { tab, .. } => seen_page(tab@, reply, registry, now_ms, fails),
        PageWork::StartPictures { tab, .. } => if fails {
            registry
        } else {
            RegistryView { screencast: Some(tab@), ..registry }
        },
        PageWork::StopPictures { tab } => if !fails && registry.screencast == Some(tab@) {
            RegistryView { screencast: None, ..registry }
        } else {
            registry
        },
        _ => registry,
    }
}

/// The tabs after a page said where it is.
pub open spec fn seen_page(
    tab: Seq<char>,
    reply: PageReply,
    registry: RegistryView,
    now_ms: u64,
    fails: bool,
) -> RegistryView {
    if fails {
        registry
    } else {
        tabs::refreshed(registry, tab, url_of(reply), title_of(reply), now_ms)
    }
}

/// Whether an event is the one that the watchers are told of work on a page.
pub open spec fn announces(event: Option<BrowserEvent>, work: PageWork, reply: PageReply) -> bool {
    if failed(work, reply) is Some {
        event is None
    } else {
        match work {
            PageWork::Open { .. } => event matches Some(BrowserEvent::TabsChanged),
            PageWork::ClosePage { .. } => event matches Some(BrowserEvent::TabsChanged),
            PageWork::BringToFront { .. } => event matches Some(BrowserEvent::TabsChanged),
            PageWork::Goto { tab, url } => event matches Some(
                BrowserEvent::Navigated { tab_id, url: goes, title },
            ) && tab_id@ == tab@ && goes@ == url@ && title@.len() == 0,
            PageWork::SettleDialog { tab, .. } => event matches Some(
                BrowserEvent::DialogClosed { tab_id },
            ) && tab_id@ == tab@,
            _ => event is None,
        }
    }
}

/// What work on a page came to.
pub struct Finished {
    pub outcome: Result<CommandOutcome, String>,
    pub event: Option<BrowserEvent>,
}

fn text_member(key: &str, text: &str) -> (json: Json)
    ensures
        json@ == told(key@, text@),
{
    object_of(key, Json::text(text))
}

fn two_members(key: &str, first: Json, second: Json) -> (json: Json)
    ensures
        json@ == told_two(key@, first@, second@),
{
    let items: Vec<Json> = vec![first, second];
    assert(json::trees(items@) =~= seq![first@, second@]);
    object_of(key, Json::array(items))
}

fn number(n: u64) -> (json: Json)
    ensures
        json@ == json::whole(n),
{
    Json::Number(JsonNumber::Unsigned(n))
}

fn read_status(reply: &PageReply) -> (json: Json)
    ensures
        json@ == status_of(*reply),
{
    match reply {
        PageReply::Moved { status: Some(status), .. } => number(*status as u64),
        _ => Json::Null,
    }
}

fn read_url(reply: &PageReply) -> (url: String)
    ensures
        url@ == url_of(*reply),
{
    match reply {
        PageReply::Moved { url, .. } => url.clone(),
        PageReply::Read { url, .. } => url.clone(),
        _ => String::new(),
    }
}

fn read_title(reply: &PageReply) -> (title: String)
    ensures
        title@ == title_of(*reply),
{
    match reply {
        PageReply::Moved { title, .. } => title.clone(),
        PageReply::Read { title, .. } => title.clone(),
        _ => String::new(),
    }
}

fn moved_json(url: String, reply: &PageReply) -> (json: Json)
    ensures
        json@ == JsonView::Object(
            map!["url"@ => JsonView::Text(url@), "status"@ => status_of(*reply)],
        ),
{
    let mut json = object();
    json.insert("url", Json::Text(url));
    json.insert("status", read_status(reply));
    json
}

fn elements_json(max: Option<u32>, reply: &PageReply) -> (json: Json)
    ensures
        json@ == JsonView::Object(
            map![
                "url"@ => JsonView::Text(url_of(*reply)),
                "title"@ => JsonView::Text(title_of(*reply)),
                "elements"@ => JsonView::Text(target::limited(elements_of(*reply), max).0),
                "truncated"@ => JsonView::Bool(target::limited(elements_of(*reply), max).1),
            ],
        ),
{
    let elements = match reply {
        PageReply::Read { elements, .. } => elements.clone(),
        _ => String::new(),
    };
    let (kept, truncated) = limit_elements(elements, max);
    let mut json = object();
    json.insert("url", Json::Text(read_url(reply)));
    json.insert("title", Json::Text(read_title(reply)));
    json.insert("elements", Json::Text(kept));
    json.insert("truncated", Json::Bool(truncated));
    json
}

fn chosen_json(reply: &PageReply) -> (json: Json)
    ensures
        json@ == JsonView::Object(map!["selected"@ => JsonView::Array(chosen_of(*reply))]),
{
    let mut items: Vec<Json> = Vec::new();
    assert(json::trees(items@) =~= Seq::empty());
    if let PageReply::Chosen(values) = reply {
        let ghost wanted = chosen_of(*reply);
        let mut i: usize = 0;
        assert(json::trees(items@) =~= wanted.take(0));
        while i < values.len()
            invariant
                i <= values@.len(),
                wanted == values@.map_values(|value: String| JsonView::Text(value@)),
                json::trees(items@) == wanted.take(i as int),
            decreases values@.len() - i,
        {
            let item = Json::Text(values[i].clone());
            assert(json::trees(items@.push(item)) =~= json::trees(items@).push(item@));
            assert(wanted.take(i + 1) =~= wanted.take(i as int).push(wanted[i as int]));
            items.push(item);
            i += 1;
        }
        assert(wanted.take(wanted.len() as int) =~= wanted);
    }
    object_of("selected", Json::array(items))
}

/// A body as it is told.
pub open spec fn body_value(request_id: Seq<char>, body: Seq<char>, encoded: bool) -> JsonView {
    JsonView::Object(
        map![
            "requestId"@ => JsonView::Text(request_id),
            "body"@ => JsonView::Text(body),
            "base64Encoded"@ => JsonView::Bool(encoded),
        ],
    )
}

/// A body as it is told.
pub fn tell_body(request_id: &str, body: String, encoded: bool) -> (json: Json)
    ensures
        json@ == body_value(request_id@, body@, encoded),
{
    let mut json = object();
    json.insert("requestId", Json::text(request_id));
    json.insert("body", Json::Text(body));
    json.insert("base64Encoded", Json::Bool(encoded));
    json
}

fn body_json(request_id: &str, reply: &PageReply) -> (json: Json)
    requires
        fits(*reply),
    ensures
        json@ == body_value(request_id@, body_of(*reply).0, body_of(*reply).1),
{
    match reply {
        PageReply::Body { content_type, bytes } => {
            let is_text = is_text_body(content_type.as_str(), is_utf8(bytes));
            if is_text {
                tell_body(request_id, read_lossy(bytes), false)
            } else {
                tell_body(request_id, encode_base64(bytes), true)
            }
        },
        _ => tell_body(request_id, String::new(), false),
    }
}

fn value_json(reply: &PageReply) -> (json: Json)
    ensures
        json@ == value_of(*reply),
{
    match reply {
        PageReply::Value(value) => value.clone(),
        _ => Json::Null,
    }
}

fn size_json(width: u32, height: u32) -> (json: Json)
    ensures
        json@ == JsonView::Object(
            map!["width"@ => json::whole(width as u64), "height"@ => json::whole(height as u64)],
        ),
{
    let mut json = object();
    json.insert("width", number(width as u64));
    json.insert("height", number(height as u64));
    json
}

/// The value of work that leaves the tabs as they are.
fn plain_value(work: &PageWork, reply: &PageReply) -> (json: Json)
    requires
        !(work is Open),
        fits(*reply),
    ensures
        forall|registry: RegistryView| json@ == #[trigger] done_value(*work, *reply, registry),
{
    match work {
        PageWork::Open { .. } => Json::Null,
        PageWork::ClosePage { tab, .. } => text_member("closed", tab.as_str()),
        PageWork::BringToFront { tab } => text_member("activeTabId", tab.as_str()),
        PageWork::Goto { url, .. } => moved_json(url.clone(), reply),
        PageWork::GoBack { .. } => moved_json(read_url(reply), reply),
        PageWork::GoForward { .. } => moved_json(read_url(reply), reply),
        PageWork::Reload { .. } => moved_json(read_url(reply), reply),
        PageWork::Elements { max, .. } => elements_json(*max, reply),
        PageWork::Picture { .. } => Json::Null,
        PageWork::ClickElement { target, .. } => text_member("clicked", target.as_str()),
        PageWork::ClickAt { x, y, .. } => two_members("clickedAt", x.json(), y.json()),
        PageWork::FillIn { target, .. } => text_member("filled", target.as_str()),
        PageWork::TypeText { text, .. } => object_of("typed", number(text.as_str().as_bytes().len() as u64)),
        PageWork::PressKey { key, .. } => text_member("pressed", key.as_str()),
        PageWork::HoverElement { target, .. } => text_member("hovered", target.as_str()),
        PageWork::HoverAt { x, y, .. } => two_members("hoveredAt", x.json(), y.json()),
        PageWork::ScrollTo { target, .. } => text_member("scrolledTo", target.as_str()),
        PageWork::Wheel { dx, dy, .. } => two_members("scrolled", dx.json(), dy.json()),
        PageWork::Choose { .. } => chosen_json(reply),
        PageWork::SetChecked { target, .. } => text_member("checked", target.as_str()),
        PageWork::DragElement { from, to, .. } => two_members(
            "dragged",
            Json::text(from.as_str()),
            Json::text(to.as_str()),
        ),
        PageWork::DragPoint { .. } => object_of("dragged", Json::Bool(true)),
        PageWork::InfoScript { .. } => value_json(reply),
        PageWork::RunScript { .. } => value_json(reply),
        PageWork::WaitElement { selector, .. } => text_member("found", selector.as_str()),
        PageWork::WaitText { text, gone, .. } => text_member(
            if *gone {
                "textGone"
            } else {
                "foundText"
            },
            text.as_str(),
        ),
        PageWork::SettleDialog { accept, .. } => object_of("accepted", Json::Bool(*accept)),
        PageWork::Resize { width, height, .. } => size_json(*width, *height),
        PageWork::ReadBody { request_id } => body_json(request_id.as_str(), reply),
        PageWork::StartPictures { .. } => object_of("streaming", Json::Bool(true)),
        PageWork::StopPictures { .. } => object_of("streaming", Json::Bool(false)),
    }
}

fn find_failure(work: &PageWork, reply: &PageReply) -> (why: Option<String>)
    ensures
        text::opt_view(why) == failed(*work, *reply),
{
    if let PageWork::BringToFront { .. } = work {
        return None;
    }
    match reply {
        PageReply::Failed(error) => Some(describe_failure(work, error.as_str())),
        PageReply::Unready(error) => Some(describe_unready(work, error.as_str())),
        _ => None,
    }
}

fn update_tabs(
    work: &PageWork,
    reply: &PageReply,
    fails: bool,
    registry: &mut TabRegistry,
    now_ms: u64,
)
    requires
        fails == (failed(*work, *reply) is Some),
        !(work is Open),
    ensures
        final(registry)@ == tabs_after(*work, *reply, old(registry)@, now_ms),
{
    match work {
        PageWork::ClosePage { tab, stop_screencast } => {
            if *stop_screencast {
                registry.set_screencast(None);
            }
            if !fails {
                registry.unregister(tab.as_str());
            }
        },
        PageWork::BringToFront { tab } => registry.set_active(tab.as_str()),
        PageWork::Goto { tab, .. } => update_page(tab.as_str(), reply, fails, registry, now_ms),
        PageWork::GoBack { tab } => update_page(tab.as_str(), reply, fails, registry, now_ms),
        PageWork::GoForward { tab } => update_page(tab.as_str(), reply, fails, registry, now_ms),
        PageWork::Reload { tab } => update_page(tab.as_str(), reply, fails, registry, now_ms),
        PageWork::Elements { tab, .. } => update_page(tab.as_str(), reply, fails, registry, now_ms),
        PageWork::StartPictures { tab, .. } => {
            if !fails {
                registry.set_screencast(Some(tab.clone()));
            }
        },
        PageWork::StopPictures { tab } => {
            if !fails && registry.is_screencast(tab.as_str()) {
                registry.set_screencast(None);
            }
        },
        _ => {},
    }
}

fn update_page(tab: &str, reply: &PageReply, fails: bool, registry: &mut TabRegistry, now_ms: u64)
    ensures
        final(registry)@ == seen_page(tab@, *reply, old(registry)@, now_ms, fails),
{
    if !fails {
        registry.refresh_meta(tab, read_url(reply), read_title(reply), now_ms);
    }
}

fn announcement(work: &PageWork) -> (event: Option<BrowserEvent>)
    ensures
        forall|reply: PageReply|
            failed(*work, reply) is None ==> #[trigger] announces(event, *work, reply),
{
    match work {
        PageWork::Open { .. } => Some(BrowserEvent::TabsChanged),
        PageWork::ClosePage { .. } => Some(BrowserEvent::TabsChanged),
        PageWork::BringToFront { .. } => Some(BrowserEvent::TabsChanged),
        PageWork::Goto { tab, url } => Some(
            BrowserEvent::Navigated {
                tab_id: tab.clone(),
                url: url.clone(),
                title: String::new(),
            },
        ),
        PageWork::SettleDialog { tab, .. } => Some(
            BrowserEvent::DialogClosed { tab_id: tab.clone() },
        ),
        _ => None,
    }
}

/// What work on a page came to: the outcome or why it failed, and what the watchers are told. The
/// tabs are brought up to date.
pub fn finish(work: &PageWork, reply: &PageReply, registry: &mut TabRegistry, now_ms: u64) -> (finished:
    Finished)
    requires
        old(registry)@.issued < u64::MAX,
        fits(*reply),
    ensures
        final(registry)@ == tabs_after(*work, *reply, old(registry)@, now_ms),
        match finished.outcome {
            Ok(outcome) => failed(*work, *reply) is None && outcome@ == done(
                *work,
                *reply,
                old(registry)@,
            ),
            Err(why) => failed(*work, *reply) == Some(why@),
        },
        announces(finished.event, *work, *reply),
{
    let failure = find_failure(work, reply);
    if let PageWork::Open { url } = work {
        return match failure {
            Some(why) => Finished { outcome: Err(why), event: None },
            None => {
                let title = read_title(reply);
                let tab_id = registry.register(url.clone(), title.clone(), now_ms);
                registry.set_active(tab_id.as_str());
                let mut value = object();
                value.insert("tabId", Json::Text(tab_id));
                value.insert("url", Json::Text(url.clone()));
                value.insert("title", Json::Text(title));
                Finished {
                    outcome: Ok(CommandOutcome::ok_value(value, 0)),
                    event: announcement(work),
                }
            },
        };
    }
    update_tabs(work, reply, failure.is_some(), registry, now_ms);
    match failure {
        Some(why) => Finished { outcome: Err(why), event: None },
        None => {
            let outcome = match (work, reply) {
                (PageWork::Picture { .. }, PageReply::Picture(picture)) => CommandOutcome::ok_image(
                    encode_base64(picture),
                    "image/png",
                    0,
                ),
                (PageWork::Picture { .. }, _) => CommandOutcome::ok_image(
                    String::new(),
                    "image/png",
                    0,
                ),
                _ => CommandOutcome::ok_value(plain_value(work, reply), 0),
            };
            Finished { outcome: Ok(outcome), event: announcement(work) }
        },
    }
}

/// A picture of a tab, as the watchers are sent it.
pub fn frame_event(tab_id: &str, picture: &Vec<u8>, viewport: Option<FrameViewport>) -> (event:
    BrowserEvent)
    requires
        picture@.len() <= usize::MAX / 2,
    ensures
        event matches BrowserEvent::Frame { tab_id: tab, data, viewport: size } && tab@ == tab_id@
            && data@ == bytes::base64_text(picture@) && size == viewport,
{
    BrowserEvent::Frame { tab_id: tab_id.to_owned(), data: encode_base64(picture), viewport }
}

/// What a command came to that a dialog cut short: the dialog is told.
pub open spec fn interrupted(tab_id: Seq<char>, kind: Seq<char>, message: Seq<char>, elapsed_ms: u64) -> OutcomeView {
    command::value_outcome(
        JsonView::Object(
            map![
                "dialogOpened"@ => JsonView::Object(
                    map![
                        "tabId"@ => JsonView::Text(tab_id),
                        "type"@ => JsonView::Text(kind),
                        "message"@ => JsonView::Text(message),
                    ],
                ),
            ],
        ),
        elapsed_ms,
    )
}

/// What a command came to that a dialog cut short. `None` for the dialog says that the events broke
/// off.
pub fn interrupt(dialog: Option<(String, String, String)>, elapsed_ms: u64) -> (outcome: CommandOutcome)
    ensures
        outcome@ == (match dialog {
            Some((tab_id, kind, message)) => interrupted(tab_id@, kind@, message@, elapsed_ms),
            None => command::failure("command_failed"@, "事件流中断"@, elapsed_ms),
        }),
{
    match dialog {
        Some((tab_id, kind, message)) => {
            let mut inner = object();
            inner.insert("tabId", Json::Text(tab_id));
            inner.insert("type", Json::Text(kind));
            inner.insert("message", Json::Text(message));
            CommandOutcome::ok_value(object_of("dialogOpened", inner), elapsed_ms)
        },
        None => CommandOutcome::err("command_failed", "事件流中断", elapsed_ms),
    }
}

/// The outcome of a command, with the time that it took. A failure gets the code of its message.
pub fn conclude(result: Result<CommandOutcome, String>, elapsed_ms: u64) -> (outcome: CommandOutcome)
    ensures
        match result {
            Ok(done) => outcome@ == (OutcomeView { elapsed_ms, ..done@ }),
            Err(why) => outcome@ == command::failure(
                target::code_of(target::lowercased(why@), why@),
                why@,
                elapsed_ms,
            ),
        },
{
    match result {
        Ok(done) => {
            let mut outcome = done;
            outcome.elapsed_ms = elapsed_ms;
            outcome
        },
        Err(why) => CommandOutcome::err(error_code(why.as_str()), why.as_str(), elapsed_ms),
    }
}

/// The outcome of a command for which no browser could be started.
pub fn not_running(why: &str, elapsed_ms: u64) -> (outcome: CommandOutcome)
    ensures
        outcome@ == command::failure("not_running"@, why@, elapsed_ms),
{
    CommandOutcome::err("not_running", why, elapsed_ms)
}

/// No failure changes the tabs, except that a tab which was to be closed sends no more pictures.
pub proof fn failure_keeps_the_tabs(
    work: PageWork,
    reply: PageReply,
    registry: RegistryView,
    now_ms: u64,
)
    requires
        failed(work, reply) is Some,
    ensures
        tabs_after(work, reply, registry, now_ms).tabs == registry.tabs,
        tabs_after(work, reply, registry, now_ms).active == registry.active,
        tabs_after(work, reply, registry, now_ms).issued == registry.issued,
        !(work is ClosePage) ==> tabs_after(work, reply, registry, now_ms) == registry,
{
}

} // verus!
