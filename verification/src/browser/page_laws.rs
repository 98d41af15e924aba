//! What holds of the work that a command asks of a page.
use vstd::prelude::*;

use crate::browser::answer;
use crate::browser::command::BrowserCommand;
use crate::browser::page;
use crate::browser::page::{BrowserEvent, PageReply, PageWork};
use crate::browser::tab_laws;
use crate::browser::tabs;
use crate::browser::tabs::RegistryView;
use crate::browser::traffic;
use crate::text;
use crate::text_laws;

verus! {

/// Why work on a page failed is told in the words of the failure, whatever the work.
pub proof fn failure_keeps_its_words(work: PageWork, error: Seq<char>)
    ensures
        error.is_suffix_of(answer::failure_text(work, error)),
        error.is_suffix_of(answer::unready_text(work, error)),
{
    let a = answer::failure_text(work, error);
    let b = answer::unready_text(work, error);
    assert(error =~= a.subrange(a.len() - error.len(), a.len() as int));
    assert(error =~= b.subrange(b.len() - error.len(), b.len() as int));
}

/// Work fails where the page says so; bringing a tab to the front never does.
pub proof fn failed_work_is_told(work: PageWork, reply: PageReply)
    ensures
        answer::failed(work, reply) is Some <==> !(work is BringToFront) && (reply is Failed
            || reply is Unready),
{
}

/// The watchers are told that the tabs changed when one opens, closes or comes to the front, and
/// where a page goes. They are told nothing of what failed.
pub proof fn watchers_are_told(event: Option<BrowserEvent>, work: PageWork, reply: PageReply)
    requires
        answer::announces(event, work, reply),
    ensures
        (reply is Failed || reply is Unready) && !(work is BringToFront) ==> event is None,
        reply is Done && (work is Open || work is ClosePage || work is BringToFront) ==> event == Some(
            BrowserEvent::TabsChanged,
        ),
        reply is Moved && work is Goto ==> (event matches Some(BrowserEvent::Navigated { tab_id, url, .. })
            && tab_id@ == work->Goto_tab@ && url@ == work->Goto_url@),
        work is ClickElement || work is FillIn || work is Elements ==> event is None,
{
}

/// A tab that opens goes to the address asked for, or shows the blank page; no more than thirty-two
/// tabs are open at once.
pub proof fn tabs_are_limited(url: Option<String>, registry: RegistryView)
    ensures
        page::tab_for(BrowserCommand::NewTab { url }, registry) is Err <==> registry.tabs.len() >= 32,
{
}

/// A tab comes to the front by its name, if it is open.
pub proof fn open_tab_comes_to_the_front(tab_id: String, registry: RegistryView)
    ensures
        tab_laws::is_open(registry, tab_id@) ==> page::tab_for(
            BrowserCommand::Activate { tab_id },
            registry,
        ) == Ok::<Seq<char>, Seq<char>>(tab_id@),
        !tab_laws::is_open(registry, tab_id@) ==> (page::tab_for(
            BrowserCommand::Activate { tab_id },
            registry,
        ) matches Err(why) && text::has(why, tab_id@)),
{
    tab_laws::tab_that_is_meant(registry, tab_id@);
    assert(tabs::knows(registry, tab_id@) == tab_laws::is_open(registry, tab_id@));
    text_laws::part_of_a_text_occurs("tab 不存在: "@, tab_id@, Seq::empty());
    assert("tab 不存在: "@ + tab_id@ + Seq::<char>::empty() =~= "tab 不存在: "@ + tab_id@);
}

/// A request's name tells the tab that made it.
pub proof fn request_tells_its_tab(tab: Seq<char>, n: u64)
    requires
        !text::has(tab + "-"@, "-r"@),
    ensures
        page::request_tab(traffic::request_name(tab, n)) == tab,
{
    reveal_strlit("-");
    reveal_strlit("-r");
    let name = traffic::request_name(tab, n);
    let at = tab.len() as int;
    text::lemma_find_from(name, "-r"@, 0);
    assert(name.subrange(at, at + 2) =~= "-r"@);
    assert(text::occurs_at(name, "-r"@, at));
    let found = text::find_from(name, "-r"@, 0)->0;
    if found < at {
        let head = tab + "-"@;
        assert(head.subrange(found, found + 2) =~= name.subrange(found, found + 2));
        assert(text::occurs_at(head, "-r"@, found));
    }
    assert(name.take(at) =~= tab);
}

/// A box is checked unless it is to be cleared, and a click is one unless it is to be two.
pub proof fn work_is_what_is_asked_for(
    work: PageWork,
    asked: BrowserCommand,
    on: Seq<char>,
    registry: RegistryView,
    viewport: (u32, u32),
)
    requires
        page::carries(work, asked, on, registry, viewport),
    ensures
        asked matches BrowserCommand::Check { checked, .. } ==> (work matches PageWork::SetChecked {
            checked: sets,
            tab,
            ..
        } && tab@ == on && (sets <==> checked != Some(false))),
        asked matches BrowserCommand::Navigate { url, .. } ==> (work matches PageWork::Goto {
            url: goes,
            tab,
        } && tab@ == on && goes@ == url@),
        asked matches BrowserCommand::Click { reference: Some(_), double_click, .. } ==> (work
            matches PageWork::ClickElement { count, tab, .. } && tab@ == on && count == (if double_click
            == Some(true) {
            2u32
        } else {
            1
        })),
        asked matches BrowserCommand::Fill { value, .. } ==> (work matches PageWork::FillIn {
            value: filled,
            tab,
            ..
        } && tab@ == on && filled@ == value@),
        asked matches BrowserCommand::Type { text, .. } ==> (work matches PageWork::TypeText {
            text: typed,
            tab,
            ..
        } && tab@ == on && typed@ == text@),
        asked matches BrowserCommand::Press { key, .. } ==> (work matches PageWork::PressKey {
            key: pressed,
            tab,
            ..
        } && tab@ == on && pressed@ == key@),
        asked matches BrowserCommand::HandleDialog { accept, .. } ==> (work
            matches PageWork::SettleDialog { accept: accepts, tab, .. } && tab@ == on && accepts
            == accept),
        asked matches BrowserCommand::ViewportSet { width, height, .. } ==> (work
            matches PageWork::Resize { width: w, height: h, tab, .. } && tab@ == on && w == width && h
            == height),
        asked matches BrowserCommand::NewTab { url: Some(url) } ==> (work matches PageWork::Open {
            url: goes,
        } && goes@ == url@),
        asked matches BrowserCommand::Close { .. } ==> (work matches PageWork::ClosePage { tab, .. }
            && tab@ == on),
        asked matches BrowserCommand::Evaluate { expression, .. } ==> (work matches PageWork::RunScript {
            script,
            tab,
        } && tab@ == on && script@ == expression@),
        asked matches BrowserCommand::WaitFor { selector: Some(wanted), timeout_ms: Some(limit), .. }
            ==> (work matches PageWork::WaitElement { selector, timeout_ms, .. } && selector@ == wanted@
            && timeout_ms == limit),
        asked matches BrowserCommand::WaitFor { selector: None, text: Some(wanted), .. } ==> (work
            matches PageWork::WaitText { text: waits, gone, .. } && waits@ == wanted@ && !gone),
        asked matches BrowserCommand::WaitFor {
            selector: None,
            text: None,
            text_gone: Some(unwanted),
            ..
        } ==> (work matches PageWork::WaitText { text: waits, gone, .. } && waits@ == unwanted@ && gone),
{
}

/// A command that says too little is refused: a click without an element or a place, a wait for
/// nothing, a drag with one end.
pub proof fn too_little_is_refused(asked: BrowserCommand)
    ensures
        asked matches BrowserCommand::Click { reference, locator, x, y, .. } ==> (page::refused(asked)
            is Some <==> reference is None && locator is None && !(x is Some && y is Some)),
        asked matches BrowserCommand::Hover { reference, x, y, .. } ==> (page::refused(asked) is Some
            <==> reference is None && !(x is Some && y is Some)),
        asked matches BrowserCommand::Drag { from_ref, to_ref, from, to, .. } ==> (page::refused(asked)
            is Some <==> !(from_ref is Some && to_ref is Some) && !(from is Some && to is Some)),
        asked matches BrowserCommand::WaitFor { selector, text, text_gone, .. } ==> (page::refused(asked)
            is Some <==> selector is None && text is None && text_gone is None),
        asked is Navigate || asked is Fill || asked is Evaluate ==> page::refused(asked) is None,
{
}

} // verus!
