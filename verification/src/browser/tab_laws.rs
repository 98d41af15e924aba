//! What holds of the tabs of a browser and of the addresses that they may go to.
use vstd::prelude::*;

use crate::browser::engine;
use crate::browser::manager;
use crate::browser::tabs;
use crate::browser::tabs::{RegistryView, TabView};
use crate::json::{JsonView, NumberView};
use crate::text;

verus! {

/// A tab of this name is open.
pub open spec fn is_open(registry: RegistryView, tab_id: Seq<char>) -> bool {
    exists|i: int| 0 <= i < registry.tabs.len() && (#[trigger] registry.tabs[i]).tab_id == tab_id
}

/// The names of the tabs differ.
pub open spec fn have_own_names(tabs: Seq<TabView>) -> bool {
    forall|i: int, j: int|
        0 <= i < j < tabs.len() ==> (#[trigger] tabs[i]).tab_id != (#[trigger] tabs[j]).tab_id
}

proof fn lemma_found(tabs: Seq<TabView>, tab_id: Seq<char>, from: int)
    requires
        0 <= from,
    ensures
        match tabs::tab_at(tabs, tab_id, from) {
            Some(at) => from <= at < tabs.len() && tabs[at].tab_id == tab_id,
            None => forall|i: int| from <= i < tabs.len() ==> (#[trigger] tabs[i]).tab_id != tab_id,
        },
    decreases tabs.len() - from,
{
    if from < tabs.len() && tabs[from].tab_id != tab_id {
        lemma_found(tabs, tab_id, from + 1);
    }
}

/// A new tab stands behind the others, with its address and title, and under a name of its own.
/// The front tab stays the front one.
pub proof fn new_tab_is_the_last(registry: RegistryView, url: Seq<char>, title: Seq<char>, now_ms: u64)
    ensures
        ({
            let after = tabs::opened(registry, url, title, now_ms);
            let tab = after.tabs.last();
            &&& after.tabs == registry.tabs + seq![tab]
            &&& tab.url == url
            &&& tab.title == title
            &&& tab.last_activity_ms == now_ms
            &&& tab.tab_id == "t"@ + text::decimal(after.issued)
            &&& after.issued == registry.issued + 1
            &&& after.active == registry.active
            &&& after.screencast == registry.screencast
        }),
{
}

/// Closing a tab takes that one away and leaves the others in their order. Where it was the front
/// one, the first of the others comes to the front.
pub proof fn closing_takes_one_tab(registry: RegistryView, at: int)
    requires
        have_own_names(registry.tabs),
        0 <= at < registry.tabs.len(),
    ensures
        ({
            let tab_id = registry.tabs[at].tab_id;
            let after = tabs::closed(registry, tab_id);
            &&& after.tabs == registry.tabs.take(at) + registry.tabs.skip(at + 1)
            &&& registry.active != Some(tab_id) ==> after.active == registry.active
            &&& registry.active == Some(tab_id) && after.tabs.len() == 0 ==> after.active is None
            &&& registry.active == Some(tab_id) && after.tabs.len() > 0 ==> after.active == Some(
                after.tabs[0].tab_id,
            )
            &&& after.issued == registry.issued
            &&& after.screencast == registry.screencast
        }),
{
    lemma_found(registry.tabs, registry.tabs[at].tab_id, 0);
    assert(registry.tabs.remove(at) =~= registry.tabs.take(at) + registry.tabs.skip(at + 1));
}

/// A tab that is asked for by name is the one meant, if it is open. Without a name the front tab is
/// meant, or the first one where no open tab is in front.
pub proof fn tab_that_is_meant(registry: RegistryView, tab_id: Seq<char>)
    ensures
        is_open(registry, tab_id) ==> tabs::resolved(registry, Some(tab_id)) == Ok::<
            Seq<char>,
            Seq<char>,
        >(tab_id),
        !is_open(registry, tab_id) ==> (tabs::resolved(registry, Some(tab_id)) matches Err(why)
            && text::has(why, tab_id)),
        registry.active == Some(tab_id) && is_open(registry, tab_id) ==> tabs::resolved(
            registry,
            None,
        ) == Ok::<Seq<char>, Seq<char>>(tab_id),
        registry.active == Some(tab_id) && !is_open(registry, tab_id) && registry.tabs.len() > 0
            ==> tabs::resolved(registry, None) == Ok::<Seq<char>, Seq<char>>(
            registry.tabs[0].tab_id,
        ),
        registry.active is None && registry.tabs.len() > 0 ==> tabs::resolved(registry, None) == Ok::<
            Seq<char>,
            Seq<char>,
        >(registry.tabs[0].tab_id),
        registry.tabs.len() == 0 ==> tabs::resolved(registry, None) is Err,
{
    lemma_found(registry.tabs, tab_id, 0);
    if let Some(at) = tabs::tab_at(registry.tabs, tab_id, 0) {
        assert(registry.tabs[at].tab_id == tab_id);
    } else {
        let head = "tab 不存在或已关闭: "@;
        let tail = "(用 tabs 查看当前标签页)"@;
        let why = head + tab_id + tail;
        let from = head.len() as int;
        assert(why.subrange(from, from + tab_id.len()) =~= tab_id);
        assert(text::occurs_at(why, tab_id, from));
    }
    if registry.tabs.len() == 0 && registry.active is Some {
        lemma_found(registry.tabs, registry.active->0, 0);
    }
}

/// What a page says of itself is kept with its tab, and nothing else changes.
pub proof fn page_is_told_of_its_tab(
    registry: RegistryView,
    at: int,
    url: Seq<char>,
    title: Seq<char>,
    now_ms: u64,
    other: Seq<char>,
)
    requires
        have_own_names(registry.tabs),
        0 <= at < registry.tabs.len(),
        !is_open(registry, other),
    ensures
        ({
            let after = tabs::refreshed(registry, registry.tabs[at].tab_id, url, title, now_ms);
            &&& after.tabs.len() == registry.tabs.len()
            &&& after.tabs[at].tab_id == registry.tabs[at].tab_id
            &&& after.tabs[at].url == url
            &&& after.tabs[at].title == title
            &&& after.tabs[at].last_activity_ms == now_ms
            &&& forall|i: int|
                0 <= i < registry.tabs.len() && i != at ==> #[trigger] after.tabs[i]
                    == registry.tabs[i]
            &&& after.active == registry.active
            &&& after.issued == registry.issued
            &&& after.screencast == registry.screencast
        }),
        tabs::refreshed(registry, other, url, title, now_ms) == registry,
{
    lemma_found(registry.tabs, registry.tabs[at].tab_id, 0);
    lemma_found(registry.tabs, other, 0);
}

/// A list of the tabs tells of each one, in their order, and which one is in front.
pub proof fn every_tab_is_listed(registry: RegistryView, i: int)
    requires
        0 <= i < registry.tabs.len(),
    ensures
        tabs::listing(registry) matches JsonView::Array(items) && {
            &&& items.len() == registry.tabs.len()
            &&& items[i] matches JsonView::Object(tab) && {
                &&& tab["tabId"@] == JsonView::Text(registry.tabs[i].tab_id)
                &&& tab["url"@] == JsonView::Text(registry.tabs[i].url)
                &&& tab["title"@] == JsonView::Text(registry.tabs[i].title)
                &&& tab["active"@] == JsonView::Bool(
                    registry.active == Some(registry.tabs[i].tab_id),
                )
                &&& tab["lastActivityMs"@] == JsonView::Number(
                    NumberView::Unsigned(registry.tabs[i].last_activity_ms),
                )
            }
        },
{
    reveal_strlit("tabId");
    reveal_strlit("url");
    reveal_strlit("title");
    reveal_strlit("active");
    reveal_strlit("lastActivityMs");
    assert("tabId"@[0] != "title"@[0] || "tabId"@[1] != "title"@[1]);
    assert("url"@[0] != "title"@[0]);
    assert("active"@[0] != "title"@[0]);
    assert("lastActivityMs"@[0] != "title"@[0]);
    assert("tabId"@[0] != "url"@[0]);
    assert("tabId"@[0] != "active"@[0]);
    assert("tabId"@[0] != "lastActivityMs"@[0]);
    assert("url"@[0] != "active"@[0]);
    assert("url"@[0] != "lastActivityMs"@[0]);
    assert("active"@[0] != "lastActivityMs"@[0]);
}

/// The pages of an earlier time become tabs, each with its address and title and in their order,
/// but for those that show nothing. The first of them is in front.
pub proof fn pages_become_tabs(pages: Seq<(String, String)>, page: (String, String), now_ms: u64)
    ensures
        ({
            let before = manager::adopted(pages, now_ms);
            let after = manager::adopted(pages.push(page), now_ms);
            let shows = page.0@.len() > 0 && page.0@ != "about:blank"@;
            &&& !shows ==> after == before
            &&& shows ==> {
                &&& after.tabs.drop_last() == before.tabs
                &&& after.tabs.len() == before.tabs.len() + 1
                &&& after.tabs.last().url == page.0@
                &&& after.tabs.last().title == page.1@
                &&& after.tabs.last().last_activity_ms == now_ms
            }
        }),
        manager::adopted(Seq::empty(), now_ms).tabs.len() == 0,
        manager::adopted(pages, now_ms).tabs.len() == 0 ==> manager::adopted(pages, now_ms).active
            is None,
        manager::adopted(pages, now_ms).tabs.len() > 0 ==> manager::adopted(pages, now_ms).active
            == Some(manager::adopted(pages, now_ms).tabs[0].tab_id),
{
    assert(pages.push(page).drop_last() =~= pages);
    let before = manager::adopted(pages, now_ms);
    let after = manager::adopted(pages.push(page), now_ms);
    if page.0@.len() > 0 && page.0@ != "about:blank"@ {
        assert(after.tabs.drop_last() =~= before.tabs);
    }
    lemma_first_in_front(pages, now_ms);
}

proof fn lemma_first_in_front(pages: Seq<(String, String)>, now_ms: u64)
    ensures
        ({
            let registry = manager::adopted(pages, now_ms);
            &&& registry.tabs.len() == 0 ==> registry.active is None
            &&& registry.tabs.len() > 0 ==> registry.active == Some(registry.tabs[0].tab_id)
        }),
    decreases pages.len(),
{
    if pages.len() > 0 {
        lemma_first_in_front(pages.drop_last(), now_ms);
    }
}

/// A page of the web may be gone to, and the blank page, and nothing else.
pub proof fn web_pages_are_allowed(url: Seq<char>)
    ensures
        engine::is_allowed(url) == (url == "about:blank"@ || "http:"@.is_prefix_of(url)
            || "https:"@.is_prefix_of(url)),
{
    reveal_strlit("http");
    reveal_strlit("https");
    reveal_strlit("http:");
    reveal_strlit("https:");
    text::lemma_char_from(url, ':', 0);
    if "http:"@.is_prefix_of(url) {
        lemma_starts(url, "http:"@);
        assert(url.take(4) =~= "http"@);
        lemma_scheme(url, 4);
    }
    if "https:"@.is_prefix_of(url) {
        lemma_starts(url, "https:"@);
        assert(url.take(5) =~= "https"@);
        lemma_scheme(url, 5);
    }
    if engine::scheme_of(url) == Some("http"@) {
        let at = text::char_from(url, ':', 0)->0;
        assert(url.take(at).len() == 4);
        assert forall|i: int| 0 <= i < 4 implies url[i] == "http"@[i] by {
            assert(url.take(at)[i] == url[i]);
        }
        assert("http:"@ =~= url.subrange(0, 5));
    }
    if engine::scheme_of(url) == Some("https"@) {
        let at = text::char_from(url, ':', 0)->0;
        assert(url.take(at).len() == 5);
        assert forall|i: int| 0 <= i < 5 implies url[i] == "https"@[i] by {
            assert(url.take(at)[i] == url[i]);
        }
        assert("https:"@ =~= url.subrange(0, 6));
    }
}

proof fn lemma_starts(url: Seq<char>, head: Seq<char>)
    requires
        head.is_prefix_of(url),
    ensures
        head.len() <= url.len(),
        forall|i: int| 0 <= i < head.len() ==> #[trigger] url[i] == head[i],
{
    assert forall|i: int| 0 <= i < head.len() implies #[trigger] url[i] == head[i] by {
        assert(url.subrange(0, head.len() as int)[i] == url[i]);
    }
}

proof fn lemma_scheme(url: Seq<char>, at: int)
    requires
        0 < at < url.len(),
        url[at] == ':',
        forall|i: int| 0 <= i < at ==> 'a' <= #[trigger] url[i] <= 'z',
    ensures
        engine::scheme_of(url) == Some(url.take(at)),
{
    text::lemma_char_from(url, ':', 0);
    assert(text::char_from(url, ':', 0) == Some(at));
    let scheme = url.take(at);
    assert forall|i: int| 0 <= i < scheme.len() implies engine::in_scheme(#[trigger] scheme[i]) by {
        assert(scheme[i] == url[i]);
    }
    assert(scheme[0] == url[0]);
}

/// A wait lasts as long as was asked for, up to a minute, and ten seconds where nothing was said.
pub proof fn wait_is_bounded(timeout_ms: u64)
    ensures
        timeout_ms <= 60_000 ==> engine::wait_budget(Some(timeout_ms)) == timeout_ms,
        timeout_ms >= 60_000 ==> engine::wait_budget(Some(timeout_ms)) == 60_000,
        engine::wait_budget(None) == 10_000,
{
}

} // verus!
