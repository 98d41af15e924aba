//! The tabs of a browser: which there are, which is in front, and which sends its pictures.
use vstd::prelude::*;
use vstd::string::*;

use crate::json;
use crate::json::{object, Json, JsonNumber, JsonView};
use crate::text;
use crate::text::{cat2, cat3, decimal_text, str_eq};

verus! {

/// How many tabs there may be.
pub const TAB_LIMIT: usize = 32;

/// What is known of a tab.
#[derive(Debug, PartialEq)]
pub struct TabInfo {
    pub tab_id: String,
    pub url: String,
    pub title: String,
    /// When the tab was last worked on, in Unix epoch milliseconds.
    pub last_activity_ms: u64,
}

pub struct TabView {
    pub tab_id: Seq<char>,
    pub url: Seq<char>,
    pub title: Seq<char>,
    pub last_activity_ms: u64,
}

impl View for TabInfo {
    type V = TabView;

    open spec fn view(&self) -> TabView {
        TabView {
            tab_id: self.tab_id@,
            url: self.url@,
            title: self.title@,
            last_activity_ms: self.last_activity_ms,
        }
    }
}

/// The views of a list of tabs.
pub open spec fn tab_views(tabs: Seq<TabInfo>) -> Seq<TabView> {
    tabs.map_values(|tab: TabInfo| tab@)
}

/// The tabs of a browser.
#[derive(Debug)]
pub struct TabRegistry {
    tabs: Vec<TabInfo>,
    active_tab: Option<String>,
    /// How many ids were given out. No id is given out twice, so that an old reference never meets
    /// a new tab.
    next_tab_seq: u64,
    /// The tab that sends its pictures.
    screencast_tab: Option<String>,
}

#[verifier::ext_equal]
pub struct RegistryView {
    /// In the order in which they were opened.
    pub tabs: Seq<TabView>,
    pub active: Option<Seq<char>>,
    pub issued: nat,
    pub screencast: Option<Seq<char>>,
}

impl View for TabRegistry {
    type V = RegistryView;

    closed spec fn view(&self) -> RegistryView {
        RegistryView {
            tabs: tab_views(self.tabs@),
            active: text::opt_view(self.active_tab),
            issued: self.next_tab_seq as nat,
            screencast: text::opt_view(self.screencast_tab),
        }
    }
}

/// The id of the tab that was opened as the `n`th.
pub open spec fn tab_name(n: nat) -> Seq<char> {
    "t"@ + text::decimal(n)
}

/// Where a tab stands.
pub open spec fn tab_at(tabs: Seq<TabView>, tab_id: Seq<char>, from: int) -> Option<int>
    decreases tabs.len() - from,
{
    if from < 0 || from >= tabs.len() {
        None
    } else if tabs[from].tab_id == tab_id {
        Some(from)
    } else {
        tab_at(tabs, tab_id, from + 1)
    }
}

/// Whether there is a tab.
pub open spec fn knows(registry: RegistryView, tab_id: Seq<char>) -> bool {
    tab_at(registry.tabs, tab_id, 0) is Some
}

/// The tab in front: the one that was put there, or else the first.
pub open spec fn front(registry: RegistryView) -> Option<Seq<char>> {
    match registry.active {
        Some(tab_id) => if knows(registry, tab_id) {
            Some(tab_id)
        } else if registry.tabs.len() > 0 {
            Some(registry.tabs[0].tab_id)
        } else {
            None
        },
        None => if registry.tabs.len() > 0 {
            Some(registry.tabs[0].tab_id)
        } else {
            None
        },
    }
}

/// The tab that a command works on: the one that it names, or else the one in front; or why there
/// is none.
pub open spec fn resolved(registry: RegistryView, tab_id: Option<Seq<char>>) -> Result<
    Seq<char>,
    Seq<char>,
> {
    match tab_id {
        Some(tab_id) => if knows(registry, tab_id) {
            Ok(tab_id)
        } else {
            Err(
                "tab 不存在或已关闭: "@ + tab_id + "(用 tabs 查看当前标签页)"@,
            )
        },
        None => match front(registry) {
            Some(tab_id) => Ok(tab_id),
            None => Err("没有可用的标签页(先 open 一个页面)"@),
        },
    }
}

/// With one more tab.
pub open spec fn opened(registry: RegistryView, url: Seq<char>, title: Seq<char>, now_ms: u64) -> RegistryView {
    RegistryView {
        tabs: registry.tabs.push(
            TabView {
                tab_id: tab_name(registry.issued + 1),
                url,
                title,
                last_activity_ms: now_ms,
            },
        ),
        issued: registry.issued + 1,
        ..registry
    }
}

/// Without a tab. Where it was in front, the first of the others comes to the front.
pub open spec fn closed(registry: RegistryView, tab_id: Seq<char>) -> RegistryView {
    match tab_at(registry.tabs, tab_id, 0) {
        Some(at) => {
            let tabs = registry.tabs.remove(at);
            RegistryView {
                tabs,
                active: if registry.active == Some(tab_id) {
                    if tabs.len() > 0 {
                        Some(tabs[0].tab_id)
                    } else {
                        None
                    }
                } else {
                    registry.active
                },
                ..registry
            }
        },
        None => if registry.active == Some(tab_id) {
            RegistryView {
                active: if registry.tabs.len() > 0 {
                    Some(registry.tabs[0].tab_id)
                } else {
                    None
                },
                ..registry
            }
        } else {
            registry
        },
    }
}

/// With what a page says of itself.
pub open spec fn refreshed(
    registry: RegistryView,
    tab_id: Seq<char>,
    url: Seq<char>,
    title: Seq<char>,
    now_ms: u64,
) -> RegistryView {
    match tab_at(registry.tabs, tab_id, 0) {
        Some(at) => RegistryView {
            tabs: registry.tabs.update(
                at,
                TabView { tab_id, url, title, last_activity_ms: now_ms },
            ),
            ..registry
        },
        None => registry,
    }
}

/// A tab as it is listed.
pub open spec fn listed(tab: TabView, active: Option<Seq<char>>) -> JsonView {
    JsonView::Object(
        map![
            "tabId"@ => JsonView::Text(tab.tab_id),
            "url"@ => JsonView::Text(tab.url),
            "title"@ => JsonView::Text(tab.title),
            "active"@ => JsonView::Bool(active == Some(tab.tab_id)),
            "lastActivityMs"@ => json::whole(tab.last_activity_ms),
        ],
    )
}

/// The tabs as they are listed.
pub open spec fn listing(registry: RegistryView) -> JsonView {
    JsonView::Array(
        registry.tabs.map_values(|tab: TabView| listed(tab, registry.active)),
    )
}

/// A text or nothing, as JSON.
pub open spec fn text_or_null(text: Option<Seq<char>>) -> JsonView {
    match text {
        Some(text) => JsonView::Text(text),
        None => JsonView::Null,
    }
}

/// A text or nothing, as JSON.
pub fn optional_text(text: &Option<String>) -> (json: Json)
    ensures
        json@ == text_or_null(text::opt_view(*text)),
{
    match text {
        Some(text) => Json::Text(text.clone()),
        None => Json::Null,
    }
}

fn same_tab(tab: &Option<String>, tab_id: &str) -> (yes: bool)
    ensures
        yes == (text::opt_view(*tab) == Some(tab_id@)),
{
    match tab {
        Some(tab) => str_eq(tab.as_str(), tab_id),
        None => false,
    }
}

impl Default for TabRegistry {
    fn default() -> (registry: Self)
        ensures
            registry@ == (RegistryView {
                tabs: Seq::empty(),
                active: None,
                issued: 0,
                screencast: None,
            }),
    {
        let registry = TabRegistry {
            tabs: Vec::new(),
            active_tab: None,
            next_tab_seq: 0,
            screencast_tab: None,
        };
        assert(registry@.tabs =~= Seq::empty());
        registry
    }
}

impl TabRegistry {
    fn find(&self, tab_id: &str) -> (at: Option<usize>)
        ensures
            tab_at(self@.tabs, tab_id@, 0) == (match at {
                Some(at) => Some(at as int),
                None => None::<int>,
            }),
            at matches Some(at) ==> at < self.tabs@.len(),
    {
        let ghost all = self@.tabs;
        let mut i: usize = 0;
        while i < self.tabs.len()
            invariant
                i <= self.tabs@.len(),
                all == tab_views(self.tabs@),
                tab_at(all, tab_id@, 0) == tab_at(all, tab_id@, i as int),
            decreases self.tabs@.len() - i,
        {
            if str_eq(self.tabs[i].tab_id.as_str(), tab_id) {
                return Some(i);
            }
            i += 1;
        }
        None
    }

    /// How many tabs there are.
    pub fn len(&self) -> (count: usize)
        ensures
            count == self@.tabs.len(),
    {
        self.tabs.len()
    }

    /// Whether there is a tab.
    pub fn has_tab(&self, tab_id: &str) -> (yes: bool)
        ensures
            yes == knows(self@, tab_id@),
    {
        self.find(tab_id).is_some()
    }

    /// The tab that was put in front.
    pub fn active_tab(&self) -> (tab_id: &Option<String>)
        ensures
            text::opt_view(*tab_id) == self@.active,
    {
        &self.active_tab
    }

    /// The tab that sends its pictures.
    pub fn screencast_tab(&self) -> (tab_id: &Option<String>)
        ensures
            text::opt_view(*tab_id) == self@.screencast,
    {
        &self.screencast_tab
    }

    /// The tabs, in the order in which they were opened.
    pub fn tabs(&self) -> (tabs: &Vec<TabInfo>)
        ensures
            tab_views(tabs@) == self@.tabs,
    {
        &self.tabs
    }

    /// Whether there is an id left for a new tab.
    pub fn has_ids_left(&self) -> (yes: bool)
        ensures
            yes == (self@.issued < u64::MAX),
    {
        self.next_tab_seq < u64::MAX
    }

    /// Enters a new tab, and gives it an id that no tab had before.
    pub fn register(&mut self, url: String, title: String, now_ms: u64) -> (tab_id: String)
        requires
            old(self)@.issued < u64::MAX,
        ensures
            final(self)@ == opened(old(self)@, url@, title@, now_ms),
            tab_id@ == tab_name(old(self)@.issued + 1),
    {
        let ghost before = self@;
        self.next_tab_seq = self.next_tab_seq + 1;
        let tab_id = cat2("t", decimal_text(self.next_tab_seq).as_str());
        let info = TabInfo { tab_id: tab_id.clone(), url, title, last_activity_ms: now_ms };
        let ghost view = info@;
        self.tabs.push(info);
        assert(self@.tabs =~= before.tabs.push(view));
        tab_id
    }

    /// The tab that a command works on, or why there is none.
    pub fn resolve(&self, tab_id: Option<&str>) -> (found: Result<String, String>)
        ensures
            match found {
                Ok(found) => resolved(self@, text::opt_str_view(tab_id)) == Ok::<_, Seq<char>>(found@),
                Err(why) => resolved(self@, text::opt_str_view(tab_id)) == Err::<Seq<char>, _>(why@),
            },
    {
        match tab_id {
            Some(tab_id) => if self.has_tab(tab_id) {
                Ok(tab_id.to_owned())
            } else {
                Err(cat3("tab 不存在或已关闭: ", tab_id, "(用 tabs 查看当前标签页)"))
            },
            None => {
                if let Some(active) = &self.active_tab {
                    if self.has_tab(active.as_str()) {
                        return Ok(active.clone());
                    }
                }
                if self.tabs.len() > 0 {
                    assert(self@.tabs[0] == self.tabs@[0]@);
                    Ok(self.tabs[0].tab_id.clone())
                } else {
                    Err("没有可用的标签页(先 open 一个页面)".to_owned())
                }
            },
        }
    }

    /// Takes a tab out.
    pub fn unregister(&mut self, tab_id: &str)
        ensures
            final(self)@ == closed(old(self)@, tab_id@),
    {
        let ghost before = self@;
        if let Some(at) = self.find(tab_id) {
            let _gone: TabInfo = self.tabs.remove(at);
            assert(self@.tabs =~= before.tabs.remove(at as int));
        }
        if same_tab(&self.active_tab, tab_id) {
            self.active_tab = if self.tabs.len() > 0 {
                assert(self@.tabs[0] == self.tabs@[0]@);
                Some(self.tabs[0].tab_id.clone())
            } else {
                None
            };
        }
    }

    /// Takes up what a page says of itself.
    pub fn refresh_meta(&mut self, tab_id: &str, url: String, title: String, now_ms: u64)
        ensures
            final(self)@ == refreshed(old(self)@, tab_id@, url@, title@, now_ms),
    {
        let ghost before = self@;
        if let Some(at) = self.find(tab_id) {
            let info = TabInfo {
                tab_id: tab_id.to_owned(),
                url,
                title,
                last_activity_ms: now_ms,
            };
            let ghost view = info@;
            self.tabs.set(at, info);
            assert(self@.tabs =~= before.tabs.update(at as int, view));
        }
    }

    /// Puts a tab in front.
    pub fn set_active(&mut self, tab_id: &str)
        ensures
            final(self)@ == (RegistryView { active: Some(tab_id@), ..old(self)@ }),
    {
        self.active_tab = Some(tab_id.to_owned());
    }

    /// Says which tab sends its pictures.
    pub fn set_screencast(&mut self, tab_id: Option<String>)
        ensures
            final(self)@ == (RegistryView { screencast: text::opt_view(tab_id), ..old(self)@ }),
    {
        self.screencast_tab = tab_id;
    }

    /// Whether a tab is the one that sends its pictures.
    pub fn is_screencast(&self, tab_id: &str) -> (yes: bool)
        ensures
            yes == (self@.screencast == Some(tab_id@)),
    {
        same_tab(&self.screencast_tab, tab_id)
    }

    /// The tabs as they are listed.
    pub fn tab_list(&self) -> (list: Json)
        ensures
            list@ == listing(self@),
    {
        let ghost wanted = self@.tabs.map_values(|tab: TabView| listed(tab, self@.active));
        let mut items: Vec<Json> = Vec::new();
        let mut i: usize = 0;
        assert(json::trees(items@) =~= wanted.take(0));
        while i < self.tabs.len()
            invariant
                i <= self.tabs@.len(),
                wanted == self@.tabs.map_values(|tab: TabView| listed(tab, self@.active)),
                json::trees(items@) == wanted.take(i as int),
            decreases self.tabs@.len() - i,
        {
            let tab = &self.tabs[i];
            let mut item = object();
            item.insert("tabId", Json::Text(tab.tab_id.clone()));
            item.insert("url", Json::Text(tab.url.clone()));
            item.insert("title", Json::Text(tab.title.clone()));
            item.insert("active", Json::Bool(same_tab(&self.active_tab, tab.tab_id.as_str())));
            item.insert(
                "lastActivityMs",
                Json::Number(JsonNumber::Unsigned(tab.last_activity_ms)),
            );
            assert(item@ == wanted[i as int]);
            assert(json::trees(items@.push(item)) =~= json::trees(items@).push(item@));
            assert(wanted.take(i + 1) =~= wanted.take(i as int).push(wanted[i as int]));
            items.push(item);
            i += 1;
        }
        assert(wanted.take(wanted.len() as int) =~= wanted);
        Json::array(items)
    }
}

/// Every tab has an id that was given out, and no two tabs have the same.
pub open spec fn well_numbered(registry: RegistryView) -> bool {
    &&& forall|i: int|
        0 <= i < registry.tabs.len() ==> exists|n: nat|
            1 <= n <= registry.issued && (#[trigger] registry.tabs[i]).tab_id == #[trigger] tab_name(n)
    &&& forall|i: int, j: int|
        0 <= i < j < registry.tabs.len() ==> #[trigger] registry.tabs[i].tab_id
            != #[trigger] registry.tabs[j].tab_id
}

/// A new tab never has the id of a tab that there is or was, and the ids stay apart.
pub proof fn tab_ids_are_never_given_out_twice(
    registry: RegistryView,
    url: Seq<char>,
    title: Seq<char>,
    now_ms: u64,
    n: nat,
)
    requires
        well_numbered(registry),
        n <= registry.issued,
    ensures
        tab_name(registry.issued + 1) != tab_name(n),
        !knows(registry, tab_name(registry.issued + 1)),
        well_numbered(opened(registry, url, title, now_ms)),
{
    let fresh = tab_name(registry.issued + 1);
    assert forall|m: nat| m <= registry.issued implies #[trigger] tab_name(m) != fresh by {
        lemma_names_differ(m, registry.issued + 1);
    }
    lemma_tab_at(registry.tabs, fresh, 0);
    let after = opened(registry, url, title, now_ms);
    assert forall|i: int| 0 <= i < after.tabs.len() implies exists|n: nat|
        1 <= n <= after.issued && (#[trigger] after.tabs[i]).tab_id == #[trigger] tab_name(n) by {
        if i < registry.tabs.len() {
            let n = choose|n: nat|
                1 <= n <= registry.issued && registry.tabs[i].tab_id == #[trigger] tab_name(n);
            assert(after.tabs[i].tab_id == tab_name(n));
        } else {
            assert(after.tabs[i].tab_id == tab_name(registry.issued + 1));
        }
    }
}

proof fn lemma_names_differ(m: nat, n: nat)
    requires
        m != n,
    ensures
        tab_name(m) != tab_name(n),
{
    if tab_name(m) == tab_name(n) {
        let k = "t"@.len() as int;
        assert(tab_name(m).skip(k) =~= text::decimal(m));
        assert(tab_name(n).skip(k) =~= text::decimal(n));
        text::lemma_decimal_injective(m, n);
    }
}

proof fn lemma_tab_at(tabs: Seq<TabView>, tab_id: Seq<char>, from: int)
    requires
        0 <= from,
    ensures
        match tab_at(tabs, tab_id, from) {
            Some(at) => from <= at < tabs.len() && tabs[at].tab_id == tab_id,
            None => forall|i: int| from <= i < tabs.len() ==> tabs[i].tab_id != tab_id,
        },
    decreases tabs.len() - from,
{
    if from < tabs.len() && tabs[from].tab_id != tab_id {
        lemma_tab_at(tabs, tab_id, from + 1);
    }
}

/// A tab that was closed is gone, and the others stay.
pub proof fn closed_tab_is_gone(registry: RegistryView, tab_id: Seq<char>, other: Seq<char>)
    requires
        well_numbered(registry),
        other != tab_id,
    ensures
        !knows(closed(registry, tab_id), tab_id),
        knows(closed(registry, tab_id), other) == knows(registry, other),
        closed(registry, tab_id).active != Some(tab_id),
        well_numbered(closed(registry, tab_id)),
{
    let after = closed(registry, tab_id);
    lemma_tab_at(registry.tabs, tab_id, 0);
    lemma_tab_at(registry.tabs, other, 0);
    lemma_tab_at(after.tabs, tab_id, 0);
    lemma_tab_at(after.tabs, other, 0);
    match tab_at(registry.tabs, tab_id, 0) {
        Some(at) => {
            assert forall|i: int| 0 <= i < after.tabs.len() implies #[trigger] after.tabs[i]
                == registry.tabs[if i < at {
                i
            } else {
                i + 1
            }] by {}
            if let Some(k) = tab_at(registry.tabs, other, 0) {
                let i = if k < at {
                    k
                } else {
                    k - 1
                };
                assert(after.tabs[i].tab_id == other);
            }
            assert forall|i: int| 0 <= i < after.tabs.len() implies exists|n: nat|
                1 <= n <= after.issued && (#[trigger] after.tabs[i]).tab_id == #[trigger] tab_name(n) by {
                let k = if i < at {
                    i
                } else {
                    i + 1
                };
                let n = choose|n: nat|
                    1 <= n <= registry.issued && registry.tabs[k].tab_id == #[trigger] tab_name(n);
                assert(after.tabs[i].tab_id == tab_name(n));
            }
        },
        None => {},
    }
}

} // verus!
