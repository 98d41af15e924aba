//! The browser as a whole: whether it runs, its tabs, its dialogs and its traffic.
use vstd::prelude::*;
use vstd::string::*;

use crate::browser::network;
use crate::browser::network::NetworkLog;
use crate::browser::page::BrowserEvent;
use crate::browser::tabs;
use crate::browser::tabs::{optional_text, RegistryView, TabRegistry};
use crate::browser::traffic::Traffic;
use crate::json;
use crate::json::{object, Json, JsonView};
use crate::map::TextMap;
use crate::text;
use crate::text::{cat2, str_eq};

verus! {

/// A browser that runs.
pub struct Instance {
    /// Which start of the browser it came from.
    pub generation: u64,
    pub tabs: TabRegistry,
}

/// The browser as a whole.
pub struct BrowserManager {
    /// Where the browser keeps what is the user's.
    pub home_dir: String,
    /// The browser that runs, if one does.
    pub inner: Option<Instance>,
    /// How often the browser was started.
    pub starts: u64,
    /// The dialogs that wait for someone to settle them, tab by tab.
    pub dialogs: TextMap<Json>,
    pub network: NetworkLog,
    pub traffic: Traffic,
}

/// The tabs of a browser that has just started.
pub open spec fn no_tabs() -> RegistryView {
    RegistryView { tabs: Seq::empty(), active: None, issued: 0, screencast: None }
}

/// Whether a page that a browser starts with becomes a tab: one that shows nothing does not.
pub open spec fn restorable(url: Seq<char>) -> bool {
    url.len() > 0 && url != "about:blank"@
}

/// The tabs after the pages that a browser starts with: the first of them comes to the front.
pub open spec fn adopted(pages: Seq<(String, String)>, now_ms: u64) -> RegistryView
    decreases pages.len(),
{
    if pages.len() == 0 {
        no_tabs()
    } else {
        let before = adopted(pages.drop_last(), now_ms);
        let (url, title) = pages.last();
        if restorable(url@) {
            let after = tabs::opened(before, url@, title@, now_ms);
            RegistryView {
                active: if before.active is None {
                    Some(tabs::tab_name(after.issued))
                } else {
                    before.active
                },
                ..after
            }
        } else {
            before
        }
    }
}

/// The tabs of a browser that was given an empty page to start with.
pub open spec fn with_blank(registry: RegistryView, now_ms: u64) -> RegistryView {
    RegistryView {
        active: Some(tabs::tab_name(registry.issued + 1)),
        ..tabs::opened(registry, "about:blank"@, Seq::empty(), now_ms)
    }
}

/// The tabs that a browser starts with, and which pages they are.
pub struct Restored {
    pub tabs: TabRegistry,
    /// The id of the tab that each page became.
    pub ids: Vec<Option<String>>,
}

fn shows_something(url: &str) -> (yes: bool)
    ensures
        yes == restorable(url@),
{
    !url.is_empty() && !str_eq(url, "about:blank")
}

proof fn lemma_adopted_issued(pages: Seq<(String, String)>, now_ms: u64)
    ensures
        adopted(pages, now_ms).issued <= pages.len(),
        adopted(pages, now_ms).issued == adopted(pages, now_ms).tabs.len(),
    decreases pages.len(),
{
    if pages.len() > 0 {
        lemma_adopted_issued(pages.drop_last(), now_ms);
    }
}

/// The id that a page became, if it became a tab.
pub open spec fn page_tab(pages: Seq<(String, String)>, at: int, now_ms: u64) -> Option<Seq<char>> {
    if restorable(pages[at].0@) {
        Some(tabs::tab_name(adopted(pages.take(at + 1), now_ms).issued))
    } else {
        None
    }
}

/// Takes over the pages that a browser starts with, each with its address and its title.
pub fn restore_pages(pages: &Vec<(String, String)>, now_ms: u64) -> (restored: Restored)
    ensures
        restored.tabs@ == adopted(pages@, now_ms),
        restored.ids@.len() == pages@.len(),
        forall|i: int|
            0 <= i < pages@.len() ==> text::opt_view(#[trigger] restored.ids@[i]) == page_tab(
                pages@,
                i,
                now_ms,
            ),
{
    let mut registry = TabRegistry::default();
    let mut ids: Vec<Option<String>> = Vec::new();
    let mut i: usize = 0;
    assert(pages@.take(0) =~= Seq::empty());
    while i < pages.len()
        invariant
            i <= pages@.len(),
            registry@ == adopted(pages@.take(i as int), now_ms),
            ids@.len() == i,
            forall|j: int|
                0 <= j < i ==> text::opt_view(#[trigger] ids@[j]) == page_tab(pages@, j, now_ms),
        decreases pages@.len() - i,
    {
        proof {
            lemma_adopted_issued(pages@.take(i as int), now_ms);
            assert(pages@.take(i + 1).drop_last() =~= pages@.take(i as int));
        }
        let (url, title) = &pages[i];
        if shows_something(url.as_str()) {
            let first = registry.active_tab().is_none();
            let tab_id = registry.register(url.clone(), title.clone(), now_ms);
            if first {
                registry.set_active(tab_id.as_str());
            }
            ids.push(Some(tab_id));
        } else {
            ids.push(None);
        }
        i += 1;
    }
    assert(pages@.take(pages@.len() as int) =~= pages@);
    Restored { tabs: registry, ids }
}

/// Whether a browser needs an empty page to start with.
pub fn needs_blank(registry: &TabRegistry) -> (yes: bool)
    ensures
        yes == (registry@.tabs.len() == 0),
{
    registry.len() == 0
}

/// Takes over the empty page that a browser was given to start with.
pub fn open_blank(registry: &mut TabRegistry, now_ms: u64) -> (tab_id: String)
    requires
        old(registry)@.issued < u64::MAX,
    ensures
        final(registry)@ == with_blank(old(registry)@, now_ms),
        tab_id@ == tabs::tab_name(old(registry)@.issued + 1),
{
    let tab_id = registry.register("about:blank".to_owned(), String::new(), now_ms);
    registry.set_active(tab_id.as_str());
    tab_id
}

/// Why a browser has no page to start with.
pub fn blank_failure(error: &str) -> (why: String)
    ensures
        why@ == "创建初始标签页失败: "@ + error@,
{
    cat2("创建初始标签页失败: ", error)
}

/// A dialog as it is listed.
pub open spec fn listed_dialog(tab: Seq<char>, info: JsonView) -> JsonView {
    JsonView::Object(map!["tabId"@ => JsonView::Text(tab), "dialog"@ => info])
}

/// Whether a list names each dialog once.
pub open spec fn lists_dialogs(items: Seq<JsonView>, dialogs: Map<Seq<char>, Json>) -> bool {
    exists|keys: Seq<Seq<char>>| #[trigger]
        keys.no_duplicates() && keys.to_set() =~= dialogs.dom() && items == keys.map_values(
            |key: Seq<char>| listed_dialog(key, dialogs[key]@),
        )
}

/// The state of a browser that does not run.
pub open spec fn idle_state() -> JsonView {
    JsonView::Object(
        map![
            "running"@ => JsonView::Bool(false),
            "activeTabId"@ => JsonView::Null,
            "tabs"@ => JsonView::Array(Seq::empty()),
            "dialogs"@ => JsonView::Array(Seq::empty()),
        ],
    )
}

/// The state of a browser that runs.
pub open spec fn running_state(registry: RegistryView, dialogs: Seq<JsonView>) -> JsonView {
    JsonView::Object(
        map![
            "running"@ => JsonView::Bool(true),
            "activeTabId"@ => tabs::text_or_null(registry.active),
            "tabs"@ => tabs::listing(registry),
            "dialogs"@ => JsonView::Array(dialogs),
        ],
    )
}

fn list_dialogs(dialogs: &TextMap<Json>) -> (items: Vec<Json>)
    ensures
        lists_dialogs(json::trees(items@), dialogs@),
{
    let entries = dialogs.entries();
    let ghost keys = Seq::new(entries@.len(), |i: int| entries@[i].0@);
    let mut items: Vec<Json> = Vec::new();
    let mut i: usize = 0;
    assert(json::trees(items@) =~= keys.take(0).map_values(
        |key: Seq<char>| listed_dialog(key, dialogs@[key]@),
    ));
    while i < entries.len()
        invariant
            i <= entries@.len(),
            keys == Seq::new(entries@.len(), |i: int| entries@[i].0@),
            forall|i: int|
                0 <= i < entries@.len() ==> dialogs@.contains_key((#[trigger] entries@[i]).0@)
                    && dialogs@[entries@[i].0@] == entries@[i].1,
            json::trees(items@) == keys.take(i as int).map_values(
                |key: Seq<char>| listed_dialog(key, dialogs@[key]@),
            ),
        decreases entries@.len() - i,
    {
        let (tab, info) = &entries[i];
        let mut item = object();
        item.insert("tabId", Json::Text(tab.clone()));
        item.insert("dialog", info.clone());
        assert(item@ == listed_dialog(keys[i as int], dialogs@[keys[i as int]]@));
        proof {
            assert(json::trees(items@.push(item)) =~= json::trees(items@).push(item@));
            assert(keys.take(i + 1) =~= keys.take(i as int).push(keys[i as int]));
            assert(keys.take(i + 1).map_values(
                |key: Seq<char>| listed_dialog(key, dialogs@[key]@),
            ) =~= keys.take(i as int).map_values(
                |key: Seq<char>| listed_dialog(key, dialogs@[key]@),
            ).push(item@));
        }
        items.push(item);
        i += 1;
    }
    proof {
        assert(keys.take(keys.len() as int) =~= keys);
        assert(keys.no_duplicates());
        assert forall|key: Seq<char>| keys.to_set().contains(key) == #[trigger] dialogs@.dom().contains(
            key,
        ) by {
            if dialogs@.contains_key(key) {
                let i = choose|i: int| 0 <= i < entries@.len() && (#[trigger] entries@[i]).0@ == key;
                assert(keys[i] == key);
            }
        }
        assert(keys.to_set() =~= dialogs@.dom());
    }
    items
}

impl BrowserManager {
    /// A browser that was not started yet.
    pub fn new(home: &str) -> (manager: Self)
        ensures
            manager.home_dir@ == home@,
            manager.inner is None,
            manager.starts == 0,
            manager.dialogs@ == Map::<Seq<char>, Json>::empty(),
            forall|tab: Seq<char>| (#[trigger] manager.network.of_tab(tab)).len() == 0,
            manager.traffic.requests() == 0,
            manager.traffic.last_requests() == Map::<Seq<char>, String>::empty(),
            manager.traffic.readable() == Map::<Seq<char>, String>::empty(),
    {
        BrowserManager {
            home_dir: home.to_owned(),
            inner: None,
            starts: 0,
            dialogs: TextMap::new(),
            network: NetworkLog::default(),
            traffic: Traffic::default(),
        }
    }

    /// Where the browser keeps what is the user's.
    pub fn home(&self) -> (home: String)
        ensures
            home@ == self.home_dir@,
    {
        self.home_dir.clone()
    }

    /// Whether a browser runs.
    pub fn is_running(&self) -> (yes: bool)
        ensures
            yes == (self.inner is Some),
    {
        self.inner.is_some()
    }

    /// Counts one more start. No start has the number of another.
    pub fn next_generation(&mut self) -> (generation: u64)
        requires
            old(self).starts < u64::MAX,
        ensures
            generation == old(self).starts + 1,
            final(self).starts == generation,
            final(self).home_dir@ == old(self).home_dir@,
            final(self).inner == old(self).inner,
            final(self).dialogs == old(self).dialogs,
            final(self).network == old(self).network,
            final(self).traffic == old(self).traffic,
    {
        self.starts = self.starts + 1;
        self.starts
    }

    /// A browser has started: its tabs are told of.
    pub fn started(&mut self, generation: u64, tabs: TabRegistry) -> (event: BrowserEvent)
        ensures
            final(self).inner == Some(Instance { generation, tabs }),
            event is TabsChanged,
            final(self).starts == old(self).starts,
            final(self).home_dir@ == old(self).home_dir@,
            final(self).dialogs == old(self).dialogs,
            final(self).network == old(self).network,
            final(self).traffic == old(self).traffic,
    {
        self.inner = Some(Instance { generation, tabs });
        BrowserEvent::TabsChanged
    }

    /// A browser has ended. Where it is not the one that runs, nothing changes: an older end does
    /// not take a newer browser away.
    pub fn ended(&mut self, generation: u64) -> (event: Option<BrowserEvent>)
        ensures
            ({
                let own = old(self).inner matches Some(instance) && instance.generation
                    == generation;
                &&& own ==> final(self).inner is None && event == Some(BrowserEvent::Exited)
                &&& !own ==> final(self).inner == old(self).inner && event is None
            }),
            final(self).starts == old(self).starts,
            final(self).home_dir@ == old(self).home_dir@,
            final(self).dialogs == old(self).dialogs,
            final(self).network == old(self).network,
            final(self).traffic == old(self).traffic,
    {
        let own = match &self.inner {
            Some(instance) => instance.generation == generation,
            None => false,
        };
        if own {
            self.inner = None;
            Some(BrowserEvent::Exited)
        } else {
            None
        }
    }

    /// The dialog of a tab, which stays where it is.
    pub fn peek_dialog(&self, tab_id: &str) -> (info: Option<Json>)
        ensures
            match info {
                Some(info) => self.dialogs@.contains_key(tab_id@) && info@
                    == self.dialogs@[tab_id@]@,
                None => !self.dialogs@.contains_key(tab_id@),
            },
    {
        match self.dialogs.get(tab_id) {
            Some(info) => Some(info.clone()),
            None => None,
        }
    }

    /// Takes the dialog of a tab, to settle it.
    pub fn take_dialog(&mut self, tab_id: &str) -> (info: Option<Json>)
        ensures
            match info {
                Some(info) => old(self).dialogs@.contains_key(tab_id@) && info
                    == old(self).dialogs@[tab_id@],
                None => !old(self).dialogs@.contains_key(tab_id@),
            },
            final(self).dialogs@ == old(self).dialogs@.remove(tab_id@),
            final(self).inner == old(self).inner,
            final(self).starts == old(self).starts,
            final(self).home_dir@ == old(self).home_dir@,
            final(self).network == old(self).network,
            final(self).traffic == old(self).traffic,
    {
        self.dialogs.remove(tab_id)
    }

    /// Forgets the dialog of a tab.
    pub fn clear_dialog(&mut self, tab_id: &str)
        ensures
            final(self).dialogs@ == old(self).dialogs@.remove(tab_id@),
            final(self).inner == old(self).inner,
            final(self).starts == old(self).starts,
            final(self).home_dir@ == old(self).home_dir@,
            final(self).network == old(self).network,
            final(self).traffic == old(self).traffic,
    {
        let _gone = self.dialogs.remove(tab_id);
    }

    /// The requests of a tab, as [`NetworkLog::list`] gives them.
    pub fn network_list(&self, tab_id: &str, url_filter: Option<&str>, max: u32) -> (entries: Vec<Json>)
        ensures
            json::trees(entries@) == network::last_entries(
                network::matching(self.network.of_tab(tab_id@), text::opt_str_view(url_filter)),
                max as nat,
            ),
    {
        self.network.list(tab_id, url_filter, max)
    }

    /// What is known of a request of a tab.
    pub fn network_entry(&self, tab_id: &str, request_id: &str) -> (entry: Option<Json>)
        ensures
            match network::request_at(self.network.of_tab(tab_id@), request_id@, 0) {
                Some(at) => entry matches Some(entry) && entry@ == self.network.of_tab(
                    tab_id@,
                )[at].1,
                None => entry is None,
            },
    {
        self.network.entry(tab_id, request_id)
    }

    /// Forgets the requests of a tab.
    pub fn network_clear(&mut self, tab_id: &str)
        ensures
            final(self).network.of_tab(tab_id@).len() == 0,
            forall|other: Seq<char>|
                other != tab_id@ ==> #[trigger] final(self).network.of_tab(other)
                    == old(self).network.of_tab(other),
            final(self).inner == old(self).inner,
            final(self).starts == old(self).starts,
            final(self).home_dir@ == old(self).home_dir@,
            final(self).dialogs == old(self).dialogs,
            final(self).traffic == old(self).traffic,
    {
        self.network.clear(tab_id);
    }

    /// The model wants the browser to be seen.
    pub fn request_visual_mode(&self) -> (event: BrowserEvent)
        ensures
            event is VisualModeRequested,
    {
        BrowserEvent::VisualModeRequested
    }

    /// The state of the browser, as it is told.
    pub fn snapshot_state(&self) -> (state: Json)
        ensures
            match self.inner {
                Some(instance) => exists|items: Seq<JsonView>| #[trigger]
                    lists_dialogs(items, self.dialogs@) && state@ == running_state(
                        instance.tabs@,
                        items,
                    ),
                None => state@ == idle_state(),
            },
    {
        let mut state = object();
        match &self.inner {
            Some(instance) => {
                let items = list_dialogs(&self.dialogs);
                let ghost listed = json::trees(items@);
                state.insert("running", Json::Bool(true));
                state.insert("activeTabId", optional_text(instance.tabs.active_tab()));
                state.insert("tabs", instance.tabs.tab_list());
                state.insert("dialogs", Json::array(items));
                assert(lists_dialogs(listed, self.dialogs@));
                assert(state@ == running_state(instance.tabs@, listed));
            },
            None => {
                state.insert("running", Json::Bool(false));
                state.insert("activeTabId", Json::Null);
                let none: Vec<Json> = Vec::new();
                let empty: Vec<Json> = Vec::new();
                assert(json::trees(none@) =~= Seq::empty());
                assert(json::trees(empty@) =~= Seq::empty());
                state.insert("tabs", Json::array(none));
                state.insert("dialogs", Json::array(empty));
            },
        }
        state
    }
}

/// A browser starts with a tab in front, whatever pages it had before.
pub proof fn started_browser_has_a_tab(pages: Seq<(String, String)>, now_ms: u64)
    ensures
        ({
            let restored = adopted(pages, now_ms);
            let registry = if restored.tabs.len() == 0 {
                with_blank(restored, now_ms)
            } else {
                restored
            };
            &&& registry.active matches Some(tab_id) && tabs::knows(registry, tab_id)
            &&& tabs::resolved(registry, None) == Ok::<Seq<char>, Seq<char>>(registry.active->0)
        }),
{
    let restored = adopted(pages, now_ms);
    lemma_adopted_issued(pages, now_ms);
    lemma_adopted_active(pages, now_ms);
    if restored.tabs.len() == 0 {
        let registry = with_blank(restored, now_ms);
        assert(registry.tabs[0].tab_id == tabs::tab_name(1));
        assert(tabs::tab_at(registry.tabs, tabs::tab_name(1), 0) == Some(0int));
    }
}

proof fn lemma_adopted_active(pages: Seq<(String, String)>, now_ms: u64)
    ensures
        ({
            let registry = adopted(pages, now_ms);
            if registry.tabs.len() == 0 {
                registry.active is None
            } else {
                registry.active == Some(registry.tabs[0].tab_id)
            }
        }),
    decreases pages.len(),
{
    if pages.len() > 0 {
        lemma_adopted_active(pages.drop_last(), now_ms);
        lemma_adopted_issued(pages.drop_last(), now_ms);
    }
}

} // verus!
