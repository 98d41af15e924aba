//! What the network did: the last requests of each tab.
use vstd::prelude::*;
use vstd::string::*;

use crate::json;
use crate::json::{Json, JsonView};
use crate::text;
use crate::text::{contains, str_eq};

verus! {

/// How many requests of a tab are kept.
pub const NETWORK_LOG_CAP: usize = 200;

/// A request: its id and what is known of it.
pub struct Request {
    id: String,
    entry: Json,
}

/// The requests of a tab, the oldest first.
pub struct TabRequests {
    tab: String,
    requests: Vec<Request>,
}

/// The last requests of each tab.
pub struct NetworkLog {
    tabs: Vec<TabRequests>,
}

/// A request as it is seen: its id and what is known of it.
pub type RequestView = (Seq<char>, JsonView);

pub closed spec fn request_views(requests: Seq<Request>) -> Seq<RequestView> {
    requests.map_values(|request: Request| (request.id@, request.entry@))
}

/// The requests of the first list of a tab.
pub closed spec fn first_of(tabs: Seq<TabRequests>, tab: Seq<char>, from: int) -> Seq<RequestView>
    decreases tabs.len() - from,
{
    if from < 0 || from >= tabs.len() {
        Seq::empty()
    } else if tabs[from].tab@ == tab {
        request_views(tabs[from].requests@)
    } else {
        first_of(tabs, tab, from + 1)
    }
}

/// Where a request stands.
pub open spec fn request_at(requests: Seq<RequestView>, id: Seq<char>, from: int) -> Option<int>
    decreases requests.len() - from,
{
    if from < 0 || from >= requests.len() {
        None
    } else if requests[from].0 == id {
        Some(from)
    } else {
        request_at(requests, id, from + 1)
    }
}

/// What is known of a request after one more event: what the event says, where it says something.
pub open spec fn combined(known: JsonView, event: JsonView) -> JsonView {
    match (known, event) {
        (JsonView::Object(known), JsonView::Object(event)) => JsonView::Object(
            json::merged(known, event),
        ),
        _ => known,
    }
}

/// The requests of a tab after one more event, before the oldest are dropped.
pub open spec fn with_event(requests: Seq<RequestView>, id: Seq<char>, event: JsonView) -> Seq<
    RequestView,
> {
    match request_at(requests, id, 0) {
        Some(at) => requests.update(at, (id, combined(requests[at].1, event))),
        None => requests.push((id, event)),
    }
}

/// The last requests of a list.
pub open spec fn latest(requests: Seq<RequestView>, count: nat) -> Seq<RequestView> {
    if requests.len() > count {
        requests.skip(requests.len() - count)
    } else {
        requests
    }
}

/// The requests of a tab after one more event.
pub open spec fn recorded(requests: Seq<RequestView>, id: Seq<char>, event: JsonView) -> Seq<
    RequestView,
> {
    latest(with_event(requests, id, event), NETWORK_LOG_CAP as nat)
}

/// The requests whose address holds a text.
pub open spec fn matching(requests: Seq<RequestView>, filter: Option<Seq<char>>) -> Seq<JsonView>
    decreases requests.len(),
{
    if requests.len() == 0 {
        Seq::empty()
    } else {
        let before = matching(requests.drop_last(), filter);
        let entry = requests.last().1;
        if filter matches Some(part) && !text::has(json::text_or(entry, "url"@, ""@), part) {
            before
        } else {
            before.push(entry)
        }
    }
}

/// The last of a list of entries.
pub open spec fn last_entries(entries: Seq<JsonView>, count: nat) -> Seq<JsonView> {
    if entries.len() > count {
        entries.skip(entries.len() - count)
    } else {
        entries
    }
}

impl Default for NetworkLog {
    fn default() -> (log: Self)
        ensures
            forall|tab: Seq<char>| #[trigger] log.of_tab(tab) == Seq::<RequestView>::empty(),
    {
        NetworkLog { tabs: Vec::new() }
    }
}

proof fn lemma_other_tab(before: Seq<TabRequests>, after: Seq<TabRequests>, at: int, other: Seq<char>, from: int)
    requires
        0 <= from,
        before.len() == after.len(),
        0 <= at < before.len(),
        before[at].tab@ != other,
        after[at].tab@ == before[at].tab@,
        forall|i: int| 0 <= i < before.len() && i != at ==> after[i] == before[i],
    ensures
        first_of(after, other, from) == first_of(before, other, from),
    decreases before.len() - from,
{
    if from < before.len() {
        lemma_other_tab(before, after, at, other, from + 1);
    }
}

proof fn lemma_pushed_tab(before: Seq<TabRequests>, pushed: TabRequests, other: Seq<char>, from: int)
    requires
        0 <= from <= before.len(),
    ensures
        pushed.tab@ != other ==> first_of(before.push(pushed), other, from) == first_of(
            before,
            other,
            from,
        ),
        (forall|i: int| from <= i < before.len() ==> before[i].tab@ != pushed.tab@) ==> first_of(
            before.push(pushed),
            pushed.tab@,
            from,
        ) == request_views(pushed.requests@) && first_of(before, pushed.tab@, from)
            == Seq::<RequestView>::empty(),
    decreases before.len() - from,
{
    if from < before.len() {
        assert(before.push(pushed)[from] == before[from]);
        lemma_pushed_tab(before, pushed, other, from + 1);
    } else {
        assert(before.push(pushed)[from] == pushed);
        assert(first_of(before.push(pushed), other, from + 1) == Seq::<RequestView>::empty());
    }
}

proof fn lemma_first_of(tabs: Seq<TabRequests>, tab: Seq<char>, from: int, at: int)
    requires
        0 <= from <= at < tabs.len(),
        tabs[at].tab@ == tab,
        forall|i: int| from <= i < at ==> tabs[i].tab@ != tab,
    ensures
        first_of(tabs, tab, from) == request_views(tabs[at].requests@),
    decreases at - from,
{
    if from < at {
        lemma_first_of(tabs, tab, from + 1, at);
    }
}

proof fn lemma_no_tab(tabs: Seq<TabRequests>, tab: Seq<char>, from: int)
    requires
        0 <= from,
        forall|i: int| from <= i < tabs.len() ==> tabs[i].tab@ != tab,
    ensures
        first_of(tabs, tab, from) == Seq::<RequestView>::empty(),
    decreases tabs.len() - from,
{
    if from < tabs.len() {
        lemma_no_tab(tabs, tab, from + 1);
    }
}

impl NetworkLog {
    /// The requests of a tab, the oldest first.
    pub closed spec fn of_tab(&self, tab: Seq<char>) -> Seq<RequestView> {
        first_of(self.tabs@, tab, 0)
    }

    fn find_tab(&self, tab: &str) -> (at: Option<usize>)
        ensures
            match at {
                Some(at) => at < self.tabs@.len() && self.tabs@[at as int].tab@ == tab@ && forall|
                    i: int,
                |
                    0 <= i < at ==> self.tabs@[i].tab@ != tab@,
                None => forall|i: int| 0 <= i < self.tabs@.len() ==> self.tabs@[i].tab@ != tab@,
            },
    {
        let mut i: usize = 0;
        while i < self.tabs.len()
            invariant
                i <= self.tabs@.len(),
                forall|j: int| 0 <= j < i ==> self.tabs@[j].tab@ != tab@,
            decreases self.tabs@.len() - i,
        {
            if str_eq(self.tabs[i].tab.as_str(), tab) {
                return Some(i);
            }
            i += 1;
        }
        None
    }

    /// Records an event of a request. Several events of one request are put together; a member that
    /// an event has as null changes nothing.
    pub fn record(&mut self, tab_id: &str, request_id: &str, entry: Json)
        ensures
            final(self).of_tab(tab_id@) == recorded(
                old(self).of_tab(tab_id@),
                request_id@,
                entry@,
            ),
            forall|other: Seq<char>|
                other != tab_id@ ==> #[trigger] final(self).of_tab(other) == old(self).of_tab(other),
    {
        let ghost before = self.tabs@;
        match self.find_tab(tab_id) {
            Some(at) => {
                proof {
                    lemma_first_of(before, tab_id@, 0, at as int);
                }
                let requests = record_in(&self.tabs[at].requests, request_id, entry);
                let bucket = TabRequests { tab: tab_id.to_owned(), requests };
                self.tabs.set(at, bucket);
                proof {
                    lemma_first_of(self.tabs@, tab_id@, 0, at as int);
                    assert forall|other: Seq<char>| other != tab_id@ implies #[trigger] first_of(
                        self.tabs@,
                        other,
                        0,
                    ) == first_of(before, other, 0) by {
                        lemma_other_tab(before, self.tabs@, at as int, other, 0);
                    }
                }
            },
            None => {
                let none: Vec<Request> = Vec::new();
                assert(request_views(none@) =~= Seq::empty());
                let requests = record_in(&none, request_id, entry);
                let bucket = TabRequests { tab: tab_id.to_owned(), requests };
                self.tabs.push(bucket);
                proof {
                    lemma_pushed_tab(before, bucket, tab_id@, 0);
                    assert forall|other: Seq<char>| other != tab_id@ implies #[trigger] first_of(
                        self.tabs@,
                        other,
                        0,
                    ) == first_of(before, other, 0) by {
                        lemma_pushed_tab(before, bucket, other, 0);
                    }
                }
            },
        }
    }

    /// The last `max` requests of a tab whose address holds a text.
    pub fn list(&self, tab_id: &str, url_filter: Option<&str>, max: u32) -> (entries: Vec<Json>)
        ensures
            json::trees(entries@) == last_entries(
                matching(self.of_tab(tab_id@), text::opt_str_view(url_filter)),
                max as nat,
            ),
    {
        match self.find_tab(tab_id) {
            Some(at) => {
                proof {
                    lemma_first_of(self.tabs@, tab_id@, 0, at as int);
                }
                list_of(&self.tabs[at].requests, url_filter, max)
            },
            None => {
                proof {
                    lemma_no_tab(self.tabs@, tab_id@, 0);
                }
                let entries: Vec<Json> = Vec::new();
                assert(json::trees(entries@) =~= Seq::empty());
                entries
            },
        }
    }

    /// What is known of a request.
    pub fn entry(&self, tab_id: &str, request_id: &str) -> (entry: Option<Json>)
        ensures
            match request_at(self.of_tab(tab_id@), request_id@, 0) {
                Some(at) => entry matches Some(entry) && entry@ == self.of_tab(tab_id@)[at].1,
                None => entry is None,
            },
    {
        match self.find_tab(tab_id) {
            Some(at) => {
                proof {
                    lemma_first_of(self.tabs@, tab_id@, 0, at as int);
                }
                match find_request(&self.tabs[at].requests, request_id) {
                    Some(i) => Some(self.tabs[at].requests[i].entry.clone()),
                    None => None,
                }
            },
            None => {
                proof {
                    lemma_no_tab(self.tabs@, tab_id@, 0);
                }
                None
            },
        }
    }

    /// Forgets the requests of a tab.
    pub fn clear(&mut self, tab_id: &str)
        ensures
            final(self).of_tab(tab_id@) == Seq::<RequestView>::empty(),
            forall|other: Seq<char>|
                other != tab_id@ ==> #[trigger] final(self).of_tab(other) == old(self).of_tab(other),
    {
        let ghost before = self.tabs@;
        match self.find_tab(tab_id) {
            Some(at) => {
                let requests: Vec<Request> = Vec::new();
                assert(request_views(requests@) =~= Seq::empty());
                let bucket = TabRequests { tab: tab_id.to_owned(), requests };
                self.tabs.set(at, bucket);
                proof {
                    lemma_first_of(self.tabs@, tab_id@, 0, at as int);
                    assert forall|other: Seq<char>| other != tab_id@ implies #[trigger] first_of(
                        self.tabs@,
                        other,
                        0,
                    ) == first_of(before, other, 0) by {
                        lemma_other_tab(before, self.tabs@, at as int, other, 0);
                    }
                }
            },
            None => {
                proof {
                    lemma_no_tab(before, tab_id@, 0);
                }
            },
        }
    }
}

fn find_request(requests: &Vec<Request>, id: &str) -> (at: Option<usize>)
    ensures
        request_at(request_views(requests@), id@, 0) == (match at {
            Some(at) => Some(at as int),
            None => None::<int>,
        }),
        at matches Some(at) ==> at < requests@.len(),
{
    let ghost all = request_views(requests@);
    let mut i: usize = 0;
    while i < requests.len()
        invariant
            i <= requests@.len(),
            all == request_views(requests@),
            request_at(all, id@, 0) == request_at(all, id@, i as int),
        decreases requests@.len() - i,
    {
        if str_eq(requests[i].id.as_str(), id) {
            return Some(i);
        }
        i += 1;
    }
    None
}

fn copy_from(requests: &Vec<Request>, from: usize) -> (copy: Vec<Request>)
    requires
        from <= requests@.len(),
    ensures
        request_views(copy@) == request_views(requests@).skip(from as int),
{
    let ghost all = request_views(requests@);
    let mut copy: Vec<Request> = Vec::new();
    let mut i: usize = from;
    assert(request_views(copy@) =~= all.subrange(from as int, from as int));
    while i < requests.len()
        invariant
            from <= i <= requests@.len(),
            all == request_views(requests@),
            request_views(copy@) == all.subrange(from as int, i as int),
        decreases requests@.len() - i,
    {
        let request = Request { id: requests[i].id.clone(), entry: requests[i].entry.clone() };
        assert(request_views(copy@.push(request)) =~= request_views(copy@).push(
            (request.id@, request.entry@),
        ));
        assert(all.subrange(from as int, i + 1) =~= all.subrange(from as int, i as int).push(
            all[i as int],
        ));
        copy.push(request);
        i += 1;
    }
    assert(all.subrange(from as int, all.len() as int) =~= all.skip(from as int));
    copy
}

fn record_in(requests: &Vec<Request>, id: &str, event: Json) -> (after: Vec<Request>)
    ensures
        request_views(after@) == recorded(request_views(requests@), id@, event@),
{
    let ghost before = request_views(requests@);
    let mut all = copy_from(requests, 0);
    assert(before.skip(0) =~= before);
    match find_request(requests, id) {
        Some(at) => {
            let mut known = requests[at].entry.clone();
            known.merge(&event);
            let request = Request { id: id.to_owned(), entry: known };
            assert(request_views(all@.update(at as int, request)) =~= before.update(
                at as int,
                (request.id@, request.entry@),
            ));
            all.set(at, request);
        },
        None => {
            let request = Request { id: id.to_owned(), entry: event };
            assert(request_views(all@.push(request)) =~= before.push(
                (request.id@, request.entry@),
            ));
            all.push(request);
        },
    }
    if all.len() > NETWORK_LOG_CAP {
        let excess: usize = all.len() - NETWORK_LOG_CAP;
        return copy_from(&all, excess);
    }
    all
}

fn list_of(requests: &Vec<Request>, url_filter: Option<&str>, max: u32) -> (entries: Vec<Json>)
    ensures
        json::trees(entries@) == last_entries(
            matching(request_views(requests@), text::opt_str_view(url_filter)),
            max as nat,
        ),
{
    let ghost all = request_views(requests@);
    let ghost filter = text::opt_str_view(url_filter);
    let mut found: Vec<Json> = Vec::new();
    let mut i: usize = 0;
    assert(json::trees(found@) =~= Seq::empty());
    while i < requests.len()
        invariant
            i <= requests@.len(),
            all == request_views(requests@),
            filter == text::opt_str_view(url_filter),
            json::trees(found@) == matching(all.take(i as int), filter),
        decreases requests@.len() - i,
    {
        assert(all.take(i + 1).drop_last() =~= all.take(i as int));
        let keep = match url_filter {
            Some(part) => contains(requests[i].entry.str_or("url", "").as_str(), part),
            None => true,
        };
        if keep {
            let entry = requests[i].entry.clone();
            assert(json::trees(found@.push(entry)) =~= json::trees(found@).push(entry@));
            found.push(entry);
        }
        i += 1;
    }
    assert(all.take(all.len() as int) =~= all);
    let ghost chosen = json::trees(found@);
    let start: usize = if found.len() > max as usize {
        found.len() - max as usize
    } else {
        0
    };
    let mut entries: Vec<Json> = Vec::new();
    let mut i: usize = start;
    assert(json::trees(entries@) =~= chosen.subrange(start as int, start as int));
    while i < found.len()
        invariant
            start <= i <= found@.len(),
            chosen == json::trees(found@),
            json::trees(entries@) == chosen.subrange(start as int, i as int),
        decreases found@.len() - i,
    {
        let entry = found[i].clone();
        assert(json::trees(entries@.push(entry)) =~= json::trees(entries@).push(entry@));
        assert(chosen.subrange(start as int, i + 1) =~= chosen.subrange(start as int, i as int).push(
            chosen[i as int],
        ));
        entries.push(entry);
        i += 1;
    }
    assert(chosen.subrange(start as int, chosen.len() as int) =~= last_entries(chosen, max as nat));
    entries
}

/// Never more requests of a tab are kept than the cap, and the last event is always among them.
pub proof fn log_is_bounded(requests: Seq<RequestView>, id: Seq<char>, event: JsonView)
    requires
        requests.len() <= NETWORK_LOG_CAP,
    ensures
        recorded(requests, id, event).len() <= NETWORK_LOG_CAP,
        exists|i: int|
            0 <= i < recorded(requests, id, event).len() && (#[trigger] recorded(
                requests,
                id,
                event,
            )[i]).0 == id,
{
    let all = with_event(requests, id, event);
    lemma_request_at(requests, id, 0);
    let after = recorded(requests, id, event);
    match request_at(requests, id, 0) {
        Some(at) => {
            assert(after[at].0 == id);
        },
        None => {
            assert(all[all.len() - 1].0 == id);
            assert(after[after.len() - 1].0 == id);
        },
    }
}

proof fn lemma_request_at(requests: Seq<RequestView>, id: Seq<char>, from: int)
    requires
        0 <= from,
    ensures
        request_at(requests, id, from) matches Some(at) ==> from <= at < requests.len()
            && requests[at].0 == id,
    decreases requests.len() - from,
{
    if from < requests.len() && requests[from].0 != id {
        lemma_request_at(requests, id, from + 1);
    }
}

} // verus!
