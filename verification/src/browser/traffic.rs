//! What a page does on its own: requests and their answers, dialogs, and its end.
use vstd::prelude::*;
use vstd::string::*;

use crate::browser::network;
use crate::browser::network::NetworkLog;
use crate::browser::page::BrowserEvent;
use crate::browser::tabs;
use crate::browser::tabs::optional_text;
use crate::json;
use crate::json::{object, Json, JsonNumber, JsonView};
use crate::map::TextMap;
use crate::text;
use crate::text::{cat3, chars_of, decimal_text};

verus! {

/// How many bodies can be read; beyond it all are given up.
pub const BODY_LIMIT: usize = 400;

/// What a page does on the network: what is under way, and which bodies can be read.
pub struct Traffic {
    /// The last request of a tab to an address, by both.
    inflight: TextMap<String>,
    /// The content types of the bodies that can be read, by the ids of their requests.
    bodies: TextMap<String>,
    /// The number of the next request.
    request_seq: u64,
}

/// A tab and an address as one text: the length of the tab's id tells them apart.
pub open spec fn flight_key(tab: Seq<char>, url: Seq<char>) -> Seq<char> {
    text::decimal(tab.len()) + ":"@ + (tab + url)
}

/// The id of a request.
pub open spec fn request_name(tab: Seq<char>, n: u64) -> Seq<char> {
    tab + "-r"@ + text::decimal(n as nat)
}

/// What is known of a request when it is made.
pub struct RequestFacts {
    pub url: String,
    pub method: String,
    pub resource_type: String,
    pub post_data: Option<String>,
    pub headers: Json,
    pub at_ms: u64,
}

/// A request as it is recorded.
pub open spec fn request_entry(id: Seq<char>, facts: RequestFacts) -> JsonView {
    JsonView::Object(
        map![
            "requestId"@ => JsonView::Text(id),
            "url"@ => JsonView::Text(facts.url@),
            "method"@ => JsonView::Text(facts.method@),
            "resourceType"@ => JsonView::Text(facts.resource_type@),
            "postData"@ => tabs::text_or_null(text::opt_view(facts.post_data)),
            "headers"@ => facts.headers@,
            "atMs"@ => json::whole(facts.at_ms),
        ],
    )
}

/// An answer as it is recorded.
pub open spec fn response_entry(status: u16, content_type: Seq<char>) -> JsonView {
    JsonView::Object(
        map![
            "status"@ => json::whole(status as u64),
            "contentType"@ => JsonView::Text(content_type),
        ],
    )
}

/// The lower-case form of an ASCII letter.
pub open spec fn lower_ascii(c: char) -> char {
    if 'A' <= c <= 'Z' {
        ((c as u8) + 32) as char
    } else {
        c
    }
}

/// Whether two texts differ at most in the case of ASCII letters.
pub open spec fn same_but_case(a: Seq<char>, b: Seq<char>) -> bool {
    a.len() == b.len() && forall|i: int|
        0 <= i < a.len() ==> #[trigger] lower_ascii(a[i]) == lower_ascii(b[i])
}

fn lower(c: char) -> (l: char)
    ensures
        l == lower_ascii(c),
{
    if 'A' <= c && c <= 'Z' {
        ((c as u8) + 32) as char
    } else {
        c
    }
}

fn equal_but_case(a: &str, b: &str) -> (yes: bool)
    ensures
        yes == same_but_case(a@, b@),
{
    let (left, right) = (chars_of(a), chars_of(b));
    if left.len() != right.len() {
        return false;
    }
    let mut i: usize = 0;
    while i < left.len()
        invariant
            i <= left@.len() == right@.len(),
            left@ == a@,
            right@ == b@,
            forall|j: int| 0 <= j < i ==> #[trigger] lower_ascii(a@[j]) == lower_ascii(b@[j]),
        decreases left@.len() - i,
    {
        if lower(left[i]) != lower(right[i]) {
            assert(lower_ascii(a@[i as int]) != lower_ascii(b@[i as int]));
            return false;
        }
        i += 1;
    }
    true
}

/// The value of the first header with a name; empty where there is none.
pub open spec fn header_value(headers: Seq<(String, String)>, name: Seq<char>, from: int) -> Seq<char>
    decreases headers.len() - from,
{
    if from < 0 || from >= headers.len() {
        Seq::empty()
    } else if same_but_case(headers[from].0@, name) {
        headers[from].1@
    } else {
        header_value(headers, name, from + 1)
    }
}

/// The value of the first header with a name; empty where there is none.
pub fn find_header(headers: &Vec<(String, String)>, name: &str) -> (value: String)
    ensures
        value@ == header_value(headers@, name@, 0),
{
    let mut i: usize = 0;
    while i < headers.len()
        invariant
            i <= headers@.len(),
            header_value(headers@, name@, 0) == header_value(headers@, name@, i as int),
        decreases headers@.len() - i,
    {
        if equal_but_case(headers[i].0.as_str(), name) {
            return headers[i].1.clone();
        }
        i += 1;
    }
    String::new()
}

/// An answer whose body can be read from now on.
pub struct Arrived {
    pub request_id: String,
    /// The bodies before this one can be read no more.
    pub gave_up_others: bool,
}

impl Default for Traffic {
    fn default() -> (traffic: Self)
        ensures
            traffic.requests() == 0,
            traffic.last_requests() == Map::<Seq<char>, String>::empty(),
            traffic.readable() == Map::<Seq<char>, String>::empty(),
    {
        Traffic { inflight: TextMap::new(), bodies: TextMap::new(), request_seq: 0 }
    }
}

/// The bodies after one more.
pub open spec fn bodies_after(bodies: Map<Seq<char>, String>, id: Seq<char>, content_type: String) -> Map<
    Seq<char>,
    String,
> {
    if bodies.len() > BODY_LIMIT {
        Map::empty().insert(id, content_type)
    } else {
        bodies.insert(id, content_type)
    }
}

impl Traffic {
    /// The number of the next request; after the last number it is the first again.
    pub closed spec fn requests(&self) -> u64 {
        self.request_seq
    }

    /// The last request of a tab to an address.
    pub closed spec fn last_requests(&self) -> Map<Seq<char>, String> {
        self.inflight@
    }

    /// The content types of the bodies that can be read, by the ids of their requests.
    pub closed spec fn readable(&self) -> Map<Seq<char>, String> {
        self.bodies@
    }

    /// The content types of the bodies that can be read, by the ids of their requests.
    pub fn bodies(&self) -> (bodies: &TextMap<String>)
        ensures
            bodies@ == self.readable(),
    {
        &self.bodies
    }

    fn key(tab: &str, url: &str) -> (key: String)
        ensures
            key@ == flight_key(tab@, url@),
    {
        let both = text::cat2(tab, url);
        let length = decimal_text(tab.unicode_len() as u64);
        cat3(length.as_str(), ":", both.as_str())
    }

    /// A tab makes a request: it gets an id, and is recorded under it.
    pub fn on_request(&mut self, tab: &str, facts: RequestFacts, log: &mut NetworkLog) -> (id: String)
        ensures
            id@ == request_name(tab@, old(self).requests()),
            final(self).requests() == old(self).requests().wrapping_add(1),
            final(self).last_requests() == old(self).last_requests().insert(
                flight_key(tab@, facts.url@),
                id,
            ),
            final(self).readable() == old(self).readable(),
            final(log).of_tab(tab@) == network::recorded(
                old(log).of_tab(tab@),
                id@,
                request_entry(id@, facts),
            ),
            forall|other: Seq<char>|
                other != tab@ ==> #[trigger] final(log).of_tab(other) == old(log).of_tab(other),
    {
        let id = cat3(tab, "-r", decimal_text(self.request_seq).as_str());
        self.request_seq = self.request_seq.wrapping_add(1);
        let key = Traffic::key(tab, facts.url.as_str());
        self.inflight.insert(key.as_str(), id.clone());
        let mut entry = object();
        entry.insert("requestId", Json::Text(id.clone()));
        entry.insert("url", Json::Text(facts.url));
        entry.insert("method", Json::Text(facts.method));
        entry.insert("resourceType", Json::Text(facts.resource_type));
        entry.insert("postData", optional_text(&facts.post_data));
        entry.insert("headers", facts.headers);
        entry.insert("atMs", Json::Number(JsonNumber::Unsigned(facts.at_ms)));
        log.record(tab, id.as_str(), entry);
        id
    }

    /// A tab gets an answer: it is recorded with the last request to that address, and its body can
    /// be read. An answer to a request that nobody saw is left alone.
    pub fn on_response(
        &mut self,
        tab: &str,
        url: &str,
        status: u16,
        headers: &Vec<(String, String)>,
        log: &mut NetworkLog,
    ) -> (arrived: Option<Arrived>)
        ensures
            final(self).requests() == old(self).requests(),
            final(self).last_requests() == old(self).last_requests(),
            ({
                let key = flight_key(tab@, url@);
                let known = old(self).last_requests();
                let content_type = header_value(headers@, "content-type"@, 0);
                if known.contains_key(key) {
                    let id = known[key]@;
                    &&& arrived matches Some(arrived) && arrived.request_id@ == id
                        && arrived.gave_up_others == (old(self).readable().len() > BODY_LIMIT)
                    &&& exists|kind: String| kind@ == content_type && final(self).readable()
                        == #[trigger] bodies_after(old(self).readable(), id, kind)
                    &&& final(log).of_tab(tab@) == network::recorded(
                        old(log).of_tab(tab@),
                        id,
                        response_entry(status, content_type),
                    )
                    &&& forall|other: Seq<char>|
                        other != tab@ ==> #[trigger] final(log).of_tab(other) == old(log).of_tab(
                            other,
                        )
                } else {
                    arrived is None && final(self).readable() == old(self).readable() && *final(log)
                        == *old(log)
                }
            }),
    {
        let key = Traffic::key(tab, url);
        let found: Option<String> = match self.inflight.get(key.as_str()) {
            Some(id) => Some(id.clone()),
            None => None,
        };
        match found {
            Some(id) => {
                let content_type = find_header(headers, "content-type");
                let mut entry = object();
                entry.insert("status", Json::Number(JsonNumber::Unsigned(status as u64)));
                entry.insert("contentType", Json::Text(content_type.clone()));
                log.record(tab, id.as_str(), entry);
                let gave_up_others = self.bodies.len() > BODY_LIMIT;
                if gave_up_others {
                    self.bodies = TextMap::new();
                }
                self.bodies.insert(id.as_str(), content_type);
                assert(self.readable() == bodies_after(old(self).readable(), id@, content_type));
                Some(Arrived { request_id: id, gave_up_others })
            },
            None => None,
        }
    }
}

/// A dialog as it is told.
pub open spec fn dialog_info(kind: Seq<char>, message: Seq<char>) -> JsonView {
    JsonView::Object(
        map!["type"@ => JsonView::Text(kind), "message"@ => JsonView::Text(message)],
    )
}

/// A tab opens a dialog: it is remembered until someone settles it, and the watchers are told.
pub fn on_dialog(dialogs: &mut TextMap<Json>, tab: &str, kind: &str, message: &str) -> (event: BrowserEvent)
    ensures
        exists|info: Json| info@ == dialog_info(kind@, message@) && final(dialogs)@
            == #[trigger] old(dialogs)@.insert(tab@, info),
        event matches BrowserEvent::DialogOpened { tab_id, kind: k, message: m } && tab_id@ == tab@
            && k@ == kind@ && m@ == message@,
{
    let mut info = object();
    info.insert("type", Json::text(kind));
    info.insert("message", Json::text(message));
    dialogs.insert(tab, info);
    BrowserEvent::DialogOpened {
        tab_id: tab.to_owned(),
        kind: kind.to_owned(),
        message: message.to_owned(),
    }
}

/// A tab ends: its dialog is forgotten, and the watchers are told.
pub fn on_close(dialogs: &mut TextMap<Json>, tab: &str) -> (event: BrowserEvent)
    ensures
        final(dialogs)@ == old(dialogs)@.remove(tab@),
        event matches BrowserEvent::DialogClosed { tab_id } && tab_id@ == tab@,
{
    let _gone = dialogs.remove(tab);
    BrowserEvent::DialogClosed { tab_id: tab.to_owned() }
}

/// A tab has loaded: the watchers are told, without the address.
pub fn on_load(tab: &str) -> (event: BrowserEvent)
    ensures
        event matches BrowserEvent::Navigated { tab_id, url, title } && tab_id@ == tab@ && url@.len()
            == 0 && title@.len() == 0,
{
    BrowserEvent::Navigated { tab_id: tab.to_owned(), url: String::new(), title: String::new() }
}

/// Two requests of a tab with different numbers have different ids.
pub proof fn request_ids_are_apart(tab: Seq<char>, m: u64, n: u64)
    requires
        m != n,
    ensures
        request_name(tab, m) != request_name(tab, n),
{
    if request_name(tab, m) == request_name(tab, n) {
        let k = tab.len() as int + "-r"@.len() as int;
        assert(request_name(tab, m).skip(k) =~= text::decimal(m as nat));
        assert(request_name(tab, n).skip(k) =~= text::decimal(n as nat));
        text::lemma_decimal_injective(m as nat, n as nat);
    }
}

/// The tab and the address of a request can be told from their key.
pub proof fn flights_are_apart(a: Seq<char>, url_a: Seq<char>, b: Seq<char>, url_b: Seq<char>)
    requires
        flight_key(a, url_a) == flight_key(b, url_b),
    ensures
        a == b,
        url_a == url_b,
{
    reveal_strlit(":");
    let (da, db) = (text::decimal(a.len()), text::decimal(b.len()));
    let key = flight_key(a, url_a);
    text::lemma_decimal_digits(a.len());
    text::lemma_decimal_digits(b.len());
    assert(key[da.len() as int] == ':');
    assert(flight_key(b, url_b)[db.len() as int] == ':');
    if da.len() < db.len() {
        assert(key[da.len() as int] == db[da.len() as int]);
        assert(text::is_digit(db[da.len() as int]));
    }
    if db.len() < da.len() {
        assert(key[db.len() as int] == da[db.len() as int]);
        assert(text::is_digit(da[db.len() as int]));
    }
    assert(key.take(da.len() as int) =~= da);
    assert(flight_key(b, url_b).take(db.len() as int) =~= db);
    text::lemma_decimal_injective(a.len(), b.len());
    let k = da.len() as int + 1;
    assert(key.skip(k) =~= a + url_a);
    assert(flight_key(b, url_b).skip(k) =~= b + url_b);
    assert((a + url_a).take(a.len() as int) =~= a);
    assert((b + url_b).take(b.len() as int) =~= b);
    assert((a + url_a).skip(a.len() as int) =~= url_a);
    assert((b + url_b).skip(b.len() as int) =~= url_b);
}

/// However many answers come, the bodies that can be read stay few.
pub proof fn readable_bodies_are_bounded(bodies: Map<Seq<char>, String>, id: Seq<char>, content_type: String)
    requires
        bodies.dom().finite(),
        bodies.len() <= BODY_LIMIT + 1,
    ensures
        bodies_after(bodies, id, content_type).len() <= BODY_LIMIT + 1,
        bodies_after(bodies, id, content_type).contains_key(id),
{
}

} // verus!
