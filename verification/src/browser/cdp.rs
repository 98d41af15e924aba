//! The link to a browser: requests, the answers that belong to them, and events.
//!
//! - a request is `{id, method, params, sessionId?}`
//! - an answer is `{id, result?/error?}`
//! - an event is `{method, params, sessionId?}`
use vstd::prelude::*;
use vstd::string::*;

use crate::json;
use crate::json::{object, parse, Json, JsonNumber, JsonView};
use crate::text;
use crate::text::cat2;

verus! {

/// How long an answer is waited for.
pub const ANSWER_TIMEOUT_SECONDS: u64 = 120;

/// What a request comes to whose link ended.
pub const DISCONNECTED: &'static str = "cdp_disconnected";

/// What a request comes to that could not be sent.
pub const WRITER_CLOSED: &'static str = "cdp_writer_closed";

/// What a request comes to whose answer nobody can hand over.
pub const CALLER_DROPPED: &'static str = "cdp_caller_dropped";

/// Something that happened in the browser.
#[derive(Debug)]
pub struct CdpEvent {
    pub method: String,
    pub params: Json,
    pub session_id: Option<String>,
}

#[verifier::ext_equal]
pub struct CdpEventView {
    pub method: Seq<char>,
    pub params: JsonView,
    pub session_id: Option<Seq<char>>,
}

impl View for CdpEvent {
    type V = CdpEventView;

    open spec fn view(&self) -> CdpEventView {
        CdpEventView {
            method: self.method@,
            params: self.params@,
            session_id: text::opt_view(self.session_id),
        }
    }
}

/// What a message means.
pub enum Heard {
    /// The answer to a request.
    Answer { id: u64, outcome: Result<Json, String> },
    Event(CdpEvent),
    Nothing,
}

pub enum HeardView {
    Answer { id: u64, outcome: Result<JsonView, Seq<char>> },
    Event(CdpEventView),
    Nothing,
}

impl View for Heard {
    type V = HeardView;

    open spec fn view(&self) -> HeardView {
        match self {
            Heard::Answer { id, outcome } => HeardView::Answer {
                id: *id,
                outcome: match outcome {
                    Ok(result) => Ok(result@),
                    Err(why) => Err(why@),
                },
            },
            Heard::Event(event) => HeardView::Event(event@),
            Heard::Nothing => HeardView::Nothing,
        }
    }
}

/// A member, or `null` where there is none.
pub open spec fn member_or_null(value: JsonView, key: Seq<char>) -> JsonView {
    match json::member(value, key) {
        Some(member) => member,
        None => JsonView::Null,
    }
}

/// The id that a message has.
pub open spec fn id_of(value: JsonView) -> Option<u64> {
    match json::member(value, "id"@) {
        Some(id) => json::u64_of(id),
        None => None,
    }
}

/// What an answer says.
pub open spec fn outcome_of(value: JsonView) -> Result<JsonView, Seq<char>> {
    match json::member(value, "error"@) {
        Some(error) => Err(json::text_or(error, "message"@, "cdp_error"@)),
        None => Ok(member_or_null(value, "result"@)),
    }
}

/// What a message means while some requests wait for their answers. A message with an id is an
/// answer or nothing, and never an event.
pub open spec fn meaning(value: JsonView, waiting: Set<u64>) -> HeardView {
    match id_of(value) {
        Some(id) => if waiting.contains(id) {
            HeardView::Answer { id, outcome: outcome_of(value) }
        } else {
            HeardView::Nothing
        },
        None => match json::member_text(value, "method"@) {
            Some(method) => HeardView::Event(
                CdpEventView {
                    method,
                    params: member_or_null(value, "params"@),
                    session_id: json::member_text(value, "sessionId"@),
                },
            ),
            None => HeardView::Nothing,
        },
    }
}

/// The requests that still wait after a message.
pub open spec fn still_waiting(value: JsonView, waiting: Set<u64>) -> Set<u64> {
    match id_of(value) {
        Some(id) => waiting.remove(id),
        None => waiting,
    }
}

/// A request as it is sent.
pub open spec fn request(id: u64, method: Seq<char>, params: JsonView, session_id: Option<Seq<char>>) -> JsonView {
    let plain = map![
        "id"@ => json::whole(id),
        "method"@ => JsonView::Text(method),
        "params"@ => params,
    ];
    match session_id {
        Some(session_id) => JsonView::Object(
            plain.insert("sessionId"@, JsonView::Text(session_id)),
        ),
        None => JsonView::Object(plain),
    }
}

/// A request that is on its way.
pub struct Sent {
    pub id: u64,
    pub text: String,
}

/// The link to a browser.
pub struct CdpHandle {
    next_id: u64,
    /// The requests that wait for their answers, in the order in which they were sent.
    pending: Vec<u64>,
    closed: bool,
}

proof fn lemma_remove_from_set(ids: Seq<u64>, at: int)
    requires
        ids.no_duplicates(),
        0 <= at < ids.len(),
    ensures
        ids.remove(at).no_duplicates(),
        ids.remove(at).to_set() =~= ids.to_set().remove(ids[at]),
{
    let rest = ids.remove(at);
    assert forall|id: u64| rest.to_set().contains(id) == #[trigger] ids.to_set().remove(
        ids[at],
    ).contains(id) by {
        if rest.contains(id) {
            let i = choose|i: int| 0 <= i < rest.len() && rest[i] == id;
            let j = if i < at { i } else { i + 1 };
            assert(ids[j] == id);
        }
        if ids.contains(id) && id != ids[at] {
            let j = choose|j: int| 0 <= j < ids.len() && ids[j] == id;
            let i = if j < at { j } else { j - 1 };
            assert(rest[i] == id);
        }
    }
    assert forall|i: int, j: int| 0 <= i < j < rest.len() implies rest[i] != rest[j] by {
        let a = if i < at { i } else { i + 1 };
        let b = if j < at { j } else { j + 1 };
        assert(ids[a] != ids[b]);
    }
}

impl CdpHandle {
    #[verifier::type_invariant]
    spec fn ids_are_distinct(self) -> bool {
        self.pending@.no_duplicates()
    }

    /// The id of the next request.
    pub closed spec fn next(&self) -> u64 {
        self.next_id
    }

    /// The requests that wait for their answers.
    pub closed spec fn waiting(&self) -> Set<u64> {
        self.pending@.to_set()
    }

    /// Whether the link has ended.
    pub closed spec fn ended(&self) -> bool {
        self.closed
    }

    /// A new link, on which nothing was sent.
    pub fn connect() -> (handle: Self)
        ensures
            handle.next() == 1,
            handle.waiting() == Set::<u64>::empty(),
            !handle.ended(),
    {
        let handle = CdpHandle { next_id: 1, pending: Vec::new(), closed: false };
        assert(handle.pending@.to_set() =~= Set::<u64>::empty());
        handle
    }

    /// A request of the browser as a whole.
    pub fn send(&mut self, method: &str, params: Json) -> (sent: Sent)
        ensures
            sent.id == old(self).next(),
            sent.text@ == json::compact(request(sent.id, method@, params@, None)),
            final(self).next() == old(self).next().wrapping_add(1),
            final(self).waiting() == old(self).waiting().insert(sent.id),
            final(self).ended() == old(self).ended(),
    {
        self.send_with_session(method, params, None)
    }

    /// A request of one page, if a session is named.
    pub fn send_with_session(&mut self, method: &str, params: Json, session_id: Option<&str>) -> (sent: Sent)
        ensures
            sent.id == old(self).next(),
            sent.text@ == json::compact(
                request(sent.id, method@, params@, text::opt_str_view(session_id)),
            ),
            final(self).next() == old(self).next().wrapping_add(1),
            final(self).waiting() == old(self).waiting().insert(sent.id),
            final(self).ended() == old(self).ended(),
    {
        proof {
            use_type_invariant(&*self);
        }
        let id = self.next_id;
        self.next_id = self.next_id.wrapping_add(1);
        let mut request = object();
        request.insert("id", Json::Number(JsonNumber::Unsigned(id)));
        request.insert("method", Json::text(method));
        request.insert("params", params);
        if let Some(session_id) = session_id {
            request.insert("sessionId", Json::text(session_id));
        }
        self.wait_for(id);
        Sent { id, text: request.to_text() }
    }

    fn wait_for(&mut self, id: u64)
        ensures
            final(self).waiting() == old(self).waiting().insert(id),
            final(self).next() == old(self).next(),
            final(self).ended() == old(self).ended(),
    {
        let _was = self.wait_no_more(id);
        proof {
            use_type_invariant(&*self);
        }
        let mut pending: Vec<u64> = Vec::new();
        std::mem::swap(&mut pending, &mut self.pending);
        let ghost before = pending@;
        assert(!before.to_set().contains(id));
        assert(!before.contains(id));
        pending.push(id);
        proof {
            assert forall|other: u64| pending@.to_set().contains(other) == #[trigger] before.to_set().insert(
                id,
            ).contains(other) by {
                assert(pending@[before.len() as int] == id);
                if before.contains(other) {
                    let i = choose|i: int| 0 <= i < before.len() && before[i] == other;
                    assert(pending@[i] == other);
                }
                if pending@.contains(other) && other != id {
                    let i = choose|i: int| 0 <= i < pending@.len() && pending@[i] == other;
                    assert(before[i] == other);
                }
            }
            assert(pending@.to_set() =~= before.to_set().insert(id));
            assert(pending@.no_duplicates());
        }
        self.pending = pending;
        assert(self.waiting() =~= old(self).waiting().insert(id));
    }

    fn wait_no_more(&mut self, id: u64) -> (was: bool)
        ensures
            was == old(self).waiting().contains(id),
            final(self).waiting() == old(self).waiting().remove(id),
            final(self).next() == old(self).next(),
            final(self).ended() == old(self).ended(),
    {
        proof {
            use_type_invariant(&*self);
        }
        let mut i: usize = 0;
        while i < self.pending.len()
            invariant
                i <= self.pending@.len(),
                *self == *old(self),
                self.pending@.no_duplicates(),
                forall|j: int| 0 <= j < i ==> self.pending@[j] != id,
            decreases self.pending@.len() - i,
        {
            if self.pending[i] == id {
                let mut pending: Vec<u64> = Vec::new();
                std::mem::swap(&mut pending, &mut self.pending);
                proof {
                    assert(pending@[i as int] == id);
                    lemma_remove_from_set(pending@, i as int);
                }
                let _gone = pending.remove(i);
                self.pending = pending;
                return true;
            }
            i += 1;
        }
        assert(self.waiting().remove(id) =~= self.waiting());
        false
    }

    /// Takes a message in. The request that it answers waits no more.
    pub fn hear_value(&mut self, value: &Json) -> (heard: Heard)
        ensures
            heard@ == meaning(value@, old(self).waiting()),
            final(self).waiting() == still_waiting(value@, old(self).waiting()),
            final(self).next() == old(self).next(),
            final(self).ended() == old(self).ended(),
    {
        let id = match value.get("id") {
            Some(id) => id.as_u64(),
            None => None,
        };
        if let Some(id) = id {
            let waits = self.wait_no_more(id);
            if !waits {
                return Heard::Nothing;
            }
            let outcome = match value.get("error") {
                Some(error) => Err(error.str_or("message", "cdp_error")),
                None => Ok(
                    match value.get("result") {
                        Some(result) => result.clone(),
                        None => Json::Null,
                    },
                ),
            };
            return Heard::Answer { id, outcome };
        }
        match value.get_str("method") {
            Some(method) => Heard::Event(
                CdpEvent {
                    method: method.to_owned(),
                    params: match value.get("params") {
                        Some(params) => params.clone(),
                        None => Json::Null,
                    },
                    session_id: match value.get_str("sessionId") {
                        Some(session_id) => Some(session_id.to_owned()),
                        None => None,
                    },
                },
            ),
            None => Heard::Nothing,
        }
    }

    /// Takes the text of a message in. One that is no JSON means nothing.
    pub fn hear(&mut self, text: &str) -> (heard: Heard)
        ensures
            match json::parsed(text@) {
                Some(value) => heard@ == meaning(value, old(self).waiting())
                    && final(self).waiting() == still_waiting(value, old(self).waiting()),
                None => heard@ == HeardView::Nothing && final(self).waiting()
                    == old(self).waiting(),
            },
            final(self).next() == old(self).next(),
            final(self).ended() == old(self).ended(),
    {
        match parse(text) {
            Some(value) => self.hear_value(&value),
            None => Heard::Nothing,
        }
    }

    /// The link has ended: each request that waits comes to [`DISCONNECTED`].
    pub fn disconnect(&mut self) -> (dropped: Vec<u64>)
        ensures
            dropped@.no_duplicates(),
            dropped@.to_set() == old(self).waiting(),
            final(self).waiting() == Set::<u64>::empty(),
            final(self).ended(),
            final(self).next() == old(self).next(),
    {
        proof {
            use_type_invariant(&*self);
        }
        self.closed = true;
        let mut pending: Vec<u64> = Vec::new();
        std::mem::swap(&mut pending, &mut self.pending);
        assert(self.pending@.to_set() =~= Set::<u64>::empty());
        pending
    }

    /// An answer did not come in time: it is waited for no more, and this is why.
    pub fn expire(&mut self, id: u64, method: &str) -> (why: String)
        ensures
            why@ == "cdp_timeout:"@ + method@,
            final(self).waiting() == old(self).waiting().remove(id),
            final(self).next() == old(self).next(),
            final(self).ended() == old(self).ended(),
    {
        let _was = self.wait_no_more(id);
        cat2("cdp_timeout:", method)
    }

    /// Whether the link has ended.
    pub fn is_closed(&self) -> (yes: bool)
        ensures
            yes == self.ended(),
    {
        self.closed
    }
}

/// Why there is no link.
pub fn connect_failure(url: &str, error: &str) -> (why: String)
    ensures
        why@ == "CDP WebSocket 连接失败("@ + url@ + "): "@ + error@,
{
    text::cat4("CDP WebSocket 连接失败(", url, "): ", error)
}

/// A request gets one answer: what comes under its id afterwards means nothing.
pub proof fn request_is_answered_once(first: JsonView, second: JsonView, waiting: Set<u64>)
    requires
        id_of(first) is Some,
        id_of(second) == id_of(first),
    ensures
        meaning(second, still_waiting(first, waiting)) == HeardView::Nothing,
{
}

/// An answer leaves the other requests waiting.
pub proof fn other_requests_wait_on(value: JsonView, waiting: Set<u64>, other: u64)
    requires
        id_of(value) != Some(other),
    ensures
        still_waiting(value, waiting).contains(other) == waiting.contains(other),
{
}

} // verus!
