//! What holds of the messages that go to and fro between the program and the browser.
use vstd::prelude::*;

use crate::browser::cdp;
use crate::browser::cdp::HeardView;
use crate::browser::script_laws::says;
use crate::json::{JsonView, NumberView};

verus! {

/// The object has no such key.
pub open spec fn lacks(value: JsonView, key: Seq<char>) -> bool {
    value matches JsonView::Object(members) && !members.contains_key(key)
}

/// What the browser answers reaches the request of that number, as a result or as the reason of a
/// failure, and the request then waits no more. An answer that nothing waits for is dropped.
pub proof fn answer_reaches_its_request(
    value: JsonView,
    id: u64,
    result: JsonView,
    error: JsonView,
    why: Seq<char>,
    waiting: Set<u64>,
)
    requires
        says(value, "id"@, JsonView::Number(NumberView::Unsigned(id))),
    ensures
        waiting.contains(id) && lacks(value, "error"@) && says(value, "result"@, result)
            ==> cdp::meaning(value, waiting) == (HeardView::Answer {
            id,
            outcome: Ok::<JsonView, Seq<char>>(result),
        }),
        waiting.contains(id) && says(value, "error"@, error) && says(
            error,
            "message"@,
            JsonView::Text(why),
        ) ==> cdp::meaning(value, waiting) == (HeardView::Answer {
            id,
            outcome: Err::<JsonView, Seq<char>>(why),
        }),
        !waiting.contains(id) ==> cdp::meaning(value, waiting) == HeardView::Nothing,
        !cdp::still_waiting(value, waiting).contains(id),
        forall|other: u64|
            other != id ==> #[trigger] cdp::still_waiting(value, waiting).contains(other)
                == waiting.contains(other),
{
}

/// What the browser tells without being asked is an event, with its name, what it tells, and the
/// page that it is about. Nothing that waits is answered by it.
pub proof fn event_is_told(
    value: JsonView,
    method: Seq<char>,
    params: JsonView,
    session: Seq<char>,
    waiting: Set<u64>,
)
    requires
        lacks(value, "id"@),
        says(value, "method"@, JsonView::Text(method)),
        says(value, "params"@, params),
    ensures
        cdp::meaning(value, waiting) matches HeardView::Event(event) && {
            &&& event.method == method
            &&& event.params == params
            &&& says(value, "sessionId"@, JsonView::Text(session)) ==> event.session_id == Some(
                session,
            )
            &&& lacks(value, "sessionId"@) ==> event.session_id is None
        },
        cdp::still_waiting(value, waiting) == waiting,
{
}

/// What is neither an answer nor an event says nothing.
pub proof fn other_messages_say_nothing(value: JsonView, waiting: Set<u64>)
    ensures
        lacks(value, "id"@) && lacks(value, "method"@) ==> cdp::meaning(value, waiting)
            == HeardView::Nothing,
        value !is Object ==> cdp::meaning(value, waiting) == HeardView::Nothing,
{
}

/// A request goes out under its number, with its method and what belongs to it, and to a page where
/// one is meant.
pub proof fn request_goes_out_in_full(id: u64, method: Seq<char>, params: JsonView, session: Seq<char>)
    ensures
        ({
            let plain = cdp::request(id, method, params, None);
            let meant = cdp::request(id, method, params, Some(session));
            &&& says(plain, "id"@, JsonView::Number(NumberView::Unsigned(id)))
            &&& says(plain, "method"@, JsonView::Text(method))
            &&& says(plain, "params"@, params)
            &&& lacks(plain, "sessionId"@)
            &&& says(meant, "id"@, JsonView::Number(NumberView::Unsigned(id)))
            &&& says(meant, "method"@, JsonView::Text(method))
            &&& says(meant, "params"@, params)
            &&& says(meant, "sessionId"@, JsonView::Text(session))
        }),
{
    reveal_strlit("id");
    reveal_strlit("method");
    reveal_strlit("params");
    reveal_strlit("sessionId");
    assert("id"@.len() == 2 && "sessionId"@.len() == 9 && "method"@.len() == 6 && "params"@.len() == 6);
    assert("method"@[0] != "params"@[0]);
}

} // verus!
