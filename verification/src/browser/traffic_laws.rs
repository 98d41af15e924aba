//! What holds of the requests and answers that are seen on a page.
use vstd::prelude::*;

use crate::browser::traffic;
use crate::browser::traffic::{RequestFacts, BODY_LIMIT};
use crate::json::{JsonView, NumberView};
use crate::text;

verus! {

/// The two are the same letter, large or small, or the same sign.
pub open spec fn is_same_letter(a: char, b: char) -> bool {
    ||| a == b
    ||| 'A' <= a <= 'Z' && b as int == a as int + 32
    ||| 'A' <= b <= 'Z' && a as int == b as int + 32
}

/// The two names differ at most in large and small letters.
pub open spec fn is_same_name(a: Seq<char>, b: Seq<char>) -> bool {
    a.len() == b.len() && forall|i: int| 0 <= i < a.len() ==> is_same_letter(#[trigger] a[i], b[i])
}

proof fn lemma_letters(a: char, b: char)
    ensures
        (traffic::lower_ascii(a) == traffic::lower_ascii(b)) == is_same_letter(a, b),
{
}

proof fn lemma_names(a: Seq<char>, b: Seq<char>)
    ensures
        traffic::same_but_case(a, b) == is_same_name(a, b),
{
    assert forall|i: int| 0 <= i < a.len() && a.len() == b.len() implies (traffic::lower_ascii(
        #[trigger] a[i],
    ) == traffic::lower_ascii(b[i])) == is_same_letter(a[i], b[i]) by {
        lemma_letters(a[i], b[i]);
    }
    if traffic::same_but_case(a, b) {
        assert forall|i: int| 0 <= i < a.len() implies is_same_letter(#[trigger] a[i], b[i]) by {
            assert(traffic::lower_ascii(a[i]) == traffic::lower_ascii(b[i]));
        }
    }
    if is_same_name(a, b) {
        assert forall|i: int| 0 <= i < a.len() implies #[trigger] traffic::lower_ascii(a[i])
            == traffic::lower_ascii(b[i]) by {
            assert(is_same_letter(a[i], b[i]));
        }
    }
}

/// A header is found by its name, however that is written: the first one of the name counts, and
/// where there is none the value is empty.
pub proof fn header_is_found(headers: Seq<(String, String)>, name: Seq<char>, at: int)
    requires
        0 <= at <= headers.len(),
        forall|i: int| 0 <= i < at ==> !is_same_name((#[trigger] headers[i]).0@, name),
        at < headers.len() ==> is_same_name(headers[at].0@, name),
    ensures
        traffic::header_value(headers, name, 0) == if at < headers.len() {
            headers[at].1@
        } else {
            Seq::empty()
        },
{
    lemma_header(headers, name, at, 0);
}

proof fn lemma_header(headers: Seq<(String, String)>, name: Seq<char>, at: int, from: int)
    requires
        0 <= from <= at <= headers.len(),
        forall|i: int| from <= i < at ==> !is_same_name((#[trigger] headers[i]).0@, name),
        at < headers.len() ==> is_same_name(headers[at].0@, name),
    ensures
        traffic::header_value(headers, name, from) == if at < headers.len() {
            headers[at].1@
        } else {
            Seq::empty()
        },
    decreases at - from,
{
    if from < headers.len() {
        lemma_names(headers[from].0@, name);
        if from < at {
            lemma_header(headers, name, at, from + 1);
        }
    }
}

/// The body of an answer can be read once the answer is there. Those of earlier answers can be read
/// too, while they are not too many; when they are, all of them go.
pub proof fn body_can_be_read(
    bodies: Map<Seq<char>, String>,
    id: Seq<char>,
    content_type: String,
    other: Seq<char>,
)
    ensures
        ({
            let after = traffic::bodies_after(bodies, id, content_type);
            &&& after.contains_key(id)
            &&& after[id] == content_type
            &&& bodies.len() <= BODY_LIMIT && bodies.contains_key(other) && other != id
                ==> after.contains_key(other) && after[other] == bodies[other]
            &&& bodies.len() > BODY_LIMIT && other != id ==> !after.contains_key(other)
            &&& !bodies.contains_key(other) && other != id ==> !after.contains_key(other)
        }),
{
}

/// What is known of a request is recorded under the names that a reader looks for.
pub proof fn request_is_recorded_in_full(id: Seq<char>, facts: RequestFacts)
    ensures
        traffic::request_entry(id, facts) matches JsonView::Object(entry) && {
            &&& entry["requestId"@] == JsonView::Text(id)
            &&& entry["url"@] == JsonView::Text(facts.url@)
            &&& entry["method"@] == JsonView::Text(facts.method@)
            &&& entry["resourceType"@] == JsonView::Text(facts.resource_type@)
            &&& facts.post_data is None ==> entry["postData"@] == JsonView::Null
            &&& facts.post_data is Some ==> entry["postData"@] == JsonView::Text(
                facts.post_data->0@,
            )
            &&& entry["headers"@] == facts.headers@
            &&& entry["atMs"@] == JsonView::Number(NumberView::Unsigned(facts.at_ms))
        },
{
    reveal_strlit("requestId");
    reveal_strlit("url");
    reveal_strlit("method");
    reveal_strlit("resourceType");
    reveal_strlit("postData");
    reveal_strlit("headers");
    reveal_strlit("atMs");
    assert("requestId"@.len() == 9 && "url"@.len() == 3 && "method"@.len() == 6
        && "resourceType"@.len() == 12 && "postData"@.len() == 8 && "headers"@.len() == 7
        && "atMs"@.len() == 4);
}

/// What is known of an answer is recorded under the names that a reader looks for.
pub proof fn answer_is_recorded_in_full(status: u16, content_type: Seq<char>)
    ensures
        traffic::response_entry(status, content_type) matches JsonView::Object(entry) && {
            &&& entry["status"@] == JsonView::Number(NumberView::Unsigned(status as u64))
            &&& entry["contentType"@] == JsonView::Text(content_type)
        },
{
    reveal_strlit("status");
    reveal_strlit("contentType");
    assert("status"@.len() == 6 && "contentType"@.len() == 11);
}

/// A dialog is told with its kind and what it says.
pub proof fn dialog_is_told_in_full(kind: Seq<char>, message: Seq<char>)
    ensures
        traffic::dialog_info(kind, message) matches JsonView::Object(info) && {
            &&& info["type"@] == JsonView::Text(kind)
            &&& info["message"@] == JsonView::Text(message)
        },
{
    reveal_strlit("type");
    reveal_strlit("message");
    assert("type"@.len() == 4 && "message"@.len() == 7);
}

/// A request's name tells its tab and its number.
pub proof fn request_is_named_after_its_tab(tab: Seq<char>, n: u64)
    ensures
        tab.is_prefix_of(traffic::request_name(tab, n)),
        traffic::request_name(tab, n).skip(tab.len() as int) == "-r"@ + text::decimal(n as nat),
{
    let name = traffic::request_name(tab, n);
    assert(tab =~= name.subrange(0, tab.len() as int));
    assert(name.skip(tab.len() as int) =~= "-r"@ + text::decimal(n as nat));
}

} // verus!
