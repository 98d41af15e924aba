//! What holds of the record of a tab's requests.
use vstd::prelude::*;
use vstd::string::*;

use crate::browser::network;
use crate::browser::network::{RequestView, NETWORK_LOG_CAP};
use crate::json;
use crate::json::JsonView;
use crate::text;

verus! {

/// The address of a request; empty where none is known.
pub open spec fn address(entry: JsonView) -> Seq<char> {
    match entry {
        JsonView::Object(members) => if members.contains_key("url"@) {
            match members["url"@] {
                JsonView::Text(url) => url,
                _ => Seq::empty(),
            }
        } else {
            Seq::empty()
        },
        _ => Seq::empty(),
    }
}

/// A request is one of those that are asked for: its address holds the text, where one is given.
pub open spec fn is_asked_for(entry: JsonView, filter: Option<Seq<char>>) -> bool {
    filter matches Some(part) ==> exists|at: int|
        #[trigger] text::occurs_at(address(entry), part, at)
}

proof fn lemma_address(entry: JsonView, filter: Option<Seq<char>>)
    ensures
        is_asked_for(entry, filter) == (filter matches Some(part) ==> text::has(
            json::text_or(entry, "url"@, ""@),
            part,
        )),
{
    reveal_strlit("");
    assert(""@ =~= Seq::<char>::empty());
    assert(json::text_or(entry, "url"@, ""@) == address(entry));
}

proof fn lemma_matching(requests: Seq<RequestView>, filter: Option<Seq<char>>) -> (places: Seq<int>)
    ensures
        places.len() == network::matching(requests, filter).len(),
        forall|k: int|
            0 <= k < places.len() ==> 0 <= #[trigger] places[k] < requests.len() && is_asked_for(
                requests[places[k]].1,
                filter,
            ) && network::matching(requests, filter)[k] == requests[places[k]].1,
        forall|k: int, m: int| 0 <= k < m < places.len() ==> places[k] < places[m],
        forall|j: int|
            0 <= j < requests.len() && is_asked_for((#[trigger] requests[j]).1, filter)
                ==> places.contains(j),
    decreases requests.len(),
{
    if requests.len() == 0 {
        Seq::empty()
    } else {
        let rest = requests.drop_last();
        let before = lemma_matching(rest, filter);
        let end = requests.len() - 1;
        lemma_address(requests.last().1, filter);
        if is_asked_for(requests.last().1, filter) {
            let places = before.push(end);
            assert(places[before.len() as int] == end);
            assert forall|j: int|
                0 <= j < requests.len() && is_asked_for(
                    (#[trigger] requests[j]).1,
                    filter,
                ) implies places.contains(j) by {
                if j < end {
                    assert(rest[j] == requests[j]);
                    let k = choose|k: int| 0 <= k < before.len() && before[k] == j;
                    assert(places[k] == j);
                }
            }
            assert forall|k: int| 0 <= k < places.len() implies 0 <= #[trigger] places[k]
                < requests.len() && is_asked_for(requests[places[k]].1, filter)
                && network::matching(requests, filter)[k] == requests[places[k]].1 by {
                if k < before.len() {
                    assert(places[k] == before[k]);
                    assert(rest[before[k]] == requests[places[k]]);
                }
            }
            places
        } else {
            assert forall|j: int|
                0 <= j < requests.len() && is_asked_for(
                    (#[trigger] requests[j]).1,
                    filter,
                ) implies before.contains(j) by {
                assert(rest[j] == requests[j]);
            }
            before
        }
    }
}

/// What is listed are the latest requests that are asked for, the oldest of them first: as many as
/// there are, and never more than are wanted.
pub proof fn latest_requests_are_listed(
    requests: Seq<RequestView>,
    filter: Option<Seq<char>>,
    max: nat,
) -> (places: Seq<int>)
    ensures
        ({
            let listed = network::last_entries(network::matching(requests, filter), max);
            &&& listed.len() == places.len() <= max
            &&& forall|k: int|
                0 <= k < places.len() ==> 0 <= #[trigger] places[k] < requests.len()
                    && is_asked_for(requests[places[k]].1, filter) && listed[k]
                    == requests[places[k]].1
            &&& forall|k: int, m: int| 0 <= k < m < places.len() ==> places[k] < places[m]
            &&& forall|j: int|
                0 <= j < requests.len() && is_asked_for((#[trigger] requests[j]).1, filter)
                    ==> places.contains(j) || (places.len() == max && (max == 0 || j < places[0]))
        }),
{
    let all = lemma_matching(requests, filter);
    let skipped: int = if all.len() > max {
        all.len() - max
    } else {
        0
    };
    let places = all.skip(skipped);
    let listed = network::last_entries(network::matching(requests, filter), max);
    assert forall|k: int| 0 <= k < places.len() implies 0 <= #[trigger] places[k] < requests.len()
        && is_asked_for(requests[places[k]].1, filter) && listed[k] == requests[places[k]].1 by {
        assert(places[k] == all[skipped + k]);
    }
    assert forall|j: int|
        0 <= j < requests.len() && is_asked_for(
            (#[trigger] requests[j]).1,
            filter,
        ) implies places.contains(j) || (places.len() == max && (max == 0 || j < places[0])) by {
        let k = choose|k: int| 0 <= k < all.len() && all[k] == j;
        if k >= skipped {
            assert(places[k - skipped] == j);
        } else if max > 0 {
            assert(places[0] == all[skipped]);
            assert(all[k] < all[skipped]);
        }
    }
    places
}

/// The request that was asked for last is the last that is listed.
pub proof fn last_request_is_listed_last(
    requests: Seq<RequestView>,
    filter: Option<Seq<char>>,
    max: nat,
    at: int,
)
    requires
        max > 0,
        0 <= at < requests.len(),
        is_asked_for(requests[at].1, filter),
        forall|j: int|
            at < j < requests.len() ==> !is_asked_for((#[trigger] requests[j]).1, filter),
    ensures
        network::last_entries(network::matching(requests, filter), max).len() > 0,
        network::last_entries(network::matching(requests, filter), max).last() == requests[at].1,
{
    let places = latest_requests_are_listed(requests, filter, max);
    if places.len() == 0 {
        assert(requests[at] == requests[at]);
    }
    let last = places[places.len() - 1];
    if last < at {
        assert(requests[at] == requests[at]);
        if places.contains(at) {
            let k = choose|k: int| 0 <= k < places.len() && places[k] == at;
            if k < places.len() - 1 {
                assert(places[k] < places[places.len() - 1]);
            }
        } else if places.len() > 1 {
            assert(places[0] < places[places.len() - 1]);
        }
    } else if at < last {
        assert(!is_asked_for(requests[last].1, filter));
    }
}

/// What an event says of a request counts, where it says something; what it leaves out or gives as
/// null stays as it was known.
pub open spec fn adds_up(
    known: Map<Seq<char>, JsonView>,
    event: Map<Seq<char>, JsonView>,
    all: Map<Seq<char>, JsonView>,
) -> bool {
    forall|key: Seq<char>|
        if event.contains_key(key) && !(event[key] is Null) {
            #[trigger] all.contains_key(key) && all[key] == event[key]
        } else {
            all.contains_key(key) == known.contains_key(key) && (known.contains_key(key)
                ==> all[key] == known[key])
        }
}

/// A request that is not known comes last, and only the oldest gives way to it, where there is no
/// room.
pub proof fn new_request_is_recorded_last(
    requests: Seq<RequestView>,
    id: Seq<char>,
    event: JsonView,
)
    requires
        requests.len() <= NETWORK_LOG_CAP,
        forall|i: int| 0 <= i < requests.len() ==> (#[trigger] requests[i]).0 != id,
    ensures
        network::recorded(requests, id, event) == (if requests.len() < 200 {
            requests.push((id, event))
        } else {
            requests.skip(1).push((id, event))
        }),
{
    lemma_request_at(requests, id, 0);
    assert(network::recorded(requests, id, event) =~= (if requests.len() < 200 {
        requests.push((id, event))
    } else {
        requests.skip(1).push((id, event))
    }));
}

proof fn lemma_request_at(requests: Seq<RequestView>, id: Seq<char>, from: int)
    requires
        0 <= from,
    ensures
        match network::request_at(requests, id, from) {
            Some(at) => from <= at < requests.len() && requests[at].0 == id && forall|i: int|
                from <= i < at ==> (#[trigger] requests[i]).0 != id,
            None => forall|i: int| from <= i < requests.len() ==> (#[trigger] requests[i]).0 != id,
        },
    decreases requests.len() - from,
{
    if from < requests.len() && requests[from].0 != id {
        lemma_request_at(requests, id, from + 1);
    }
}

/// A request that is known keeps its place, takes up what the event says of it, and leaves all
/// others as they are.
pub proof fn known_request_is_completed(
    requests: Seq<RequestView>,
    id: Seq<char>,
    event: JsonView,
    at: int,
)
    requires
        requests.len() <= NETWORK_LOG_CAP,
        0 <= at < requests.len(),
        requests[at].0 == id,
        forall|i: int| 0 <= i < at ==> (#[trigger] requests[i]).0 != id,
    ensures
        network::recorded(requests, id, event).len() == requests.len(),
        network::recorded(requests, id, event)[at].0 == id,
        forall|i: int|
            0 <= i < requests.len() && i != at ==> #[trigger] network::recorded(
                requests,
                id,
                event,
            )[i] == requests[i],
        match (requests[at].1, event) {
            (JsonView::Object(known), JsonView::Object(event)) => network::recorded(
                requests,
                id,
                JsonView::Object(event),
            )[at].1 matches JsonView::Object(all) && adds_up(known, event, all),
            _ => network::recorded(requests, id, event)[at].1 == requests[at].1,
        },
{
    lemma_request_at(requests, id, 0);
    if let (JsonView::Object(known), JsonView::Object(event)) = (requests[at].1, event) {
        let all = json::merged(known, event);
        assert forall|key: Seq<char>|
            if event.contains_key(key) && !(event[key] is Null) {
                #[trigger] all.contains_key(key) && all[key] == event[key]
            } else {
                all.contains_key(key) == known.contains_key(key) && (known.contains_key(key)
                    ==> all[key] == known[key])
            } by {}
    }
}

/// What is known of a request is found under its id, and nothing under an id that is not known.
pub proof fn request_is_found_under_its_id(requests: Seq<RequestView>, id: Seq<char>)
    ensures
        match network::request_at(requests, id, 0) {
            Some(at) => 0 <= at < requests.len() && requests[at].0 == id && forall|i: int|
                0 <= i < at ==> (#[trigger] requests[i]).0 != id,
            None => forall|i: int| 0 <= i < requests.len() ==> (#[trigger] requests[i]).0 != id,
        },
{
    lemma_request_at(requests, id, 0);
}

/// No two requests of a tab have one id.
pub open spec fn have_ids(requests: Seq<RequestView>) -> bool {
    forall|i: int, j: int|
        0 <= i < j < requests.len() ==> (#[trigger] requests[i]).0 != (#[trigger] requests[j]).0
}

/// No request is recorded twice.
pub proof fn no_request_is_recorded_twice(
    requests: Seq<RequestView>,
    id: Seq<char>,
    event: JsonView,
)
    requires
        have_ids(requests),
    ensures
        have_ids(network::recorded(requests, id, event)),
{
    lemma_request_at(requests, id, 0);
    let all = network::with_event(requests, id, event);
    assert(have_ids(all)) by {
        assert forall|i: int, j: int| 0 <= i < j < all.len() implies (#[trigger] all[i]).0 != (
        #[trigger] all[j]).0 by {
            if j < requests.len() {
                assert(requests[i].0 != requests[j].0);
            }
        }
    }
    let after = network::recorded(requests, id, event);
    let gone = all.len() - after.len();
    assert forall|i: int, j: int| 0 <= i < j < after.len() implies (#[trigger] after[i]).0 != (
    #[trigger] after[j]).0 by {
        assert(after[i] == all[gone + i] && after[j] == all[gone + j]);
    }
}

} // verus!
