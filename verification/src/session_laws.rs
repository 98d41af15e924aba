//! What holds of the place at which a session is forked.
use vstd::prelude::*;

use crate::session;
use crate::session::SessionEnvelope;

verus! {

/// A fork keeps whole turns: it is cut behind the end of a turn that is not over before the place
/// that was named. A place behind the log, or none, leaves the choice to the turns of the log.
pub proof fn fork_keeps_whole_turns(events: Seq<SessionEnvelope>, place: u64, i: int)
    requires
        0 <= i < events.len(),
    ensures
        session::ends_turn(events, None, i) <==> events[i].event is TurnEnd,
        place <= events.last().seq ==> (session::ends_turn(events, Some(place), i) <==> events[i].event
            is TurnEnd && events[i].seq >= place),
        place > events.last().seq ==> (session::ends_turn(events, Some(place), i) <==> events[i].event
            is TurnEnd),
        !session::anchored(events, None),
        session::anchored(events, Some(place)) <==> place <= events.last().seq,
        !session::anchored(Seq::empty(), Some(place)),
{
}

} // verus!
