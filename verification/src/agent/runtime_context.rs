//! The part of the context that changes while a session runs: it is sent when it changed.
use vstd::prelude::*;
use vstd::string::*;

use crate::session::{SessionEnvelope, SessionEvent};
use crate::text;
use crate::text::str_eq;

verus! {

/// The last snapshot that was sent.
#[derive(Debug)]
pub struct RuntimeContextProjection {
    retained: Option<String>,
}

impl View for RuntimeContextProjection {
    type V = Option<Seq<char>>;

    closed spec fn view(&self) -> Option<Seq<char>> {
        text::opt_view(self.retained)
    }
}

/// The text of the event at `i`, if it is an injected message that is a snapshot.
pub open spec fn snapshot_at(
    events: Seq<SessionEnvelope>,
    is_snapshot: Seq<bool>,
    i: int,
) -> Option<Seq<char>> {
    match events[i].event {
        SessionEvent::UserMessage { text, injected, .. } => if injected && is_snapshot[i] {
            Some(text@)
        } else {
            None
        },
        _ => None,
    }
}

/// The last snapshot among the first `upto` events.
pub open spec fn last_snapshot(
    events: Seq<SessionEnvelope>,
    is_snapshot: Seq<bool>,
    upto: int,
) -> Option<Seq<char>>
    decreases upto,
{
    if upto <= 0 {
        None
    } else {
        match snapshot_at(events, is_snapshot, upto - 1) {
            Some(text) => Some(text),
            None => last_snapshot(events, is_snapshot, upto - 1),
        }
    }
}

/// What is sent, given what was sent last and the context now; `None` where nothing is.
pub open spec fn to_send(
    last: Option<Seq<char>>,
    current: Seq<char>,
    cleared: Seq<char>,
) -> Option<Seq<char>> {
    let snapshot = if current.len() == 0 {
        cleared
    } else {
        current
    };
    if (last is None && current.len() == 0) || last == Some(snapshot) {
        None
    } else {
        Some(snapshot)
    }
}

impl Default for RuntimeContextProjection {
    fn default() -> (projection: Self)
        ensures
            projection@ is None,
    {
        RuntimeContextProjection { retained: None }
    }
}

impl RuntimeContextProjection {
    /// Takes up the last snapshot of a log. `is_snapshot` says of each event whether its text is
    /// a snapshot.
    pub fn restore(events: &[SessionEnvelope], is_snapshot: &[bool]) -> (projection: Self)
        requires
            is_snapshot@.len() == events@.len(),
        ensures
            projection@ == last_snapshot(events@, is_snapshot@, events@.len() as int),
    {
        let mut i: usize = events.len();
        while i > 0
            invariant
                i <= events@.len() == is_snapshot@.len(),
                last_snapshot(events@, is_snapshot@, events@.len() as int) == last_snapshot(
                    events@,
                    is_snapshot@,
                    i as int,
                ),
            decreases i,
        {
            i -= 1;
            if let SessionEvent::UserMessage { text, injected, .. } = &events[i].event {
                if *injected && is_snapshot[i] {
                    return RuntimeContextProjection { retained: Some(text.clone()) };
                }
            }
        }
        RuntimeContextProjection { retained: None }
    }

    /// What is to be sent, given the context as it is rendered now. `cleared` says that there is
    /// none any more.
    pub fn project(&mut self, current: &str, cleared: &str) -> (snapshot: Option<String>)
        ensures
            text::opt_view(snapshot) == to_send(old(self)@, current@, cleared@),
            final(self)@ == (match snapshot {
                Some(snapshot) => Some(snapshot@),
                None => old(self)@,
            }),
    {
        if self.retained.is_none() && current.is_empty() {
            return None;
        }
        let snapshot = if current.is_empty() {
            cleared.to_owned()
        } else {
            current.to_owned()
        };
        let same = match &self.retained {
            Some(last) => str_eq(last.as_str(), snapshot.as_str()),
            None => false,
        };
        if same {
            return None;
        }
        self.retained = Some(snapshot.clone());
        Some(snapshot)
    }
}

/// A context that was sent is not sent again while it stays the same.
pub proof fn unchanged_context_is_not_repeated(
    last: Option<Seq<char>>,
    current: Seq<char>,
    cleared: Seq<char>,
)
    ensures
        to_send(last, current, cleared) matches Some(snapshot) ==> to_send(
            Some(snapshot),
            current,
            cleared,
        ) is None,
{
}

} // verus!
