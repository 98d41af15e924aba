//! What holds of the order of the events in a session's log.
use vstd::prelude::*;

use crate::agent::log;
use crate::agent::log::{EventView, LogState, ReasonView};

verus! {

/// A turn with one step is in order: it begins, its step begins and ends, and it ends.
pub proof fn turn_is_in_order(turn: u32, step: u32, reason: ReasonView)
    ensures
        log::state_after(LogState::Closed, EventView::TurnStart { turn }) == Some(
            LogState::Turn { turn },
        ),
        log::state_after(LogState::Turn { turn }, EventView::StepStart { turn, step }) == Some(
            LogState::Step { turn, step },
        ),
        log::state_after(LogState::Step { turn, step }, EventView::StepEnd { turn, step }) == Some(
            LogState::Turn { turn },
        ),
        log::state_after(LogState::Turn { turn }, EventView::TurnEnd { turn, reason }) == Some(
            LogState::Closed,
        ),
{
}

/// A turn does not begin within another, a step not outside of its turn, and a turn does not end
/// within a step; nor does one that never began.
pub proof fn nothing_is_out_of_place(turn: u32, step: u32, other: u32, reason: ReasonView)
    requires
        other != turn,
    ensures
        log::state_after(LogState::Turn { turn }, EventView::TurnStart { turn: other }) is None,
        log::state_after(LogState::Step { turn, step }, EventView::TurnStart { turn: other }) is None,
        log::state_after(LogState::Closed, EventView::StepStart { turn, step }) is None,
        log::state_after(LogState::Turn { turn }, EventView::StepStart { turn: other, step }) is None,
        log::state_after(LogState::Step { turn, step }, EventView::StepStart { turn, step }) is None,
        log::state_after(LogState::Turn { turn }, EventView::StepEnd { turn, step }) is None,
        log::state_after(LogState::Step { turn, step }, EventView::TurnEnd { turn, reason }) is None,
        log::state_after(LogState::Closed, EventView::TurnEnd { turn, reason }) is None,
        log::state_after(LogState::Turn { turn }, EventView::TurnEnd { turn: other, reason }) is None,
{
}

/// What is in order one after the other is in order together.
pub proof fn order_goes_on(state: LogState, a: Seq<EventView>, b: Seq<EventView>)
    ensures
        log::state_after_all(state, a) is None ==> log::state_after_all(state, a + b) is None,
        log::state_after_all(state, a) matches Some(next) ==> log::state_after_all(state, a + b)
            == log::state_after_all(next, b),
        log::state_after_all(state, Seq::empty()) == Some(state),
    decreases b.len(),
{
    if b.len() == 0 {
        assert(a + b =~= a);
    } else {
        assert((a + b).drop_last() =~= a + b.drop_last());
        order_goes_on(state, a, b.drop_last());
    }
}

/// A turn that the user cancelled ends its step first, and tells that it was the user.
pub proof fn cancelled_turn_is_closed(turn: u32, step: u32)
    ensures
        log::state_after_all(LogState::Step { turn, step }, log::aborted_closing(turn, step)) == Some(
            LogState::Closed,
        ),
        log::aborted_closing(turn, step).last() == (EventView::TurnEnd {
            turn,
            reason: log::user_abort(),
        }),
        log::user_abort() is Aborted,
{
    let events = log::aborted_closing(turn, step);
    assert(events.drop_last() =~= seq![events[0]]);
    assert(events.drop_last().drop_last() =~= Seq::empty());
    reveal_with_fuel(log::state_after_all, 3);
}

/// A message of the harness is logged as such, with its channel and its text.
pub proof fn injected_message_is_told_apart(channel: Seq<char>, text: Seq<char>)
    ensures
        log::injection(channel, text) matches EventView::Injected { text: said, channel: of, images }
            && said == text && of == Some(channel) && images.len() == 0,
{
}

} // verus!
