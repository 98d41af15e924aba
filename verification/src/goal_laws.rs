//! What each operation does to a goal, and what it leaves alone.
use vstd::prelude::*;

use crate::session;
use crate::session::{GoalOp, GoalStatus, GoalView};
use crate::text;
use crate::text_laws;

verus! {

/// A goal that is the same but for its status, the reason for being blocked and the time of change.
pub open spec fn is_same_pursuit(goal: GoalView, next: GoalView) -> bool {
    next == (GoalView {
        status: next.status,
        blocked_reason: next.blocked_reason,
        updated_at: next.updated_at,
        ..goal
    })
}

/// A text holds something to be seen.
pub open spec fn says_something(text: Seq<char>) -> bool {
    exists|i: int| 0 <= i < text.len() && !text::is_space(#[trigger] text[i])
}

/// A goal that is set where there is none is pursued from then on: with its text as it is given, no
/// rounds yet, and its account beginning at the session's tokens. Where there is a goal, setting one
/// changes nothing.
pub proof fn set_goal_is_pursued(
    objective: String,
    token_budget: Option<u64>,
    goal: GoalView,
    now: u64,
    tokens: u64,
)
    ensures
        session::goal_after(None, GoalOp::SetGoal { objective, token_budget }, now, tokens) matches Some(
            begun,
        ) && {
            &&& begun.objective == objective@
            &&& begun.status == GoalStatus::Active
            &&& begun.token_budget == (if token_budget == Some(0u64) {
                None
            } else {
                token_budget
            })
            &&& begun.blocked_reason is None
            &&& begun.base_tokens == tokens
            &&& begun.rounds_started == 0
            &&& begun.created_at == now && begun.updated_at == now
        },
        session::goal_after(Some(goal), GoalOp::SetGoal { objective, token_budget }, now, tokens)
            == Some(goal),
{
}

/// Pausing, resuming, completing, blocking and running out of budget move a goal's status and
/// nothing else: each from where it may begin, and no further.
pub proof fn moves_of_a_goal(goal: GoalView, reason: String, now: u64, tokens: u64)
    ensures
        session::goal_after(Some(goal), GoalOp::Pause, now, tokens) matches Some(next)
            && is_same_pursuit(goal, next) && next.updated_at == now && next.blocked_reason
            == goal.blocked_reason && next.status == (if goal.status == GoalStatus::Active {
            GoalStatus::Paused
        } else {
            goal.status
        }),
        session::goal_after(Some(goal), GoalOp::Resume, now, tokens) matches Some(next)
            && is_same_pursuit(goal, next) && next.updated_at == now && (if goal.status
            == GoalStatus::Paused || goal.status == GoalStatus::Blocked {
            next.status == GoalStatus::Active && next.blocked_reason is None
        } else {
            next.status == goal.status && next.blocked_reason == goal.blocked_reason
        }),
        session::goal_after(Some(goal), GoalOp::Complete, now, tokens) matches Some(next)
            && is_same_pursuit(goal, next) && next.updated_at == now && next.status
            == GoalStatus::Complete && (goal.status != GoalStatus::Complete
            ==> next.blocked_reason is None),
        session::goal_after(Some(goal), GoalOp::BudgetLimit, now, tokens) matches Some(next)
            && is_same_pursuit(goal, next) && next.updated_at == now && next.blocked_reason
            == goal.blocked_reason && next.status == (if goal.status == GoalStatus::Active {
            GoalStatus::BudgetLimited
        } else {
            goal.status
        }),
        goal.status != GoalStatus::Complete ==> (session::goal_after(
            Some(goal),
            GoalOp::Block { reason },
            now,
            tokens,
        ) matches Some(next) && is_same_pursuit(goal, next) && next.updated_at == now && next.status
            == GoalStatus::Blocked && (if says_something(reason@) {
            next.blocked_reason == Some(text::trimmed(reason@))
        } else {
            next.blocked_reason is None
        })),
{
    text_laws::blank_text_is_white_space(reason@);
}

/// A round is counted, up to the largest count, and changes nothing else.
pub proof fn round_is_counted(goal: GoalView, now: u64, tokens: u64)
    ensures
        session::goal_after(Some(goal), GoalOp::Round, now, tokens) matches Some(next) && next == (
        GoalView { rounds_started: next.rounds_started, updated_at: now, ..goal })
            && next.rounds_started == (if goal.rounds_started < u32::MAX {
            goal.rounds_started + 1
        } else {
            u32::MAX as int
        }),
{
}

/// An edit changes what it names: the text, the budget or both. What was blocked or out of budget is
/// pursued again; what was paused stays paused. A blank text changes nothing at all.
pub proof fn edit_changes_what_it_names(
    goal: GoalView,
    objective: Option<String>,
    token_budget: Option<u64>,
    now: u64,
    tokens: u64,
)
    requires
        goal.status != GoalStatus::Complete,
    ensures
        ({
            let next = session::goal_after(
                Some(goal),
                GoalOp::Edit { objective, token_budget },
                now,
                tokens,
            );
            if objective matches Some(text) && !says_something(text@) {
                next == Some(goal)
            } else {
                next matches Some(next) && {
                    &&& next.objective == (match objective {
                        Some(text) => text::trimmed(text@),
                        None => goal.objective,
                    })
                    &&& token_budget is None ==> next.token_budget == goal.token_budget
                    &&& token_budget == Some(0u64) ==> next.token_budget is None
                    &&& token_budget is Some && token_budget != Some(0u64) ==> next.token_budget
                        == token_budget
                    &&& goal.status == GoalStatus::Active || goal.status == GoalStatus::Paused
                        ==> next.status == goal.status && next.blocked_reason == goal.blocked_reason
                    &&& goal.status == GoalStatus::Blocked || goal.status
                        == GoalStatus::BudgetLimited ==> next.status == GoalStatus::Active
                        && next.blocked_reason is None
                    &&& next.rounds_started == goal.rounds_started
                    &&& next.base_tokens == goal.base_tokens
                    &&& next.created_at == goal.created_at
                    &&& next.updated_at == now
                }
            }
        }),
{
    if let Some(text) = objective {
        text_laws::blank_text_is_white_space(text@);
    }
}

} // verus!
