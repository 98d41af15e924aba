//! What holds of the calls that run side by side.
use vstd::prelude::*;

use crate::agent::pool;
use crate::agent::pool::{CallVerdict, MoveView, PoolView};

verus! {

/// A call that is allowed starts at once while there is room, beside those that run.
pub proof fn allowed_call_starts(p: PoolView)
    requires
        pool::valid(p),
        p.next < p.total,
        p.running.len() < p.limit,
    ensures
        ({
            let (after, made) = pool::pool_move(p, CallVerdict::Allow);
            &&& made == MoveView::Start(p.next)
            &&& after.next == p.next + 1
            &&& after.running == p.running + seq![p.next]
            &&& after.total == p.total
            &&& after.limit == p.limit
        }),
{
    let (after, made) = pool::pool_move(p, CallVerdict::Allow);
    assert(after.running =~= p.running + seq![p.next]);
}

/// A call that is refused, or that the user is asked about, comes when nothing runs any more; until
/// then those that run are answered, the oldest first.
pub proof fn others_wait_for_the_running(p: PoolView)
    requires
        pool::valid(p),
        p.next < p.total,
        p.running.len() < p.limit,
    ensures
        p.running.len() == 0 ==> pool::pool_move(p, CallVerdict::Refuse).1 == MoveView::Refuse(p.next),
        p.running.len() == 0 ==> pool::pool_move(p, CallVerdict::Ask).1 == MoveView::Ask(p.next),
        p.running.len() == 0 ==> pool::pool_move(p, CallVerdict::Refuse).0.next == p.next + 1,
        p.running.len() == 0 ==> pool::pool_move(p, CallVerdict::Ask).0.next == p.next + 1,
        p.running.len() > 0 ==> pool::pool_move(p, CallVerdict::Refuse).1 == MoveView::Collect(
            p.next - p.running.len(),
        ),
        p.running.len() > 0 ==> pool::pool_move(p, CallVerdict::Ask).1 == MoveView::Collect(
            p.next - p.running.len(),
        ),
        p.running.len() > 0 ==> pool::pool_move(p, CallVerdict::Refuse).0.next == p.next,
        p.running.len() > 0 ==> pool::pool_move(p, CallVerdict::Ask).0.next == p.next,
{
}

/// Where there is no room, or no call left, the oldest of those that run is answered, whatever is
/// decided.
pub proof fn full_pool_answers_the_oldest(p: PoolView, verdict: CallVerdict)
    requires
        pool::valid(p),
        p.next == p.total || p.running.len() == p.limit,
    ensures
        p.running.len() > 0 ==> pool::pool_move(p, verdict).1 == MoveView::Collect(
            p.next - p.running.len(),
        ),
        p.running.len() > 0 ==> pool::pool_move(p, verdict).0.running == p.running.skip(1),
        p.running.len() == 0 ==> pool::pool_move(p, verdict).1 == MoveView::Finished,
        pool::wanted(p) is None,
{
    if p.running.len() > 0 {
        assert(p.running.drop_first() =~= p.running.skip(1));
    }
}

} // verus!
