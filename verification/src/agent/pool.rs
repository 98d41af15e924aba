//! The calls of one step: which of them run at the same time, and in which order they are answered.
use vstd::prelude::*;

verus! {

/// How many calls run at the same time.
#[derive(Debug, Clone, Copy, PartialEq, Eq, Structural)]
pub struct ParallelSettings {
    pub max_parallel_tool_calls: usize,
}

impl Default for ParallelSettings {
    fn default() -> (settings: Self)
        ensures
            settings.max_parallel_tool_calls == 10,
    {
        ParallelSettings { max_parallel_tool_calls: 10 }
    }
}

/// What is decided of a call.
#[derive(Debug, Clone, Copy, PartialEq, Eq, Structural)]
pub enum CallVerdict {
    /// It is answered with an error, once the calls before it are answered.
    Refuse,
    /// It runs beside others.
    Allow,
    /// The user is asked, and it runs alone.
    Ask,
}

/// What is done next.
#[derive(Debug, Clone, Copy, PartialEq, Eq, Structural)]
pub enum PoolMove {
    /// The call is answered with an error.
    Refuse(usize),
    /// The call begins to run.
    Start(usize),
    /// The user is asked about the call, and it is answered.
    Ask(usize),
    /// The call that has run longest is waited for and answered.
    Collect(usize),
    /// All calls are answered.
    Finished,
}

/// The calls of one step.
#[derive(Debug)]
pub struct CallPool {
    total: usize,
    limit: usize,
    next: usize,
    running: Vec<usize>,
}

#[verifier::ext_equal]
pub struct PoolView {
    /// How many calls there are.
    pub total: int,
    /// How many run at the same time.
    pub limit: int,
    /// The first call that nothing was decided of.
    pub next: int,
    /// The calls that run, the longest first.
    pub running: Seq<int>,
}

impl View for CallPool {
    type V = PoolView;

    closed spec fn view(&self) -> PoolView {
        PoolView {
            total: self.total as int,
            limit: self.limit as int,
            next: self.next as int,
            running: self.running@.map_values(|i: usize| i as int),
        }
    }
}

/// The pool before anything is decided.
pub open spec fn fresh(total: int, limit: int) -> PoolView {
    PoolView { total, limit, next: 0, running: Seq::empty() }
}

/// The calls that run are the last that something was decided of, in their order, and not too many.
pub open spec fn valid(p: PoolView) -> bool {
    &&& 0 <= p.next <= p.total
    &&& 1 <= p.limit
    &&& p.running.len() <= p.limit
    &&& p.running.len() <= p.next
    &&& forall|i: int|
        0 <= i < p.running.len() ==> #[trigger] p.running[i] == p.next - p.running.len() + i
}

/// The call that something has to be decided of now.
pub open spec fn wanted(p: PoolView) -> Option<int> {
    if p.next < p.total && p.running.len() < p.limit {
        Some(p.next)
    } else {
        None
    }
}

/// What a move does.
pub enum MoveView {
    Refuse(int),
    Start(int),
    Ask(int),
    Collect(int),
    Finished,
}

impl View for PoolMove {
    type V = MoveView;

    open spec fn view(&self) -> MoveView {
        match *self {
            PoolMove::Refuse(i) => MoveView::Refuse(i as int),
            PoolMove::Start(i) => MoveView::Start(i as int),
            PoolMove::Ask(i) => MoveView::Ask(i as int),
            PoolMove::Collect(i) => MoveView::Collect(i as int),
            PoolMove::Finished => MoveView::Finished,
        }
    }
}

/// The call that has run longest is answered.
pub open spec fn collected(p: PoolView) -> (PoolView, MoveView) {
    if p.running.len() > 0 {
        (
            PoolView { running: p.running.drop_first(), ..p },
            MoveView::Collect(p.running[0]),
        )
    } else {
        (p, MoveView::Finished)
    }
}

/// What is done next, given what is decided of the call that is wanted. A call that is refused waits
/// until those before it are answered, and so does one that the user is asked about.
pub open spec fn pool_move(p: PoolView, verdict: CallVerdict) -> (PoolView, MoveView) {
    if wanted(p) is Some {
        match verdict {
            CallVerdict::Refuse => if p.running.len() == 0 {
                (PoolView { next: p.next + 1, ..p }, MoveView::Refuse(p.next))
            } else {
                collected(p)
            },
            CallVerdict::Allow => (
                PoolView { next: p.next + 1, running: p.running.push(p.next), ..p },
                MoveView::Start(p.next),
            ),
            CallVerdict::Ask => if p.running.len() == 0 {
                (PoolView { next: p.next + 1, ..p }, MoveView::Ask(p.next))
            } else {
                collected(p)
            },
        }
    } else {
        collected(p)
    }
}

impl CallPool {
    /// The pool for a number of calls. At least one call runs at a time.
    pub fn new(total: usize, settings: &ParallelSettings) -> (pool: Self)
        ensures
            pool@ == fresh(
                total as int,
                if settings.max_parallel_tool_calls > 0 {
                    settings.max_parallel_tool_calls as int
                } else {
                    1
                },
            ),
            valid(pool@),
    {
        let limit: usize = if settings.max_parallel_tool_calls > 0 {
            settings.max_parallel_tool_calls
        } else {
            1
        };
        let pool = CallPool { total, limit, next: 0, running: Vec::new() };
        assert(pool@.running =~= Seq::empty());
        pool
    }

    /// The call that something has to be decided of now.
    pub fn wants(&self) -> (call: Option<usize>)
        ensures
            wanted(self@) == (match call {
                Some(call) => Some(call as int),
                None => None::<int>,
            }),
    {
        if self.next < self.total && self.running.len() < self.limit {
            Some(self.next)
        } else {
            None
        }
    }

    fn collect(&mut self) -> (done: PoolMove)
        requires
            valid(old(self)@),
        ensures
            (final(self)@, done@) == collected(old(self)@),
    {
        if self.running.len() == 0 {
            return PoolMove::Finished;
        }
        let ghost before = self@.running;
        let first: usize = self.running.remove(0);
        assert(self@.running =~= before.drop_first());
        PoolMove::Collect(first)
    }

    /// What is done next. The verdict counts only where a call is wanted.
    pub fn advance(&mut self, verdict: CallVerdict) -> (done: PoolMove)
        requires
            valid(old(self)@),
        ensures
            (final(self)@, done@) == pool_move(old(self)@, verdict),
            valid(final(self)@),
    {
        proof {
            lemma_valid(self@, verdict);
        }
        let ghost before = self@.running;
        match self.wants() {
            Some(call) => match verdict {
                CallVerdict::Refuse => {
                    if self.running.len() == 0 {
                        self.next = self.next + 1;
                        PoolMove::Refuse(call)
                    } else {
                        self.collect()
                    }
                },
                CallVerdict::Allow => {
                    self.next = self.next + 1;
                    self.running.push(call);
                    assert(self@.running =~= before.push(call as int));
                    PoolMove::Start(call)
                },
                CallVerdict::Ask => {
                    if self.running.len() == 0 {
                        self.next = self.next + 1;
                        PoolMove::Ask(call)
                    } else {
                        self.collect()
                    }
                },
            },
            None => self.collect(),
        }
    }
}

/// A pool stays valid.
pub proof fn lemma_valid(p: PoolView, verdict: CallVerdict)
    requires
        valid(p),
    ensures
        valid(pool_move(p, verdict).0),
{
}

/// The pool after a row of verdicts.
pub open spec fn pool_after(total: int, limit: int, verdicts: Seq<CallVerdict>) -> PoolView
    decreases verdicts.len(),
{
    if verdicts.len() == 0 {
        fresh(total, limit)
    } else {
        pool_move(pool_after(total, limit, verdicts.drop_last()), verdicts.last()).0
    }
}

/// The last move after a row of verdicts.
pub open spec fn last_move(total: int, limit: int, verdicts: Seq<CallVerdict>) -> MoveView
    recommends
        verdicts.len() > 0,
{
    pool_move(pool_after(total, limit, verdicts.drop_last()), verdicts.last()).1
}

/// The call that a move answers.
pub open spec fn answers(made: MoveView) -> Option<int> {
    match made {
        MoveView::Refuse(i) => Some(i),
        MoveView::Ask(i) => Some(i),
        MoveView::Collect(i) => Some(i),
        _ => None,
    }
}

/// The calls that were answered, in the order of their answers.
pub open spec fn answered(total: int, limit: int, verdicts: Seq<CallVerdict>) -> Seq<int>
    decreases verdicts.len(),
{
    if verdicts.len() == 0 {
        Seq::empty()
    } else {
        let before = answered(total, limit, verdicts.drop_last());
        match answers(last_move(total, limit, verdicts)) {
            Some(i) => before.push(i),
            None => before,
        }
    }
}

/// The call that a move begins: it is logged before it runs or is answered.
pub open spec fn begins(made: MoveView) -> Option<int> {
    match made {
        MoveView::Refuse(i) => Some(i),
        MoveView::Start(i) => Some(i),
        MoveView::Ask(i) => Some(i),
        _ => None,
    }
}

/// The calls that were begun, in the order in which they were.
pub open spec fn begun(total: int, limit: int, verdicts: Seq<CallVerdict>) -> Seq<int>
    decreases verdicts.len(),
{
    if verdicts.len() == 0 {
        Seq::empty()
    } else {
        let before = begun(total, limit, verdicts.drop_last());
        match begins(last_move(total, limit, verdicts)) {
            Some(i) => before.push(i),
            None => before,
        }
    }
}

/// What was begun is what was decided of, and what was answered is what of it does not run.
proof fn lemma_in_order(total: int, limit: int, verdicts: Seq<CallVerdict>)
    requires
        0 <= total,
        1 <= limit,
    ensures
        ({
            let p = pool_after(total, limit, verdicts);
            let started = begun(total, limit, verdicts);
            let done = answered(total, limit, verdicts);
            &&& valid(p) && p.total == total && p.limit == limit
            &&& started.len() == p.next
            &&& done.len() == p.next - p.running.len()
            &&& forall|i: int| 0 <= i < started.len() ==> #[trigger] started[i] == i
            &&& forall|i: int| 0 <= i < done.len() ==> #[trigger] done[i] == i
        }),
    decreases verdicts.len(),
{
    if verdicts.len() > 0 {
        let rest = verdicts.drop_last();
        lemma_in_order(total, limit, rest);
        lemma_valid(pool_after(total, limit, rest), verdicts.last());
    }
}

/// Whatever is decided: once the pool has finished, every call was answered, and none twice.
pub proof fn every_call_is_answered_once(total: int, limit: int, verdicts: Seq<CallVerdict>)
    requires
        0 <= total,
        1 <= limit,
        verdicts.len() > 0,
        last_move(total, limit, verdicts) is Finished,
    ensures
        answered(total, limit, verdicts).no_duplicates(),
        forall|i: int|
            0 <= i < total <==> #[trigger] answered(total, limit, verdicts).contains(i),
{
    lemma_in_order(total, limit, verdicts);
    lemma_in_order(total, limit, verdicts.drop_last());
    let done = answered(total, limit, verdicts);
    assert(done.len() == total);
    assert forall|i: int| 0 <= i < total <==> #[trigger] done.contains(i) by {
        if 0 <= i < total {
            assert(done[i] == i);
        }
    }
}

/// How much there is to do: a call that nothing was decided of is started and answered.
pub open spec fn remaining(p: PoolView) -> int {
    2 * (p.total - p.next) + p.running.len()
}

/// Every move but the last leaves less to do, so the pool finishes.
pub proof fn pool_makes_progress(p: PoolView, verdict: CallVerdict)
    requires
        valid(p),
    ensures
        remaining(p) >= 0,
        !(pool_move(p, verdict).1 is Finished) ==> remaining(pool_move(p, verdict).0) < remaining(p),
        pool_move(p, verdict).1 is Finished ==> remaining(p) == 0,
{
}

/// Never more calls run than the limit allows, and a call that the user is asked about runs alone.
pub proof fn pool_keeps_its_limit(p: PoolView, verdict: CallVerdict)
    requires
        valid(p),
    ensures
        pool_move(p, verdict).0.running.len() <= p.limit,
        pool_move(p, verdict).1 is Ask ==> p.running.len() == 0 && pool_move(
            p,
            verdict,
        ).0.running.len() == 0,
{
    lemma_valid(p, verdict);
}

/// The calls are answered in the order in which the model made them, whatever is decided of them.
pub proof fn calls_are_answered_in_order(
    total: int,
    limit: int,
    verdicts: Seq<CallVerdict>,
    i: int,
    j: int,
)
    requires
        0 <= total,
        1 <= limit,
        0 <= i < j < answered(total, limit, verdicts).len(),
    ensures
        answered(total, limit, verdicts)[i] == i,
        answered(total, limit, verdicts)[i] < answered(total, limit, verdicts)[j],
{
    lemma_in_order(total, limit, verdicts);
}

/// The calls are begun in the order in which the model made them, each once, and none is answered
/// that was not begun.
pub proof fn calls_are_begun_before_they_are_answered(
    total: int,
    limit: int,
    verdicts: Seq<CallVerdict>,
)
    requires
        0 <= total,
        1 <= limit,
    ensures
        forall|i: int|
            0 <= i < begun(total, limit, verdicts).len() ==> #[trigger] begun(
                total,
                limit,
                verdicts,
            )[i] == i,
        answered(total, limit, verdicts).is_prefix_of(begun(total, limit, verdicts)),
        begun(total, limit, verdicts).len() <= total,
{
    lemma_in_order(total, limit, verdicts);
    let done = answered(total, limit, verdicts);
    assert(done =~= begun(total, limit, verdicts).take(done.len() as int));
}

} // verus!
