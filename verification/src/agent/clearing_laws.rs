//! What holds of every clearing of old results.
use vstd::prelude::*;
use vstd::string::*;

use crate::agent::microcompact;
use crate::agent::microcompact::{
    CandidateView, DecisionView, MicrocompactSettings, MicrocompactTrigger, Rules,
    CLEARED_PLACEHOLDER,
};
use crate::history::SurfaceView;
use crate::message::ChatRole;
use crate::text;

verus! {

/// A message makes the call `id` of a tool, and is the first of the history to make it.
pub open spec fn calls_first(surface: Seq<SurfaceView>, at: int, k: int, id: Seq<char>) -> bool {
    &&& 0 <= at < surface.len()
    &&& 0 <= k < surface[at].message.tool_calls.len()
    &&& surface[at].message.tool_calls[k].id == id
    &&& forall|j: int| 0 <= j < k ==> (#[trigger] surface[at].message.tool_calls[j]).id != id
    &&& forall|i: int, j: int|
        0 <= i < at && 0 <= j < (#[trigger] surface[i]).message.tool_calls.len() ==> (
        #[trigger] surface[i].message.tool_calls[j]).id != id
}

/// A result that may be cleared: of a tool that is on the list, not failed unless failures may go
/// too, not cleared before, and without images.
pub open spec fn may_go(surface: Seq<SurfaceView>, item: SurfaceView, rules: Rules) -> bool {
    &&& item.message.role == ChatRole::Tool
    &&& item.is_error ==> rules.clear_errors
    &&& text::trimmed(item.message.content) != CLEARED_PLACEHOLDER@
    &&& item.message.images.len() == 0
    &&& item.message.tool_call_id matches Some(id) && exists|at: int, k: int| #[trigger]
        calls_first(surface, at, k, id) && rules.tools.contains(
            surface[at].message.tool_calls[k].name,
        )
}

proof fn lemma_call_named(surface: Seq<SurfaceView>, at: int, id: Seq<char>, from: int)
    requires
        0 <= from,
        0 <= at < surface.len(),
    ensures
        ({
            let calls = surface[at].message.tool_calls;
            match microcompact::call_named(calls, id, from) {
                Some(name) => exists|k: int|
                    from <= k < calls.len() && (#[trigger] calls[k]).id == id && calls[k].name == name
                        && forall|j: int| from <= j < k ==> (#[trigger] calls[j]).id != id,
                None => forall|j: int| from <= j < calls.len() ==> (#[trigger] calls[j]).id != id,
            }
        }),
    decreases surface[at].message.tool_calls.len() - from,
{
    let calls = surface[at].message.tool_calls;
    if from < calls.len() {
        if calls[from].id == id {
            assert(calls[from].name == calls[from].name);
        } else {
            lemma_call_named(surface, at, id, from + 1);
        }
    }
}

proof fn lemma_tool_called(surface: Seq<SurfaceView>, id: Seq<char>, from: int)
    requires
        0 <= from <= surface.len(),
        forall|i: int, j: int|
            0 <= i < from && 0 <= j < (#[trigger] surface[i]).message.tool_calls.len() ==> (
            #[trigger] surface[i].message.tool_calls[j]).id != id,
    ensures
        match microcompact::tool_called(surface, id, from) {
            Some(name) => exists|at: int, k: int| #[trigger]
                calls_first(surface, at, k, id) && surface[at].message.tool_calls[k].name == name,
            None => forall|at: int, k: int| !#[trigger] calls_first(surface, at, k, id),
        },
    decreases surface.len() - from,
{
    if from < surface.len() {
        lemma_call_named(surface, from, id, 0);
        let calls = surface[from].message.tool_calls;
        match microcompact::call_named(calls, id, 0) {
            Some(name) => {
                let k = choose|k: int|
                    0 <= k < calls.len() && (#[trigger] calls[k]).id == id && calls[k].name == name
                        && forall|j: int| 0 <= j < k ==> (#[trigger] calls[j]).id != id;
                assert(calls_first(surface, from, k, id));
            },
            None => {
                lemma_tool_called(surface, id, from + 1);
            },
        }
    }
}

proof fn lemma_first_is_one(
    surface: Seq<SurfaceView>,
    id: Seq<char>,
    at: int,
    k: int,
    other: int,
    m: int,
)
    requires
        calls_first(surface, at, k, id),
        calls_first(surface, other, m, id),
    ensures
        at == other && k == m,
{
    if at < other {
        assert(surface[at].message.tool_calls[k].id != id);
    } else if other < at {
        assert(surface[other].message.tool_calls[m].id != id);
    }
}

/// What may be cleared is cleared no less and no more.
pub proof fn clearable_results_may_go(surface: Seq<SurfaceView>, item: SurfaceView, rules: Rules)
    ensures
        microcompact::clearable(surface, item, rules) == may_go(surface, item, rules),
{
    if let Some(id) = item.message.tool_call_id {
        lemma_tool_called(surface, id, 0);
        if exists|at: int, k: int| #[trigger]
            calls_first(surface, at, k, id) && rules.tools.contains(
                surface[at].message.tool_calls[k].name,
            ) {
            let (at, k) = choose|at: int, k: int| #[trigger]
                calls_first(surface, at, k, id) && rules.tools.contains(
                    surface[at].message.tool_calls[k].name,
                );
            if let Some(name) = microcompact::tool_called(surface, id, 0) {
                let (other, m) = choose|other: int, m: int| #[trigger]
                    calls_first(surface, other, m, id) && surface[other].message.tool_calls[m].name
                        == name;
                lemma_first_is_one(surface, id, at, k, other, m);
            }
        }
    }
}

/// The results among the first `upto` messages that may be cleared, in order.
pub open spec fn results(surface: Seq<SurfaceView>, upto: int, rules: Rules) -> Seq<CandidateView>
    decreases upto,
{
    if upto <= 0 {
        Seq::empty()
    } else {
        let item = surface[upto - 1];
        if may_go(surface, item, rules) {
            results(surface, upto - 1, rules).push(
                CandidateView { seq: item.seq, id: item.message.tool_call_id->0 },
            )
        } else {
            results(surface, upto - 1, rules)
        }
    }
}

/// An answer of the model that makes calls.
pub open spec fn is_round(item: SurfaceView) -> bool {
    item.message.role == ChatRole::Assistant && item.message.tool_calls.len() > 0
}

/// The result at `at` is the first of its round that may be cleared. Before the first round each
/// counts by itself.
pub open spec fn begins_group(surface: Seq<SurfaceView>, at: int, rules: Rules) -> bool {
    &&& 0 <= at < surface.len()
    &&& may_go(surface, surface[at], rules)
    &&& (forall|m: int| 0 <= m < at ==> !is_round(#[trigger] surface[m])) || exists|m: int|
        0 <= m < at && is_round(#[trigger] surface[m]) && forall|j: int|
            m < j < at ==> !may_go(surface, #[trigger] surface[j], rules)
}

/// How many groups of results that may be cleared begin in `from..to`.
pub open spec fn groups_within(surface: Seq<SurfaceView>, from: int, to: int, rules: Rules) -> nat
    decreases to - from,
{
    if to <= from {
        0
    } else {
        groups_within(surface, from, to - 1, rules) + (if begins_group(surface, to - 1, rules) {
            1nat
        } else {
            0
        })
    }
}

proof fn lemma_flat_push(groups: Seq<Seq<CandidateView>>, group: Seq<CandidateView>)
    ensures
        microcompact::flat(groups.push(group)) == microcompact::flat(groups) + group,
{
    assert(groups.push(group).drop_last() =~= groups);
}

proof fn lemma_round_exact(surface: Seq<SurfaceView>, item: SurfaceView, rules: Rules)
    ensures
        is_round(item) ==> !may_go(surface, item, rules),
{
}

/// Whether a round stands before `upto`.
spec fn is_open_at(surface: Seq<SurfaceView>, upto: int) -> bool {
    exists|m: int| 0 <= m < upto && is_round(#[trigger] surface[m])
}

proof fn lemma_open_step(surface: Seq<SurfaceView>, upto: int)
    requires
        0 < upto <= surface.len(),
    ensures
        is_open_at(surface, upto) == (is_open_at(surface, upto - 1) || is_round(
            surface[upto - 1],
        )),
{
    if is_open_at(surface, upto - 1) {
        let m = choose|m: int| 0 <= m < upto - 1 && is_round(#[trigger] surface[m]);
        assert(is_round(surface[m]));
    }
}

proof fn lemma_begins(surface: Seq<SurfaceView>, at: int, rules: Rules)
    requires
        0 <= at < surface.len(),
        may_go(surface, surface[at], rules),
    ensures
        begins_group(surface, at, rules) == (!is_open_at(surface, at) || !is_begun_after_round(
            surface,
            at,
            rules,
        )),
{
    if is_open_at(surface, at) {
        if begins_group(surface, at, rules) {
            let m0 = choose|m: int| 0 <= m < at && is_round(#[trigger] surface[m]);
            assert(is_round(surface[m0]));
            let m = choose|m: int|
                0 <= m < at && is_round(#[trigger] surface[m]) && forall|j: int|
                    m < j < at ==> !may_go(surface, #[trigger] surface[j], rules);
            if is_begun_after_round(surface, at, rules) {
                let j = choose|j: int|
                    0 <= j < at && may_go(surface, #[trigger] surface[j], rules) && (forall|n: int|
                        j < n < at ==> !is_round(#[trigger] surface[n])) && is_open_at(surface, j);
                if m < j {
                    assert(!may_go(surface, surface[j], rules));
                } else if j < m {
                    assert(!is_round(surface[m]));
                } else {
                    lemma_round_exact(surface, surface[j], rules);
                }
            }
        } else {
            lemma_last_round(surface, at);
            let m = choose|m: int|
                0 <= m < at && is_round(#[trigger] surface[m]) && forall|n: int|
                    m < n < at ==> !is_round(#[trigger] surface[n]);
            assert(is_round(surface[m]));
            let j = choose|j: int| m < j < at && may_go(surface, #[trigger] surface[j], rules);
            assert(is_open_at(surface, j));
            assert(is_begun_after_round(surface, at, rules));
        }
    } else {
        assert forall|m: int| 0 <= m < at implies !is_round(#[trigger] surface[m]) by {}
    }
}

spec fn is_begun_after_round(surface: Seq<SurfaceView>, upto: int, rules: Rules) -> bool {
    exists|j: int|
        0 <= j < upto && may_go(surface, #[trigger] surface[j], rules) && (forall|m: int|
            j < m < upto ==> !is_round(#[trigger] surface[m])) && is_open_at(surface, j)
}

proof fn lemma_last_round(surface: Seq<SurfaceView>, upto: int)
    requires
        0 <= upto <= surface.len(),
        is_open_at(surface, upto),
    ensures
        exists|m: int|
            0 <= m < upto && is_round(#[trigger] surface[m]) && forall|n: int|
                m < n < upto ==> !is_round(#[trigger] surface[n]),
    decreases upto,
{
    if is_round(surface[upto - 1]) {
        assert(is_round(surface[upto - 1]));
    } else {
        let k = choose|k: int| 0 <= k < upto && is_round(#[trigger] surface[k]);
        assert(is_open_at(surface, upto - 1));
        lemma_last_round(surface, upto - 1);
        let m = choose|m: int|
            0 <= m < upto - 1 && is_round(#[trigger] surface[m]) && forall|n: int|
                m < n < upto - 1 ==> !is_round(#[trigger] surface[n]);
        assert(is_round(surface[m]));
    }
}

proof fn lemma_begun_round_step(surface: Seq<SurfaceView>, upto: int, rules: Rules)
    requires
        0 < upto <= surface.len(),
    ensures
        is_begun_after_round(surface, upto, rules) == ((may_go(surface, surface[upto - 1], rules)
            && is_open_at(surface, upto - 1)) || (is_begun_after_round(surface, upto - 1, rules)
            && !is_round(surface[upto - 1]))),
{
    if is_begun_after_round(surface, upto - 1, rules) && !is_round(surface[upto - 1]) {
        let j = choose|j: int|
            0 <= j < upto - 1 && may_go(surface, #[trigger] surface[j], rules) && (forall|m: int|
                j < m < upto - 1 ==> !is_round(#[trigger] surface[m])) && is_open_at(surface, j);
        assert(may_go(surface, surface[j], rules));
    }
    if may_go(surface, surface[upto - 1], rules) && is_open_at(surface, upto - 1) {
        assert(may_go(surface, surface[upto - 1], rules));
    }
    if is_begun_after_round(surface, upto, rules) {
        let j = choose|j: int|
            0 <= j < upto && may_go(surface, #[trigger] surface[j], rules) && (forall|m: int|
                j < m < upto ==> !is_round(#[trigger] surface[m])) && is_open_at(surface, j);
        if j < upto - 1 {
            assert(!is_round(surface[upto - 1]));
            assert(may_go(surface, surface[j], rules));
        }
    }
}

/// What the groups of the first messages hold, and how many they are.
proof fn lemma_grouping(surface: Seq<SurfaceView>, upto: int, rules: Rules)
    requires
        0 <= upto <= surface.len(),
    ensures
        ({
            let g = microcompact::grouping(surface, upto, rules);
            &&& microcompact::flat(microcompact::closed(g)) == results(surface, upto, rules)
            &&& microcompact::closed(g).len() == groups_within(surface, 0, upto, rules)
            &&& (g.open is Some) == is_open_at(surface, upto)
            &&& (g.open matches Some(group) && group.len() > 0) == is_begun_after_round(
                surface,
                upto,
                rules,
            )
        }),
    decreases upto,
{
    if upto > 0 {
        let before = microcompact::grouping(surface, upto - 1, rules);
        let item = surface[upto - 1];
        lemma_grouping(surface, upto - 1, rules);
        clearable_results_may_go(surface, item, rules);
        lemma_round_exact(surface, item, rules);
        lemma_open_step(surface, upto);
        lemma_begun_round_step(surface, upto, rules);
        let candidate = CandidateView { seq: item.seq, id: item.message.tool_call_id->0 };
        if !is_round(item) && may_go(surface, item, rules) {
            lemma_begins(surface, upto - 1, rules);
            match before.open {
                Some(group) => {
                    lemma_flat_push(before.groups, group);
                    lemma_flat_push(before.groups, group.push(candidate));
                    if group.len() == 0 {
                        assert(microcompact::flat(before.groups) + group.push(candidate)
                            =~= microcompact::flat(before.groups).push(candidate));
                    } else {
                        assert(microcompact::flat(before.groups) + group.push(candidate) =~= (
                        microcompact::flat(before.groups) + group).push(candidate));
                    }
                },
                None => {
                    lemma_flat_push(before.groups, seq![candidate]);
                    assert(microcompact::flat(before.groups) + seq![candidate]
                        =~= microcompact::flat(before.groups).push(candidate));
                },
            }
        }
    } else {
        assert(microcompact::flat(Seq::<Seq<CandidateView>>::empty()) == Seq::<
            CandidateView,
        >::empty());
    }
}

proof fn lemma_flat_split(groups: Seq<Seq<CandidateView>>, count: int)
    requires
        0 <= count <= groups.len(),
    ensures
        microcompact::flat(groups) == microcompact::flat(groups.take(count)) + microcompact::flat(
            groups.skip(count),
        ),
    decreases groups.len(),
{
    if count == groups.len() {
        assert(groups.take(count) =~= groups);
        assert(groups.skip(count) =~= Seq::empty());
        assert(microcompact::flat(groups) + Seq::<CandidateView>::empty() =~= microcompact::flat(
            groups,
        ));
    } else {
        let rest = groups.drop_last();
        lemma_flat_split(rest, count);
        assert(rest.take(count) =~= groups.take(count));
        assert(rest.skip(count) =~= groups.skip(count).drop_last());
        assert(microcompact::flat(groups) =~= microcompact::flat(groups.take(count))
            + microcompact::flat(groups.skip(count)));
    }
}

/// The ids of results.
pub open spec fn ids(list: Seq<CandidateView>) -> Seq<Seq<char>> {
    list.map_values(|candidate: CandidateView| candidate.id)
}

/// Of all the results that may be cleared, the older ones are and the later ones are kept: what is
/// cleared and what is kept, in a row, are all of them in order. With at most the wanted number of
/// groups nothing is cleared, and whatever is cleared has an event.
pub proof fn older_results_are_cleared(
    surface: Seq<SurfaceView>,
    settings: MicrocompactSettings,
    idle_minutes: Option<u64>,
    pressure_tokens: Option<u64>,
    threshold_tokens: Option<u64>,
)
    ensures
        ({
            let rules = microcompact::rules_of(settings);
            let all = results(surface, surface.len() as int, rules);
            let groups = groups_within(surface, 0, surface.len() as int, rules);
            let keep: int = if settings.keep_recent_groups < 1 {
                1
            } else {
                settings.keep_recent_groups as int
            };
            microcompact::planned(
                surface,
                settings,
                idle_minutes,
                pressure_tokens,
                threshold_tokens,
            ) matches DecisionView::Applied { cleared, kept, cleared_seqs, .. } ==> {
                &&& cleared + kept == ids(all)
                &&& cleared.len() > 0
                &&& cleared_seqs.len() == cleared.len()
                &&& forall|i: int|
                    0 <= i < cleared.len() ==> #[trigger] cleared_seqs[i] == all[i].seq
                &&& groups > keep
            }
        }),
{
    let rules = microcompact::rules_of(settings);
    let groups = microcompact::candidate_groups(surface, rules);
    let count = microcompact::groups_to_clear(groups.len(), settings.keep_recent_groups);
    lemma_grouping(surface, surface.len() as int, rules);
    lemma_flat_split(groups, count);
    let cleared = microcompact::flat(groups.take(count));
    let kept = microcompact::flat(groups.skip(count));
    let all = results(surface, surface.len() as int, rules);
    assert(microcompact::ids_of(cleared) + microcompact::ids_of(kept) =~= ids(all));
}

/// So many groups are kept as are wanted, and at least one.
pub proof fn wanted_groups_are_kept(surface: Seq<SurfaceView>, rules: Rules, keep_recent: usize)
    ensures
        ({
            let groups = microcompact::candidate_groups(surface, rules);
            let count = microcompact::groups_to_clear(groups.len(), keep_recent);
            let kept = groups.len() - count;
            let keep: int = if keep_recent < 1 {
                1
            } else {
                keep_recent as int
            };
            &&& groups.len() == groups_within(surface, 0, surface.len() as int, rules)
            &&& 0 <= count <= groups.len()
            &&& kept == (if groups.len() <= keep {
                groups.len() as int
            } else {
                keep
            })
        }),
{
    lemma_grouping(surface, surface.len() as int, rules);
}

/// Results are cleared only where that is enabled, and only after a longer rest than is set or when
/// the context is full to the threshold; the rest comes first among the reasons. What is not worth
/// it is not done.
pub proof fn clearing_has_a_reason(
    surface: Seq<SurfaceView>,
    settings: MicrocompactSettings,
    idle_minutes: Option<u64>,
    pressure_tokens: Option<u64>,
    threshold_tokens: Option<u64>,
)
    ensures
        ({
            let rested = idle_minutes matches Some(idle) && idle > settings.idle_threshold_minutes;
            let full = pressure_tokens matches Some(pressure) && (threshold_tokens matches Some(
                threshold,
            ) && 0 < threshold <= pressure);
            match microcompact::planned(
                surface,
                settings,
                idle_minutes,
                pressure_tokens,
                threshold_tokens,
            ) {
                DecisionView::Applied { trigger, estimated_savings, .. } => {
                    &&& settings.enabled
                    &&& rested || full
                    &&& (trigger == MicrocompactTrigger::TimeBased) == rested
                    &&& estimated_savings >= settings.min_savings
                },
                DecisionView::NotTriggered(why) => {
                    let rules = microcompact::rules_of(settings);
                    let groups = groups_within(surface, 0, surface.len() as int, rules);
                    &&& !settings.enabled ==> why == "disabled"@
                    &&& settings.enabled && !rested && !full ==> why == "not_triggered"@
                    &&& settings.enabled && (rested || full) && groups == 0 ==> why
                        == "no_candidates"@
                    &&& settings.enabled && (rested || full) && 0 < groups
                        <= settings.keep_recent_groups ==> why == "nothing_to_clear"@
                    &&& settings.enabled && (rested || full) && groups
                        > settings.keep_recent_groups && groups > 1 ==> why
                        == "below_min_savings"@ || why == "nothing_to_clear"@
                },
            }
        }),
{
    let rules = microcompact::rules_of(settings);
    lemma_grouping(surface, surface.len() as int, rules);
}

/// Four characters make a token, and a token that is begun counts.
pub proof fn four_characters_make_a_token(content: Seq<char>)
    ensures
        4 * microcompact::estimate(content) >= content.len(),
        content.len() + 4 > 4 * microcompact::estimate(content),
        microcompact::estimate(content) <= microcompact::estimate(CLEARED_PLACEHOLDER@)
            ==> microcompact::saved(content) == 0,
        microcompact::estimate(content) >= microcompact::estimate(CLEARED_PLACEHOLDER@)
            ==> microcompact::saved(content) + microcompact::estimate(CLEARED_PLACEHOLDER@)
            == microcompact::estimate(content),
{
}

/// What is saved is the sum over the cleared results; no other message counts.
pub proof fn savings_are_those_of_the_cleared(
    surface: Seq<SurfaceView>,
    item: SurfaceView,
    cleared: Seq<Seq<char>>,
)
    ensures
        microcompact::savings(Seq::empty(), cleared, 0) == 0,
        microcompact::savings(surface.push(item), cleared, (surface.len() + 1) as int)
            == microcompact::savings(surface, cleared, surface.len() as int) + (if item.message.role
            == ChatRole::Tool && exists|id: Seq<char>| #[trigger]
            cleared.contains(id) && item.message.tool_call_id == Some(id) {
            microcompact::saved(item.message.content)
        } else {
            0
        }),
{
    lemma_savings(surface, item, cleared, surface.len() as int);
}

proof fn lemma_savings(
    surface: Seq<SurfaceView>,
    item: SurfaceView,
    cleared: Seq<Seq<char>>,
    upto: int,
)
    requires
        0 <= upto <= surface.len(),
    ensures
        microcompact::savings(surface.push(item), cleared, upto) == microcompact::savings(
            surface,
            cleared,
            upto,
        ),
    decreases upto,
{
    if upto > 0 {
        lemma_savings(surface, item, cleared, upto - 1);
    }
}

} // verus!
