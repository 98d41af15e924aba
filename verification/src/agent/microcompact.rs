//! Clearing of old tool results: a cheap step before a compaction, which replaces what older tools
//! gave by a placeholder and leaves the rest of the history as it is.
use vstd::prelude::*;
use vstd::string::*;

use crate::history;
use crate::history::{SurfaceMessage, SurfaceView};
use crate::message::{CallView, ChatRole, ToolCallRef};
use crate::text;
use crate::text::{str_eq, trim};

verus! {

/// What is left of a cleared result.
pub const CLEARED_PLACEHOLDER: &'static str = "[旧工具结果内容已清理]";

/// When and what is cleared.
#[derive(Debug, Clone, PartialEq)]
pub struct MicrocompactSettings {
    pub enabled: bool,
    /// The latest so many groups are kept. A group is what one answer of the model called.
    pub keep_recent_groups: usize,
    /// Minutes without activity after which old results are cleared.
    pub idle_threshold_minutes: u64,
    /// Less is not worth the loss of the provider's cache.
    pub min_savings: u64,
    /// The tools whose results may be cleared.
    pub compactable_tools: Vec<String>,
    /// Whether results of failed calls may be cleared too.
    pub clear_error_results: bool,
}

/// The tools whose results may be cleared, unless it is set otherwise.
pub open spec fn default_tools() -> Seq<Seq<char>> {
    seq![
        "read_file"@,
        "bash"@,
        "grep"@,
        "glob"@,
        "ls"@,
        "edit"@,
        "write_file"@,
        "browser"@,
    ]
}

fn add_tool(tools: &mut Vec<String>, tool: &str)
    ensures
        text::views(final(tools)@) == text::views(old(tools)@).push(tool@),
{
    let name = tool.to_owned();
    assert(text::views(tools@.push(name)) =~= text::views(tools@).push(tool@));
    tools.push(name);
}

/// The tools whose results may be cleared, unless it is set otherwise.
pub fn default_compactable_tools() -> (tools: Vec<String>)
    ensures
        text::views(tools@) == default_tools(),
{
    let mut tools: Vec<String> = Vec::new();
    add_tool(&mut tools, "read_file");
    add_tool(&mut tools, "bash");
    add_tool(&mut tools, "grep");
    add_tool(&mut tools, "glob");
    add_tool(&mut tools, "ls");
    add_tool(&mut tools, "edit");
    add_tool(&mut tools, "write_file");
    add_tool(&mut tools, "browser");
    assert(text::views(tools@) =~= default_tools());
    tools
}

impl Default for MicrocompactSettings {
    fn default() -> (settings: Self)
        ensures
            settings.enabled,
            settings.keep_recent_groups == 5,
            settings.idle_threshold_minutes == 60,
            settings.min_savings == 256,
            text::views(settings.compactable_tools@) == default_tools(),
            !settings.clear_error_results,
    {
        MicrocompactSettings {
            enabled: true,
            keep_recent_groups: 5,
            idle_threshold_minutes: 60,
            min_savings: 256,
            compactable_tools: default_compactable_tools(),
            clear_error_results: false,
        }
    }
}

/// Why results are cleared.
#[derive(Debug, Clone, Copy, PartialEq, Eq, Structural)]
pub enum MicrocompactTrigger {
    TimeBased,
    TokenPressure,
}

/// What is to be done.
#[derive(Debug, Clone, PartialEq, Eq)]
pub enum MicrocompactDecision {
    Applied {
        trigger: MicrocompactTrigger,
        /// The calls whose results are cleared.
        cleared: Vec<String>,
        /// The calls whose results could be cleared and are kept.
        kept: Vec<String>,
        /// The events of the results that are cleared.
        cleared_seqs: Vec<u64>,
        estimated_savings: u64,
    },
    NotTriggered(&'static str),
}

pub enum DecisionView {
    Applied {
        trigger: MicrocompactTrigger,
        cleared: Seq<Seq<char>>,
        kept: Seq<Seq<char>>,
        cleared_seqs: Seq<u64>,
        estimated_savings: nat,
    },
    NotTriggered(Seq<char>),
}

impl View for MicrocompactDecision {
    type V = DecisionView;

    open spec fn view(&self) -> DecisionView {
        match *self {
            MicrocompactDecision::Applied {
                trigger,
                cleared,
                kept,
                cleared_seqs,
                estimated_savings,
            } => DecisionView::Applied {
                trigger,
                cleared: text::views(cleared@),
                kept: text::views(kept@),
                cleared_seqs: cleared_seqs@,
                estimated_savings: estimated_savings as nat,
            },
            MicrocompactDecision::NotTriggered(reason) => DecisionView::NotTriggered(reason@),
        }
    }
}

/// A result that may be cleared.
#[derive(Debug)]
pub struct Candidate {
    pub seq: u64,
    pub tool_call_id: String,
}

pub struct CandidateView {
    pub seq: u64,
    pub id: Seq<char>,
}

impl View for Candidate {
    type V = CandidateView;

    open spec fn view(&self) -> CandidateView {
        CandidateView { seq: self.seq, id: self.tool_call_id@ }
    }
}

impl Clone for Candidate {
    fn clone(&self) -> (copy: Self)
        ensures
            copy == *self,
    {
        Candidate { seq: self.seq, tool_call_id: self.tool_call_id.clone() }
    }
}

/// The views of a list of candidates.
pub open spec fn candidate_views(list: Seq<Candidate>) -> Seq<CandidateView> {
    list.map_values(|candidate: Candidate| candidate@)
}

/// The views of a list of groups.
pub open spec fn group_views(groups: Seq<Vec<Candidate>>) -> Seq<Seq<CandidateView>> {
    groups.map_values(|group: Vec<Candidate>| candidate_views(group@))
}

/// What is read of the settings to find candidates.
pub struct Rules {
    pub tools: Seq<Seq<char>>,
    pub clear_errors: bool,
}

pub open spec fn rules_of(settings: MicrocompactSettings) -> Rules {
    Rules {
        tools: text::views(settings.compactable_tools@),
        clear_errors: settings.clear_error_results,
    }
}

/// Whether a result was cleared before.
pub open spec fn is_cleared(content: Seq<char>) -> bool {
    text::trimmed(content) == CLEARED_PLACEHOLDER@
}

/// Whether a result was cleared before.
pub fn already_cleared(content: &str) -> (yes: bool)
    ensures
        yes == is_cleared(content@),
{
    str_eq(trim(content).as_str(), CLEARED_PLACEHOLDER)
}

/// An estimate of a text's tokens: four characters make one.
pub open spec fn estimate(content: Seq<char>) -> nat {
    (content.len() + 3) / 4
}

/// An estimate of a text's tokens: four characters make one.
pub fn rough_tokens(content: &str) -> (tokens: u64)
    ensures
        tokens == estimate(content@),
{
    let count: u64 = content.unicode_len() as u64;
    if count % 4 == 0 {
        count / 4
    } else {
        count / 4 + 1
    }
}

/// The first call with an id, from `from` on.
pub open spec fn call_named(calls: Seq<CallView>, id: Seq<char>, from: int) -> Option<Seq<char>>
    decreases calls.len() - from,
{
    if from < 0 || from >= calls.len() {
        None
    } else if calls[from].id == id {
        Some(calls[from].name)
    } else {
        call_named(calls, id, from + 1)
    }
}

/// The tool that was called with an id, by the messages from `from` on.
pub open spec fn tool_called(surface: Seq<SurfaceView>, id: Seq<char>, from: int) -> Option<
    Seq<char>,
>
    decreases surface.len() - from,
{
    if from < 0 || from >= surface.len() {
        None
    } else {
        match call_named(surface[from].message.tool_calls, id, 0) {
            Some(name) => Some(name),
            None => tool_called(surface, id, from + 1),
        }
    }
}

/// A result may be cleared if it is the result of a call of one of the tools, did not fail (unless
/// failures may be cleared too), was not cleared before and carries no image.
pub open spec fn clearable(surface: Seq<SurfaceView>, item: SurfaceView, rules: Rules) -> bool {
    &&& item.message.role == ChatRole::Tool
    &&& !item.is_error || rules.clear_errors
    &&& !is_cleared(item.message.content)
    &&& item.message.images.len() == 0
    &&& item.message.tool_call_id matches Some(id) && (tool_called(surface, id, 0) matches Some(
        name,
    ) && rules.tools.contains(name))
}

/// The groups that are complete, and the one that is open.
pub struct Grouping {
    pub groups: Seq<Seq<CandidateView>>,
    pub open: Option<Seq<CandidateView>>,
}

/// The groups with the open one.
pub open spec fn closed(g: Grouping) -> Seq<Seq<CandidateView>> {
    match g.open {
        Some(group) => if group.len() > 0 {
            g.groups.push(group)
        } else {
            g.groups
        },
        None => g.groups,
    }
}

/// The grouping after one more message: an answer with calls opens a group, a result that may be
/// cleared joins the open one.
pub open spec fn group_step(
    surface: Seq<SurfaceView>,
    g: Grouping,
    item: SurfaceView,
    rules: Rules,
) -> Grouping {
    if item.message.role == ChatRole::Assistant && item.message.tool_calls.len() > 0 {
        Grouping { groups: closed(g), open: Some(Seq::empty()) }
    } else if clearable(surface, item, rules) {
        let candidate = CandidateView { seq: item.seq, id: item.message.tool_call_id->0 };
        match g.open {
            Some(group) => Grouping { open: Some(group.push(candidate)), ..g },
            None => Grouping { groups: g.groups.push(seq![candidate]), ..g },
        }
    } else {
        g
    }
}

/// The grouping of the first `upto` messages.
pub open spec fn grouping(surface: Seq<SurfaceView>, upto: int, rules: Rules) -> Grouping
    decreases upto,
{
    if upto <= 0 || upto > surface.len() {
        Grouping { groups: Seq::empty(), open: None }
    } else {
        group_step(surface, grouping(surface, upto - 1, rules), surface[upto - 1], rules)
    }
}

/// The groups of results that may be cleared, the oldest first.
pub open spec fn candidate_groups(surface: Seq<SurfaceView>, rules: Rules) -> Seq<
    Seq<CandidateView>,
> {
    closed(grouping(surface, surface.len() as int, rules))
}

/// The members of the groups in a row.
pub open spec fn flat(groups: Seq<Seq<CandidateView>>) -> Seq<CandidateView>
    decreases groups.len(),
{
    if groups.len() == 0 {
        Seq::empty()
    } else {
        flat(groups.drop_last()) + groups.last()
    }
}

pub open spec fn ids_of(list: Seq<CandidateView>) -> Seq<Seq<char>> {
    list.map_values(|candidate: CandidateView| candidate.id)
}

pub open spec fn seqs_of(list: Seq<CandidateView>) -> Seq<u64> {
    list.map_values(|candidate: CandidateView| candidate.seq)
}

/// The tokens saved by clearing one result.
pub open spec fn saved(content: Seq<char>) -> nat {
    if estimate(content) >= estimate(CLEARED_PLACEHOLDER@) {
        (estimate(content) - estimate(CLEARED_PLACEHOLDER@)) as nat
    } else {
        0
    }
}

/// The tokens saved by clearing the results of the calls `ids` among the first `upto` messages.
pub open spec fn savings(surface: Seq<SurfaceView>, ids: Seq<Seq<char>>, upto: int) -> nat
    decreases upto,
{
    if upto <= 0 || upto > surface.len() {
        0
    } else {
        let item = surface[upto - 1];
        savings(surface, ids, upto - 1) + (if item.message.role == ChatRole::Tool && (
        item.message.tool_call_id matches Some(id) && ids.contains(id)) {
            saved(item.message.content)
        } else {
            0
        })
    }
}

/// The estimated tokens of the first `upto` messages.
pub open spec fn total_estimate(surface: Seq<SurfaceView>, upto: int) -> nat
    decreases upto,
{
    if upto <= 0 || upto > surface.len() {
        0
    } else {
        total_estimate(surface, upto - 1) + estimate(surface[upto - 1].message.content)
    }
}

proof fn lemma_savings_bounded(surface: Seq<SurfaceView>, ids: Seq<Seq<char>>, upto: int)
    ensures
        savings(surface, ids, upto) <= total_estimate(surface, upto),
    decreases upto,
{
    if 0 < upto <= surface.len() {
        lemma_savings_bounded(surface, ids, upto - 1);
    }
}

proof fn lemma_total_grows(surface: Seq<SurfaceView>, a: int, b: int)
    requires
        0 <= a <= b <= surface.len(),
    ensures
        total_estimate(surface, a) <= total_estimate(surface, b),
    decreases b,
{
    if a < b {
        lemma_total_grows(surface, a, b - 1);
    }
}

/// Why results are to be cleared now, if they are.
pub open spec fn trigger_of(
    settings: MicrocompactSettings,
    idle_minutes: Option<u64>,
    pressure_tokens: Option<u64>,
    threshold_tokens: Option<u64>,
) -> Option<MicrocompactTrigger> {
    if idle_minutes matches Some(idle) && idle > settings.idle_threshold_minutes {
        Some(MicrocompactTrigger::TimeBased)
    } else if pressure_tokens matches Some(pressure) && threshold_tokens matches Some(threshold)
        && threshold > 0 && pressure >= threshold {
        Some(MicrocompactTrigger::TokenPressure)
    } else {
        None
    }
}

/// The number of groups that are cleared.
pub open spec fn groups_to_clear(groups: nat, keep_recent: usize) -> int {
    let keep: int = if keep_recent < 1 {
        1
    } else {
        keep_recent as int
    };
    if groups <= keep {
        0
    } else {
        groups - keep
    }
}

/// What is to be done.
pub open spec fn planned(
    surface: Seq<SurfaceView>,
    settings: MicrocompactSettings,
    idle_minutes: Option<u64>,
    pressure_tokens: Option<u64>,
    threshold_tokens: Option<u64>,
) -> DecisionView {
    let groups = candidate_groups(surface, rules_of(settings));
    let count = groups_to_clear(groups.len(), settings.keep_recent_groups);
    let cleared = flat(groups.take(count));
    let kept = flat(groups.skip(count));
    let saving = savings(surface, ids_of(cleared), surface.len() as int);
    if !settings.enabled {
        DecisionView::NotTriggered("disabled"@)
    } else {
        match trigger_of(settings, idle_minutes, pressure_tokens, threshold_tokens) {
            None => DecisionView::NotTriggered("not_triggered"@),
            Some(trigger) => if groups.len() == 0 {
                DecisionView::NotTriggered("no_candidates"@)
            } else if count == 0 || cleared.len() == 0 {
                DecisionView::NotTriggered("nothing_to_clear"@)
            } else if saving < settings.min_savings {
                DecisionView::NotTriggered("below_min_savings"@)
            } else {
                DecisionView::Applied {
                    trigger,
                    cleared: ids_of(cleared),
                    kept: ids_of(kept),
                    cleared_seqs: seqs_of(cleared),
                    estimated_savings: saving,
                }
            },
        }
    }
}

fn find_call(calls: &Vec<ToolCallRef>, id: &str) -> (at: Option<usize>)
    ensures
        call_named(crate::message::call_views(calls@), id@, 0) == (match at {
            Some(at) => Some(calls@[at as int].name@),
            None => None::<Seq<char>>,
        }),
        at matches Some(at) ==> at < calls@.len(),
{
    let ghost all = crate::message::call_views(calls@);
    let mut i: usize = 0;
    while i < calls.len()
        invariant
            i <= calls@.len(),
            all == crate::message::call_views(calls@),
            call_named(all, id@, 0) == call_named(all, id@, i as int),
        decreases calls@.len() - i,
    {
        if str_eq(calls[i].id.as_str(), id) {
            return Some(i);
        }
        i += 1;
    }
    None
}

/// The tool that was called with an id.
pub fn tool_name_for<'a>(surface: &'a [SurfaceMessage], call_id: &str) -> (name: Option<&'a str>)
    ensures
        tool_called(history::surface_views(surface@), call_id@, 0) == text::opt_str_view(name),
{
    let ghost all = history::surface_views(surface@);
    let mut i: usize = 0;
    while i < surface.len()
        invariant
            i <= surface@.len(),
            all == history::surface_views(surface@),
            tool_called(all, call_id@, 0) == tool_called(all, call_id@, i as int),
        decreases surface@.len() - i,
    {
        if let Some(at) = find_call(&surface[i].message.tool_calls, call_id) {
            return Some(surface[i].message.tool_calls[at].name.as_str());
        }
        i += 1;
    }
    None
}

fn names_tool(tools: &Vec<String>, name: &str) -> (yes: bool)
    ensures
        yes == text::views(tools@).contains(name@),
{
    let mut i: usize = 0;
    while i < tools.len()
        invariant
            i <= tools@.len(),
            forall|j: int| 0 <= j < i ==> text::views(tools@)[j] != name@,
        decreases tools@.len() - i,
    {
        if str_eq(tools[i].as_str(), name) {
            assert(text::views(tools@)[i as int] == name@);
            return true;
        }
        i += 1;
    }
    false
}

fn candidate_at(surface: &[SurfaceMessage], at: usize, settings: &MicrocompactSettings) -> (found:
    Option<Candidate>)
    requires
        at < surface@.len(),
    ensures
        found is Some <==> clearable(
            history::surface_views(surface@),
            surface@[at as int]@,
            rules_of(*settings),
        ),
        found matches Some(candidate) ==> candidate@ == (CandidateView {
            seq: surface@[at as int].seq,
            id: surface@[at as int]@.message.tool_call_id->0,
        }),
{
    let item = &surface[at];
    if item.message.role != ChatRole::Tool {
        return None;
    }
    if item.is_error && !settings.clear_error_results {
        return None;
    }
    if already_cleared(item.message.content.as_str()) || item.message.images.len() > 0 {
        return None;
    }
    match &item.message.tool_call_id {
        Some(id) => match tool_name_for(surface, id.as_str()) {
            Some(name) => if names_tool(&settings.compactable_tools, name) {
                Some(Candidate { seq: item.seq, tool_call_id: id.clone() })
            } else {
                None
            },
            None => None,
        },
        None => None,
    }
}

spec fn open_view(open: Option<Vec<Candidate>>) -> Option<Seq<CandidateView>> {
    match open {
        Some(group) => Some(candidate_views(group@)),
        None => None,
    }
}

fn close_group(groups: &mut Vec<Vec<Candidate>>, open: Option<Vec<Candidate>>)
    ensures
        group_views(final(groups)@) == closed(
            Grouping { groups: group_views(old(groups)@), open: open_view(open) },
        ),
{
    if let Some(group) = open {
        if group.len() > 0 {
            assert(group_views(groups@.push(group)) =~= group_views(groups@).push(
                candidate_views(group@),
            ));
            groups.push(group);
        }
    }
}

/// The groups of results that may be cleared, the oldest first.
pub fn collect_candidates(surface: &[SurfaceMessage], settings: &MicrocompactSettings) -> (groups:
    Vec<Vec<Candidate>>)
    ensures
        group_views(groups@) == candidate_groups(
            history::surface_views(surface@),
            rules_of(*settings),
        ),
{
    let ghost all = history::surface_views(surface@);
    let ghost rules = rules_of(*settings);
    let mut groups: Vec<Vec<Candidate>> = Vec::new();
    let mut open: Option<Vec<Candidate>> = None;
    let mut i: usize = 0;
    assert(group_views(groups@) =~= Seq::empty());
    while i < surface.len()
        invariant
            i <= surface@.len(),
            all == history::surface_views(surface@),
            rules == rules_of(*settings),
            grouping(all, i as int, rules) == (Grouping {
                groups: group_views(groups@),
                open: open_view(open),
            }),
        decreases surface@.len() - i,
    {
        let message = &surface[i].message;
        if message.role == ChatRole::Assistant && message.tool_calls.len() > 0 {
            close_group(&mut groups, open);
            let group: Vec<Candidate> = Vec::new();
            assert(candidate_views(group@) =~= Seq::empty());
            open = Some(group);
        } else if let Some(candidate) = candidate_at(surface, i, settings) {
            match open {
                Some(group) => {
                    let mut group = group;
                    assert(candidate_views(group@.push(candidate)) =~= candidate_views(group@).push(
                        candidate@,
                    ));
                    group.push(candidate);
                    open = Some(group);
                },
                None => {
                    let mut group: Vec<Candidate> = Vec::new();
                    group.push(candidate);
                    assert(candidate_views(group@) =~= seq![candidate@]);
                    assert(group_views(groups@.push(group)) =~= group_views(groups@).push(
                        seq![candidate@],
                    ));
                    groups.push(group);
                    open = None;
                },
            }
        }
        i += 1;
    }
    close_group(&mut groups, open);
    groups
}

/// The members of the groups `from..to` in a row.
fn flatten(groups: &Vec<Vec<Candidate>>, from: usize, to: usize) -> (list: Vec<Candidate>)
    requires
        from <= to <= groups@.len(),
    ensures
        candidate_views(list@) == flat(group_views(groups@).subrange(from as int, to as int)),
{
    let ghost all = group_views(groups@);
    let mut list: Vec<Candidate> = Vec::new();
    let mut i: usize = from;
    assert(candidate_views(list@) =~= Seq::empty());
    while i < to
        invariant
            from <= i <= to <= groups@.len(),
            all == group_views(groups@),
            candidate_views(list@) == flat(all.subrange(from as int, i as int)),
        decreases to - i,
    {
        let mut group = groups[i].clone();
        assert(group@ =~= groups@[i as int]@);
        assert(all.subrange(from as int, i + 1).drop_last() =~= all.subrange(from as int, i as int));
        assert(candidate_views(list@ + group@) =~= candidate_views(list@) + candidate_views(group@));
        list.append(&mut group);
        i += 1;
    }
    list
}

fn ids(list: &Vec<Candidate>) -> (ids: Vec<String>)
    ensures
        text::views(ids@) == ids_of(candidate_views(list@)),
{
    let mut ids: Vec<String> = Vec::new();
    let mut i: usize = 0;
    while i < list.len()
        invariant
            i <= list@.len(),
            ids@.len() == i,
            forall|j: int| 0 <= j < i ==> (#[trigger] ids@[j])@ == list@[j].tool_call_id@,
        decreases list@.len() - i,
    {
        ids.push(list[i].tool_call_id.clone());
        i += 1;
    }
    assert(text::views(ids@) =~= ids_of(candidate_views(list@)));
    ids
}

fn seqs(list: &Vec<Candidate>) -> (seqs: Vec<u64>)
    ensures
        seqs@ == seqs_of(candidate_views(list@)),
{
    let mut seqs: Vec<u64> = Vec::new();
    let mut i: usize = 0;
    while i < list.len()
        invariant
            i <= list@.len(),
            seqs@.len() == i,
            forall|j: int| 0 <= j < i ==> #[trigger] seqs@[j] == list@[j].seq,
        decreases list@.len() - i,
    {
        seqs.push(list[i].seq);
        i += 1;
    }
    assert(seqs@ =~= seqs_of(candidate_views(list@)));
    seqs
}

fn count_savings(surface: &[SurfaceMessage], ids: &Vec<String>) -> (saved: u64)
    requires
        total_estimate(history::surface_views(surface@), surface@.len() as int) <= u64::MAX,
    ensures
        saved == savings(
            history::surface_views(surface@),
            text::views(ids@),
            surface@.len() as int,
        ),
{
    let ghost all = history::surface_views(surface@);
    let mut total: u64 = 0;
    let mut i: usize = 0;
    while i < surface.len()
        invariant
            i <= surface@.len(),
            all == history::surface_views(surface@),
            total_estimate(all, surface@.len() as int) <= u64::MAX,
            total == savings(all, text::views(ids@), i as int),
        decreases surface@.len() - i,
    {
        let message = &surface[i].message;
        let counts = message.role == ChatRole::Tool && match &message.tool_call_id {
            Some(id) => names_tool(ids, id.as_str()),
            None => false,
        };
        proof {
            lemma_savings_bounded(all, text::views(ids@), i + 1);
            lemma_total_grows(all, i + 1, surface@.len() as int);
        }
        if counts {
            total = total + rough_tokens(message.content.as_str()).saturating_sub(
                rough_tokens(CLEARED_PLACEHOLDER),
            );
        }
        i += 1;
    }
    total
}

/// Plans the clearing of old results. It is triggered by idleness, or by a context that is full
/// to the threshold.
pub fn plan(
    surface: &[SurfaceMessage],
    settings: &MicrocompactSettings,
    idle_minutes: Option<u64>,
    pressure_tokens: Option<u64>,
    threshold_tokens: Option<u64>,
) -> (decision: MicrocompactDecision)
    requires
        total_estimate(history::surface_views(surface@), surface@.len() as int) <= u64::MAX,
    ensures
        decision@ == planned(
            history::surface_views(surface@),
            *settings,
            idle_minutes,
            pressure_tokens,
            threshold_tokens,
        ),
{
    if !settings.enabled {
        return MicrocompactDecision::NotTriggered("disabled");
    }
    let idle = match idle_minutes {
        Some(idle) => idle > settings.idle_threshold_minutes,
        None => false,
    };
    let pressed = match (pressure_tokens, threshold_tokens) {
        (Some(pressure), Some(threshold)) => threshold > 0 && pressure >= threshold,
        _ => false,
    };
    let trigger = if idle {
        MicrocompactTrigger::TimeBased
    } else if pressed {
        MicrocompactTrigger::TokenPressure
    } else {
        return MicrocompactDecision::NotTriggered("not_triggered");
    };
    let groups = collect_candidates(surface, settings);
    if groups.len() == 0 {
        return MicrocompactDecision::NotTriggered("no_candidates");
    }
    let keep: usize = if settings.keep_recent_groups < 1 {
        1
    } else {
        settings.keep_recent_groups
    };
    let count: usize = groups.len().saturating_sub(keep);
    if count == 0 {
        return MicrocompactDecision::NotTriggered("nothing_to_clear");
    }
    let to_clear = flatten(&groups, 0, count);
    let to_keep = flatten(&groups, count, groups.len());
    assert(group_views(groups@).subrange(0, count as int) =~= group_views(groups@).take(
        count as int,
    ));
    assert(group_views(groups@).subrange(count as int, groups@.len() as int) =~= group_views(
        groups@,
    ).skip(count as int));
    if to_clear.len() == 0 {
        return MicrocompactDecision::NotTriggered("nothing_to_clear");
    }
    let cleared = ids(&to_clear);
    let saved: u64 = count_savings(surface, &cleared);
    if saved < settings.min_savings {
        return MicrocompactDecision::NotTriggered("below_min_savings");
    }
    MicrocompactDecision::Applied {
        trigger,
        cleared,
        kept: ids(&to_keep),
        cleared_seqs: seqs(&to_clear),
        estimated_savings: saved,
    }
}

/// A member of a grouping comes from a result that may be cleared.
pub open spec fn comes_from(
    surface: Seq<SurfaceView>,
    candidate: CandidateView,
    rules: Rules,
) -> bool {
    exists|i: int|
        0 <= i < surface.len() && clearable(surface, #[trigger] surface[i], rules) && candidate
            == (CandidateView { seq: surface[i].seq, id: surface[i].message.tool_call_id->0 })
}

spec fn all_from(surface: Seq<SurfaceView>, list: Seq<CandidateView>, rules: Rules) -> bool {
    forall|k: int| 0 <= k < list.len() ==> comes_from(surface, #[trigger] list[k], rules)
}

spec fn groups_from(surface: Seq<SurfaceView>, groups: Seq<Seq<CandidateView>>, rules: Rules) -> bool {
    forall|k: int| 0 <= k < groups.len() ==> all_from(surface, #[trigger] groups[k], rules)
}

proof fn lemma_grouping_from(surface: Seq<SurfaceView>, upto: int, rules: Rules)
    requires
        0 <= upto <= surface.len(),
    ensures
        groups_from(surface, grouping(surface, upto, rules).groups, rules),
        grouping(surface, upto, rules).open matches Some(group) ==> all_from(surface, group, rules),
    decreases upto,
{
    if upto > 0 {
        lemma_grouping_from(surface, upto - 1, rules);
        let item = surface[upto - 1];
        if clearable(surface, item, rules) {
            let candidate = CandidateView { seq: item.seq, id: item.message.tool_call_id->0 };
            assert(comes_from(surface, candidate, rules)) by {
                assert(clearable(surface, surface[upto - 1], rules));
            }
            assert(all_from(surface, seq![candidate], rules));
        }
    }
}

proof fn lemma_flat_from(surface: Seq<SurfaceView>, groups: Seq<Seq<CandidateView>>, rules: Rules)
    requires
        groups_from(surface, groups, rules),
    ensures
        all_from(surface, flat(groups), rules),
    decreases groups.len(),
{
    if groups.len() > 0 {
        assert(groups_from(surface, groups.drop_last(), rules)) by {
            assert forall|k: int| 0 <= k < groups.drop_last().len() implies all_from(
                surface,
                #[trigger] groups.drop_last()[k],
                rules,
            ) by {
                assert(all_from(surface, groups[k], rules));
            }
        }
        lemma_flat_from(surface, groups.drop_last(), rules);
        assert(all_from(surface, groups[groups.len() - 1], rules));
    }
}

/// Only what may be cleared is cleared: no failure (unless that is set), nothing with images,
/// nothing of other tools, and nothing twice.
pub proof fn only_clearable_results_are_cleared(
    surface: Seq<SurfaceView>,
    settings: MicrocompactSettings,
    idle_minutes: Option<u64>,
    pressure_tokens: Option<u64>,
    threshold_tokens: Option<u64>,
    k: int,
)
    requires
        planned(surface, settings, idle_minutes, pressure_tokens, threshold_tokens) matches
            DecisionView::Applied { cleared, .. } && 0 <= k < cleared.len(),
    ensures
        planned(surface, settings, idle_minutes, pressure_tokens, threshold_tokens) matches
            DecisionView::Applied { cleared, cleared_seqs, .. } && cleared_seqs.len()
            == cleared.len() && comes_from(
            surface,
            CandidateView { seq: cleared_seqs[k], id: cleared[k] },
            rules_of(settings),
        ),
{
    let rules = rules_of(settings);
    let groups = candidate_groups(surface, rules);
    let count = groups_to_clear(groups.len(), settings.keep_recent_groups);
    lemma_grouping_from(surface, surface.len() as int, rules);
    assert(groups_from(surface, groups.take(count), rules)) by {
        assert forall|j: int| 0 <= j < count implies all_from(
            surface,
            #[trigger] groups.take(count)[j],
            rules,
        ) by {
            assert(all_from(surface, groups[j], rules));
        }
    }
    lemma_flat_from(surface, groups.take(count), rules);
    let cleared = flat(groups.take(count));
    assert(comes_from(surface, cleared[k], rules));
}

/// A cleared result is never cleared again.
pub proof fn cleared_results_stay_cleared(surface: Seq<SurfaceView>, item: SurfaceView, rules: Rules)
    requires
        item.message.content == CLEARED_PLACEHOLDER@,
    ensures
        !clearable(surface, item, rules),
{
    reveal_strlit("[旧工具结果内容已清理]");
    assert(text::trim_front(CLEARED_PLACEHOLDER@) == CLEARED_PLACEHOLDER@);
    assert(text::trim_back(CLEARED_PLACEHOLDER@) == CLEARED_PLACEHOLDER@);
}

/// The latest groups are kept, and at least one of them.
pub proof fn recent_groups_are_kept(groups: nat, keep_recent: usize)
    ensures
        groups > 0 ==> groups - groups_to_clear(groups, keep_recent) >= 1,
        groups >= keep_recent ==> groups - groups_to_clear(groups, keep_recent) >= keep_recent,
{
}

} // verus!
