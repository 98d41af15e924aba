//! Background messages: before each request the harness says what changed since it last spoke.
//!
//! Each channel remembers the last text it sent. A text that is the same is not sent again.
use vstd::prelude::*;
use vstd::string::*;

use crate::agent::instructions;
use crate::agent::instructions::{render_skill_catalog, restore_injected_text, SKILL_CATALOG_PREFIX, WORKSPACE_PREFIX};
use crate::session;
use crate::session::{GoalState, GoalStatus, GoalView, SessionEnvelope, SessionEvent};
use crate::text;
use crate::text::{cat2, cat3, cat5, decimal_text, join, str_eq};

verus! {

/// The channel of the goal.
pub const GOAL_CHANNEL: &'static str = "goal";

/// The channel of the workspace instructions.
pub const WORKSPACE_CHANNEL: &'static str = "workspace-instructions";

/// The channel of the capabilities.
pub const CAPABILITY_CHANNEL: &'static str = "capability";

/// The channel of the skills.
pub const SKILL_CHANNEL: &'static str = "skill-catalog";

/// How a message with the capabilities begins.
pub const CAPABILITY_PREFIX: &'static str = "[denia 能力上下文]";

/// What is said once when the goal was cleared.
pub const GOAL_CLEARED_TEXT: &'static str = "[denia 目标] 当前会话目标已清除,无需再关注目标。";

/// What each channel sent last.
pub struct InjectionBaselines {
    pub capability_context: Option<String>,
    pub workspace_baseline: Option<String>,
    pub skill_catalog: Option<String>,
    pub goal: Option<String>,
}

pub struct BaselinesView {
    pub capability: Option<Seq<char>>,
    pub workspace: Option<Seq<char>>,
    pub skills: Option<Seq<char>>,
    pub goal: Option<Seq<char>>,
}

impl View for InjectionBaselines {
    type V = BaselinesView;

    open spec fn view(&self) -> BaselinesView {
        BaselinesView {
            capability: text::opt_view(self.capability_context),
            workspace: text::opt_view(self.workspace_baseline),
            skills: text::opt_view(self.skill_catalog),
            goal: text::opt_view(self.goal),
        }
    }
}

/// The text of an event, if it is an injected message of a channel.
pub open spec fn channel_text(event: SessionEvent, channel: Seq<char>) -> Option<Seq<char>> {
    match event {
        SessionEvent::UserMessage { text, injected, channel: Some(name), .. } => if injected
            && name@ == channel {
            Some(text@)
        } else {
            None
        },
        _ => None,
    }
}

/// The last injected message of a channel.
pub open spec fn last_of_channel(events: Seq<SessionEnvelope>, channel: Seq<char>) -> Option<
    Seq<char>,
>
    decreases events.len(),
{
    if events.len() == 0 {
        None
    } else {
        match channel_text(events.last().event, channel) {
            Some(text) => Some(text),
            None => last_of_channel(events.drop_last(), channel),
        }
    }
}

/// The last injected message of a channel.
pub fn last_injected_channel(events: &[SessionEnvelope], channel: &str) -> (text: Option<String>)
    ensures
        text::opt_view(text) == last_of_channel(events@, channel@),
{
    let wanted = channel;
    let mut i: usize = events.len();
    assert(events@.take(i as int) =~= events@);
    while i > 0
        invariant
            i <= events@.len(),
            wanted@ == channel@,
            last_of_channel(events@, wanted@) == last_of_channel(events@.take(i as int), wanted@),
        decreases i,
    {
        assert(events@.take(i as int).drop_last() =~= events@.take(i - 1));
        i -= 1;
        if let SessionEvent::UserMessage { text, injected, channel: Some(name), .. } =
            &events[i].event {
            if *injected && str_eq(name.as_str(), wanted) {
                return Some(text.clone());
            }
        }
    }
    None
}

/// What each channel sent last, by the log.
pub open spec fn restored(events: Seq<SessionEnvelope>) -> BaselinesView {
    BaselinesView {
        capability: match last_of_channel(events, CAPABILITY_CHANNEL@) {
            Some(text) => Some(text),
            None => instructions::last_injected(events, CAPABILITY_PREFIX@),
        },
        workspace: instructions::last_injected(events, WORKSPACE_PREFIX@),
        skills: instructions::last_injected(events, SKILL_CATALOG_PREFIX@),
        goal: last_of_channel(events, GOAL_CHANNEL@),
    }
}

impl InjectionBaselines {
    /// What each channel sent last, by the log. A log of an older form names no channel: there the
    /// beginning of the text tells.
    pub fn restore(events: &[SessionEnvelope]) -> (baselines: Self)
        ensures
            baselines@ == restored(events@),
    {
        let capability_context = match last_injected_channel(events, CAPABILITY_CHANNEL) {
            Some(text) => Some(text),
            None => restore_injected_text(events, CAPABILITY_PREFIX),
        };
        InjectionBaselines {
            capability_context,
            workspace_baseline: restore_injected_text(events, WORKSPACE_PREFIX),
            skill_catalog: restore_injected_text(events, SKILL_CATALOG_PREFIX),
            goal: last_injected_channel(events, GOAL_CHANNEL),
        }
    }
}

/// A message to inject.
#[derive(Debug, PartialEq)]
pub struct Injection {
    pub channel: &'static str,
    pub text: String,
}

pub struct InjectionView {
    pub channel: Seq<char>,
    pub text: Seq<char>,
}

impl View for Injection {
    type V = InjectionView;

    open spec fn view(&self) -> InjectionView {
        InjectionView { channel: self.channel@, text: self.text@ }
    }
}

pub open spec fn injection_views(list: Seq<Injection>) -> Seq<InjectionView> {
    list.map_values(|injection: Injection| injection@)
}

/// What a channel sends, given what it sent last.
pub open spec fn sent(channel: Seq<char>, last: Option<Seq<char>>, text: Option<Seq<char>>) -> Seq<
    InjectionView,
> {
    match text {
        Some(text) => if last == Some(text) {
            Seq::empty()
        } else {
            seq![InjectionView { channel, text }]
        },
        None => Seq::empty(),
    }
}

/// What a channel sent last, after that.
pub open spec fn last_sent(last: Option<Seq<char>>, text: Option<Seq<char>>) -> Option<Seq<char>> {
    match text {
        Some(text) => Some(text),
        None => last,
    }
}

fn send(
    list: &mut Vec<Injection>,
    channel: &'static str,
    last: &mut Option<String>,
    text: Option<String>,
)
    ensures
        injection_views(final(list)@) == injection_views(old(list)@) + sent(
            channel@,
            text::opt_view(*old(last)),
            text::opt_view(text),
        ),
        text::opt_view(*final(last)) == last_sent(text::opt_view(*old(last)), text::opt_view(text)),
{
    assert(injection_views(list@) + Seq::<InjectionView>::empty() =~= injection_views(list@));
    if let Some(text) = text {
        let same = match &*last {
            Some(last) => str_eq(last.as_str(), text.as_str()),
            None => false,
        };
        if !same {
            let injection = Injection { channel, text: text.clone() };
            assert(injection_views(list@.push(injection)) =~= injection_views(list@)
                + seq![injection@]);
            list.push(injection);
            *last = Some(text);
        }
    }
}

/// What the runtime knows before a request.
pub struct Background {
    /// The workspace instructions, where there are any to send.
    pub workspace: Option<String>,
    /// The capabilities, or why they are not known.
    pub capabilities: Result<Vec<String>, String>,
    /// The tools that the session may use; `None` for all.
    pub allowed_tools: Option<Vec<String>>,
    /// The skills; `None` where they are not known.
    pub skills: Option<Vec<(String, String)>>,
    pub goal: Option<GoalState>,
    pub goal_tokens_used: u64,
}

/// Whether a session may use a tool.
pub open spec fn visible(allowed: Option<Vec<String>>, tool: Seq<char>) -> bool {
    match allowed {
        Some(allowed) => text::views(allowed@).contains(tool),
        None => true,
    }
}

fn is_visible(allowed: &Option<Vec<String>>, tool: &str) -> (yes: bool)
    ensures
        yes == visible(*allowed, tool@),
{
    match allowed {
        Some(list) => {
            let mut i: usize = 0;
            while i < list.len()
                invariant
                    *allowed == Some(*list),
                    i <= list@.len(),
                    forall|j: int| 0 <= j < i ==> text::views(list@)[j] != tool@,
                decreases list@.len() - i,
            {
                if str_eq(list[i].as_str(), tool) {
                    assert(text::views(list@)[i as int] == tool@);
                    return true;
                }
                i += 1;
            }
            assert(!text::views(list@).contains(tool@));
            false
        },
        None => true,
    }
}

/// The capabilities as one text.
pub open spec fn capability_text(capabilities: Result<Vec<String>, String>) -> Seq<char> {
    match capabilities {
        Ok(parts) => text::joined(text::views(parts@), "\n"@),
        Err(error) => "[denia 能力上下文]\n上下文生成失败："@ + error@ + "。"@,
    }
}

/// What the goal's channel says: the goal, or, once, that it was cleared.
pub open spec fn goal_text(
    goal: Option<GoalView>,
    tokens_used: u64,
    last: Option<Seq<char>>,
) -> Option<Seq<char>> {
    match goal {
        Some(goal) => Some(goal_block(goal, tokens_used)),
        None => if last is Some {
            Some(GOAL_CLEARED_TEXT@)
        } else {
            None
        },
    }
}

/// What the skills' channel says.
pub open spec fn skill_text(background: Background, last: Option<Seq<char>>) -> Option<Seq<char>> {
    match background.skills {
        Some(skills) => if visible(background.allowed_tools, "skill"@) {
            instructions::catalog_message(instructions::skill_views(skills@), last)
        } else {
            None
        },
        None => None,
    }
}

/// What the goal's channel says in this session.
pub open spec fn goal_channel_text(background: Background, last: Option<Seq<char>>) -> Option<
    Seq<char>,
> {
    if visible(background.allowed_tools, "get_goal"@) {
        goal_text(session::goal_view(background.goal), background.goal_tokens_used, last)
    } else {
        None
    }
}

/// What is injected before a request: the workspace instructions, the capabilities, the skills and
/// the goal, in this order.
pub open spec fn injected(background: Background, last: BaselinesView) -> Seq<InjectionView> {
    sent(WORKSPACE_CHANNEL@, last.workspace, text::opt_view(background.workspace)) + sent(
        CAPABILITY_CHANNEL@,
        last.capability,
        Some(capability_text(background.capabilities)),
    ) + sent(SKILL_CHANNEL@, last.skills, skill_text(background, last.skills)) + sent(
        GOAL_CHANNEL@,
        last.goal,
        goal_channel_text(background, last.goal),
    )
}

/// What each channel sent last, after that.
pub open spec fn after_injection(background: Background, last: BaselinesView) -> BaselinesView {
    BaselinesView {
        capability: Some(capability_text(background.capabilities)),
        workspace: last_sent(last.workspace, text::opt_view(background.workspace)),
        skills: last_sent(last.skills, skill_text(background, last.skills)),
        goal: last_sent(last.goal, goal_channel_text(background, last.goal)),
    }
}

/// What is to be injected before a request.
pub fn refresh_background_injections(
    background: Background,
    baselines: &mut InjectionBaselines,
) -> (list: Vec<Injection>)
    ensures
        injection_views(list@) == injected(background, old(baselines)@),
        final(baselines)@ == after_injection(background, old(baselines)@),
{
    let ghost last = baselines@;
    let ghost told = background;
    let mut list: Vec<Injection> = Vec::new();
    assert(injection_views(list@) =~= Seq::empty());
    let skills_visible = is_visible(&background.allowed_tools, "skill");
    let goal_visible = is_visible(&background.allowed_tools, "get_goal");
    let Background {
        workspace,
        capabilities,
        allowed_tools: _,
        skills,
        goal,
        goal_tokens_used,
    } = background;
    send(&mut list, WORKSPACE_CHANNEL, &mut baselines.workspace_baseline, workspace);
    assert(injection_views(list@) =~= sent(
        WORKSPACE_CHANNEL@,
        last.workspace,
        text::opt_view(told.workspace),
    ));
    let context = match capabilities {
        Ok(parts) => join(&parts, "\n"),
        Err(error) => cat3("[denia 能力上下文]\n上下文生成失败：", error.as_str(), "。"),
    };
    send(&mut list, CAPABILITY_CHANNEL, &mut baselines.capability_context, Some(context));
    let catalog = match skills {
        Some(skills) => if skills_visible {
            let previous: Option<&str> = match &baselines.skill_catalog {
                Some(text) => Some(text.as_str()),
                None => None,
            };
            render_skill_catalog(&skills, previous)
        } else {
            None
        },
        None => None,
    };
    send(&mut list, SKILL_CHANNEL, &mut baselines.skill_catalog, catalog);
    let status = if goal_visible {
        match goal {
            Some(goal) => Some(render_goal_block(&goal, goal_tokens_used)),
            None => if baselines.goal.is_some() {
                Some(GOAL_CLEARED_TEXT.to_owned())
            } else {
                None
            },
        }
    } else {
        None
    };
    send(&mut list, GOAL_CHANNEL, &mut baselines.goal, status);
    list
}

/// What stands behind the state of a goal.
pub open spec fn goal_advice(status: GoalStatus) -> Seq<char> {
    match status {
        GoalStatus::Active =>
            "请继续朝目标自主工作:评估当前进展,决定并执行下一步;目标达成时立即用 update_goal 标记 complete,无法推进时用 blocked 标记并说明原因。"@,
        GoalStatus::Paused => "目标已暂停:自动续跑停止,等待用户恢复后再继续朝目标工作。"@,
        GoalStatus::Blocked => "目标受阻:自动续跑停止;阻塞解除或用户给出新指示后继续。"@,
        GoalStatus::BudgetLimited =>
            "目标预算已耗尽:本轮请总结进展并收尾,不要开启新的大步骤。"@,
        GoalStatus::Complete => "目标已完成:无需再为目标做任何工作。"@,
    }
}

/// The state of a goal in words.
pub open spec fn goal_state_line(goal: GoalView) -> Seq<char> {
    if goal.status == GoalStatus::Blocked && goal.blocked_reason is Some {
        "状态:受阻("@ + goal.blocked_reason->0 + ")"@
    } else {
        "状态:"@ + session::status_label(goal.status)
    }
}

/// What a goal has used of its budget, in words.
pub open spec fn goal_budget_line(goal: GoalView, tokens_used: u64) -> Seq<char> {
    match goal.token_budget {
        Some(budget) => "预算用量:"@ + text::decimal(tokens_used as nat) + "/"@ + text::decimal(
            budget as nat,
        ) + " tokens"@,
        None => "预算用量:"@ + text::decimal(tokens_used as nat) + " tokens(未设预算)"@,
    }
}

/// What the model is told of the goal, line by line.
pub open spec fn goal_lines(goal: GoalView, tokens_used: u64) -> Seq<Seq<char>> {
    seq![
        "[denia 目标]"@,
        "目标:"@ + goal.objective,
        goal_state_line(goal),
        "已发起续跑轮数:"@ + text::decimal(goal.rounds_started as nat),
        goal_budget_line(goal, tokens_used),
        goal_advice(goal.status),
    ]
}

/// What the model is told of the goal.
pub open spec fn goal_block(goal: GoalView, tokens_used: u64) -> Seq<char> {
    text::joined(goal_lines(goal, tokens_used), "\n"@)
}

fn advice_on(status: GoalStatus) -> (advice: &'static str)
    ensures
        advice@ == goal_advice(status),
{
    match status {
        GoalStatus::Active =>
            "请继续朝目标自主工作:评估当前进展,决定并执行下一步;目标达成时立即用 update_goal 标记 complete,无法推进时用 blocked 标记并说明原因。",
        GoalStatus::Paused => "目标已暂停:自动续跑停止,等待用户恢复后再继续朝目标工作。",
        GoalStatus::Blocked => "目标受阻:自动续跑停止;阻塞解除或用户给出新指示后继续。",
        GoalStatus::BudgetLimited => "目标预算已耗尽:本轮请总结进展并收尾,不要开启新的大步骤。",
        GoalStatus::Complete => "目标已完成:无需再为目标做任何工作。",
    }
}

/// What the model is told of the goal: what it is, its state, its rounds, its budget, and what to
/// do.
pub fn render_goal_block(goal: &GoalState, tokens_used: u64) -> (block: String)
    ensures
        block@ == goal_block(goal@, tokens_used),
{
    let state = match &goal.blocked_reason {
        Some(reason) => if goal.status == GoalStatus::Blocked {
            cat3("状态:受阻(", reason.as_str(), ")")
        } else {
            cat2("状态:", goal.status.label())
        },
        None => cat2("状态:", goal.status.label()),
    };
    let used = decimal_text(tokens_used);
    let budget = match goal.token_budget {
        Some(budget) => cat5(
            "预算用量:",
            used.as_str(),
            "/",
            decimal_text(budget).as_str(),
            " tokens",
        ),
        None => cat3("预算用量:", used.as_str(), " tokens(未设预算)"),
    };
    let lines: Vec<String> = vec![
        "[denia 目标]".to_owned(),
        cat2("目标:", goal.objective.as_str()),
        state,
        cat2("已发起续跑轮数:", decimal_text(goal.rounds_started as u64).as_str()),
        budget,
        advice_on(goal.status).to_owned(),
    ];
    assert(text::views(lines@) =~= goal_lines(goal@, tokens_used));
    join(&lines, "\n")
}

/// What was injected is not injected again while nothing changes.
pub proof fn unchanged_background_is_not_repeated(background: Background, last: BaselinesView)
    ensures
        injected(background, after_injection(background, last)) == Seq::<InjectionView>::empty(),
{
    let next = after_injection(background, last);
    if let Some(skills) = background.skills {
        let entries = instructions::skill_views(skills@);
        instructions::unchanged_catalog_is_not_repeated(entries, last.skills);
        if visible(background.allowed_tools, "skill"@) && skill_text(background, last.skills) is None {
            assert(next.skills == last.skills);
        }
    }
    assert(injected(background, next) =~= Seq::empty());
}

} // verus!
