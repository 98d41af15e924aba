//! The event-sourced session vocabulary: what a session's log can hold, the session's goal, and
//! where a log can be cut for a fork.
use vstd::prelude::*;
use vstd::string::*;

use crate::error::LlmFailure;
use crate::json::Json;
use crate::message::ImageData;
use crate::stream::{ContentBlock, LlmCallConfig, ModelSelection, StreamChunk, TokenUsage};
use crate::text;
use crate::text::{str_eq, trim};
use crate::tool::ToolSchema;

verus! {

/// On-disk and wire format version; pinned while unreleased.
pub const SESSION_FORMAT_VERSION: u32 = 0;

/// First line of every session file.
#[derive(Debug, Clone, PartialEq)]
pub struct SessionHeader {
    pub kind: SessionHeaderKind,
    pub version: u32,
    pub id: String,
    pub created_at: u64,
    pub cwd: String,
    /// Confines file tools to `cwd`; orthogonal to the directory choice.
    pub sandbox: bool,
    /// The session that this one was forked from.
    pub parent_session: Option<String>,
    pub subagent: Option<SubagentDescriptor>,
}

/// Identity and recovery settings of a subagent's session.
#[derive(Debug, Clone, PartialEq)]
pub struct SubagentDescriptor {
    pub label: String,
    pub depth: usize,
    pub mode: String,
    pub selection: ModelSelection,
    pub persona: Option<String>,
    pub allowed_tools: Option<Vec<String>>,
}

#[derive(Debug, Clone, Copy, PartialEq, Eq, Structural)]
pub enum SessionHeaderKind {
    Session,
}

/// Why one turn closed.
#[derive(Debug, Clone, PartialEq)]
pub enum TurnEndReason {
    Completed,
    /// Cancelled. No cause: a log from before causes were recorded.
    Aborted { cause: Option<AbortCause> },
    MaxTokens,
    Error { failure: LlmFailure },
    /// The model gave the same output `repeats` times in a row.
    LoopDetected { repeats: u32 },
    /// The close of a turn that a crash left open, made when the log is loaded.
    Interrupted,
}

/// Who cancelled.
#[derive(Debug, Clone, PartialEq, Eq)]
pub enum AbortCause {
    User,
    Parent,
    Hook { reason: String },
    Disposed,
    Legacy,
}

/// The session's permission mode.
#[derive(Debug, Clone, Copy, PartialEq, Eq, Structural)]
pub enum PermissionMode {
    /// Every writing operation is denied.
    ReadOnly,
    /// Edits inside the workspace pass; writes outside it are asked about.
    AutoEdit,
    /// Read-only, until the user approves the plan that the model hands in.
    Plan,
    /// Everything passes, anywhere.
    Full,
}

/// The name of a mode.
pub open spec fn mode_name(mode: PermissionMode) -> Seq<char> {
    match mode {
        PermissionMode::ReadOnly => "read-only"@,
        PermissionMode::AutoEdit => "auto-edit"@,
        PermissionMode::Plan => "plan"@,
        PermissionMode::Full => "full"@,
    }
}

/// The mode that a name stands for: its own name, or one of the older names.
pub open spec fn mode_named(name: Seq<char>) -> Option<PermissionMode> {
    if name == "read-only"@ {
        Some(PermissionMode::ReadOnly)
    } else if name == "auto-edit"@ || name == "workspace-write"@ {
        Some(PermissionMode::AutoEdit)
    } else if name == "plan"@ {
        Some(PermissionMode::Plan)
    } else if name == "full"@ || name == "danger-full-access"@ {
        Some(PermissionMode::Full)
    } else {
        None
    }
}

impl PermissionMode {
    /// Whether everything is permitted.
    pub fn is_full(self) -> (yes: bool)
        ensures
            yes == (self == PermissionMode::Full),
    {
        matches!(self, PermissionMode::Full)
    }

    /// Whether only reading is permitted.
    pub fn is_read_only(self) -> (yes: bool)
        ensures
            yes == (self == PermissionMode::ReadOnly),
    {
        matches!(self, PermissionMode::ReadOnly)
    }

    /// The name of this mode.
    pub fn as_str(self) -> (name: &'static str)
        ensures
            name@ == mode_name(self),
    {
        match self {
            PermissionMode::ReadOnly => "read-only",
            PermissionMode::AutoEdit => "auto-edit",
            PermissionMode::Plan => "plan",
            PermissionMode::Full => "full",
        }
    }

    /// The mode that a text names, white space around it aside.
    pub fn parse(value: &str) -> (mode: Option<Self>)
        ensures
            mode == mode_named(text::trimmed(value@)),
    {
        let name = trim(value);
        let name = name.as_str();
        if str_eq(name, "read-only") {
            Some(PermissionMode::ReadOnly)
        } else if str_eq(name, "auto-edit") || str_eq(name, "workspace-write") {
            Some(PermissionMode::AutoEdit)
        } else if str_eq(name, "plan") {
            Some(PermissionMode::Plan)
        } else if str_eq(name, "full") || str_eq(name, "danger-full-access") {
            Some(PermissionMode::Full)
        } else {
            None
        }
    }
}

/// A mode's name is read back as the mode.
pub proof fn mode_name_is_read_back(mode: PermissionMode)
    ensures
        mode_named(text::trimmed(mode_name(mode))) == Some(mode),
{
    reveal_strlit("read-only");
    reveal_strlit("auto-edit");
    reveal_strlit("workspace-write");
    reveal_strlit("plan");
    reveal_strlit("full");
    reveal_strlit("danger-full-access");
    let name = mode_name(mode);
    assert(text::trim_front(name) == name);
    assert(text::trim_back(name) == name);
    if mode == PermissionMode::AutoEdit {
        assert(name[0] != "read-only"@[0]);
    } else if mode == PermissionMode::Plan {
        assert(name.len() != "read-only"@.len());
        assert(name.len() != "auto-edit"@.len());
        assert(name.len() != "workspace-write"@.len());
    } else if mode == PermissionMode::Full {
        assert(name.len() != "read-only"@.len());
        assert(name.len() != "auto-edit"@.len());
        assert(name.len() != "workspace-write"@.len());
        assert(name[0] != "plan"@[0]);
    }
}

/// Approval policy. Only logs of an older form carry it.
#[derive(Debug, Clone, Copy, PartialEq, Eq, Structural)]
pub enum ApprovalPolicy {
    Ask,
    Never,
}

impl ApprovalPolicy {
    /// The name of this policy.
    pub fn as_str(self) -> (name: &'static str)
        ensures
            name@ == (match self {
                ApprovalPolicy::Ask => "ask"@,
                ApprovalPolicy::Never => "never"@,
            }),
    {
        match self {
            ApprovalPolicy::Ask => "ask",
            ApprovalPolicy::Never => "never",
        }
    }
}

/// How one approval request ended.
#[derive(Debug, Clone, Copy, PartialEq, Eq, Structural)]
pub enum ApprovalOutcome {
    AllowedOnce,
    Rejected,
    Cancelled,
    Unavailable,
}

/// The user's decision on a plan.
#[derive(Debug, PartialEq)]
pub struct PlanReviewDecision {
    pub outcome: ApprovalOutcome,
    /// The mode to carry the plan out in.
    pub execute_mode: Option<PermissionMode>,
    /// The model to carry the plan out with.
    pub selection: Option<ModelSelection>,
    /// Whether that model sees images.
    pub vision_supported: Option<bool>,
    /// What the user adds.
    pub feedback: Option<String>,
}

impl Clone for PlanReviewDecision {
    fn clone(&self) -> (copy: Self)
        ensures
            copy == *self,
    {
        PlanReviewDecision {
            outcome: self.outcome,
            execute_mode: self.execute_mode,
            selection: self.selection.clone(),
            vision_supported: self.vision_supported,
            feedback: self.feedback.clone(),
        }
    }
}

/// One choice of a question.
#[derive(Debug, Clone, PartialEq, Eq)]
pub struct AskOption {
    pub label: String,
    pub description: Option<String>,
    pub recommended: bool,
}

/// One question to the user.
#[derive(Debug, Clone, PartialEq, Eq)]
pub struct AskQuestion {
    pub id: String,
    pub question: String,
    pub header: Option<String>,
    pub detail: Option<String>,
    /// Without options the answer is free text.
    pub options: Vec<AskOption>,
    pub multi_select: bool,
    pub allow_custom: bool,
}

/// The answer to one question.
#[derive(Debug, Clone, PartialEq, Eq)]
pub struct AskAnswer {
    pub id: String,
    pub selected: Vec<String>,
    pub custom: Option<String>,
    pub skipped: bool,
}

/// How a set of questions ended.
#[derive(Debug, Clone, Copy, PartialEq, Eq, Structural)]
pub enum AskOutcome {
    Answered,
    TimedOut,
    Cancelled,
    Unavailable,
}

/// The close of a set of questions.
#[derive(Debug, Clone, PartialEq, Eq)]
pub struct AskResolution {
    pub outcome: AskOutcome,
    pub answers: Vec<AskAnswer>,
    pub reason: Option<String>,
}

/// One entry of the todo list.
#[derive(Debug, Clone, PartialEq, Eq)]
pub struct TodoItem {
    pub content: String,
    pub status: TodoStatus,
}

#[derive(Debug, Clone, Copy, PartialEq, Eq, Structural)]
pub enum TodoStatus {
    Pending,
    InProgress,
    Completed,
}

/// The life of a session's goal.
#[derive(Debug, Clone, Copy, PartialEq, Eq, Structural)]
pub enum GoalStatus {
    Active,
    Paused,
    Blocked,
    /// The token budget is used up.
    BudgetLimited,
    /// Reached. Only clearing the goal leaves this state.
    Complete,
}

/// The name of a status.
pub open spec fn status_name(status: GoalStatus) -> Seq<char> {
    match status {
        GoalStatus::Active => "active"@,
        GoalStatus::Paused => "paused"@,
        GoalStatus::Blocked => "blocked"@,
        GoalStatus::BudgetLimited => "budget-limited"@,
        GoalStatus::Complete => "complete"@,
    }
}

/// The label of a status in texts for the model.
pub open spec fn status_label(status: GoalStatus) -> Seq<char> {
    match status {
        GoalStatus::Active => "进行中"@,
        GoalStatus::Paused => "已暂停"@,
        GoalStatus::Blocked => "受阻"@,
        GoalStatus::BudgetLimited => "预算已用尽"@,
        GoalStatus::Complete => "已完成"@,
    }
}

impl GoalStatus {
    /// The name of this status.
    pub fn as_str(self) -> (name: &'static str)
        ensures
            name@ == status_name(self),
    {
        match self {
            GoalStatus::Active => "active",
            GoalStatus::Paused => "paused",
            GoalStatus::Blocked => "blocked",
            GoalStatus::BudgetLimited => "budget-limited",
            GoalStatus::Complete => "complete",
        }
    }

    /// The label of this status in texts for the model.
    pub fn label(self) -> (label: &'static str)
        ensures
            label@ == status_label(self),
    {
        match self {
            GoalStatus::Active => "进行中",
            GoalStatus::Paused => "已暂停",
            GoalStatus::Blocked => "受阻",
            GoalStatus::BudgetLimited => "预算已用尽",
            GoalStatus::Complete => "已完成",
        }
    }
}

/// A session's goal.
///
/// The tokens that a goal has used are the session's total less `base_tokens`, the total at the
/// time the goal was set: pausing and resuming keep the account.
#[derive(Debug, PartialEq, Eq)]
pub struct GoalState {
    pub objective: String,
    pub status: GoalStatus,
    /// Without a budget the goal is not limited.
    pub token_budget: Option<u64>,
    pub blocked_reason: Option<String>,
    pub base_tokens: u64,
    /// Rounds that were started for the goal.
    pub rounds_started: u32,
    pub created_at: u64,
    pub updated_at: u64,
}

pub struct GoalView {
    pub objective: Seq<char>,
    pub status: GoalStatus,
    pub token_budget: Option<u64>,
    pub blocked_reason: Option<Seq<char>>,
    pub base_tokens: u64,
    pub rounds_started: u32,
    pub created_at: u64,
    pub updated_at: u64,
}

impl View for GoalState {
    type V = GoalView;

    open spec fn view(&self) -> GoalView {
        GoalView {
            objective: self.objective@,
            status: self.status,
            token_budget: self.token_budget,
            blocked_reason: text::opt_view(self.blocked_reason),
            base_tokens: self.base_tokens,
            rounds_started: self.rounds_started,
            created_at: self.created_at,
            updated_at: self.updated_at,
        }
    }
}

impl Clone for GoalState {
    fn clone(&self) -> (copy: Self)
        ensures
            copy == *self,
    {
        GoalState {
            objective: self.objective.clone(),
            status: self.status,
            token_budget: self.token_budget,
            blocked_reason: self.blocked_reason.clone(),
            base_tokens: self.base_tokens,
            rounds_started: self.rounds_started,
            created_at: self.created_at,
            updated_at: self.updated_at,
        }
    }
}

/// The view of an optional goal.
pub open spec fn goal_view(goal: Option<GoalState>) -> Option<GoalView> {
    match goal {
        Some(goal) => Some(goal@),
        None => None,
    }
}

/// One operation on the goal.
#[derive(Debug, Clone, PartialEq, Eq)]
#[allow(inconsistent_fields)]
pub enum GoalOp {
    /// Sets a goal. Ignored while there is one: the user clears it first.
    SetGoal { objective: String, token_budget: Option<u64> },
    /// Changes the text or the budget. A blocked or used-up goal becomes active again; a paused
    /// one stays paused; a complete one is left alone.
    Edit { objective: Option<String>, token_budget: Option<u64> },
    /// Pauses an active goal.
    Pause,
    /// Resumes a paused or blocked goal.
    Resume,
    /// Counts one more round.
    Round,
    /// The goal is reached.
    Complete,
    /// The goal cannot be pursued.
    Block { reason: String },
    /// The budget of an active goal is used up.
    BudgetLimit,
    /// Clears the goal.
    Clear,
}

/// A budget of zero is no budget.
pub open spec fn budget(tokens: Option<u64>) -> Option<u64> {
    match tokens {
        Some(tokens) => if tokens > 0 {
            Some(tokens)
        } else {
            None
        },
        None => None,
    }
}

/// The goal after an operation that finds a goal.
pub open spec fn goal_changed(goal: GoalView, op: GoalOp, now: u64) -> Option<GoalView> {
    let touched = GoalView { updated_at: now, ..goal };
    match op {
        GoalOp::SetGoal { .. } => Some(goal),
        GoalOp::Edit { objective, token_budget } => if goal.status == GoalStatus::Complete || (
        objective matches Some(text) && text::is_blank(text@)) {
            Some(goal)
        } else {
            let restarted = goal.status == GoalStatus::Blocked || goal.status
                == GoalStatus::BudgetLimited;
            Some(
                GoalView {
                    objective: match objective {
                        Some(text) => text::trimmed(text@),
                        None => goal.objective,
                    },
                    token_budget: match token_budget {
                        Some(_) => budget(token_budget),
                        None => goal.token_budget,
                    },
                    status: if restarted {
                        GoalStatus::Active
                    } else {
                        goal.status
                    },
                    blocked_reason: if restarted {
                        None
                    } else {
                        goal.blocked_reason
                    },
                    ..touched
                },
            )
        },
        GoalOp::Pause => if goal.status == GoalStatus::Active {
            Some(GoalView { status: GoalStatus::Paused, ..touched })
        } else {
            Some(touched)
        },
        GoalOp::Resume => if goal.status == GoalStatus::Paused || goal.status
            == GoalStatus::Blocked {
            Some(GoalView { status: GoalStatus::Active, blocked_reason: None, ..touched })
        } else {
            Some(touched)
        },
        GoalOp::Round => Some(
            GoalView {
                rounds_started: if goal.rounds_started == u32::MAX {
                    u32::MAX
                } else {
                    (goal.rounds_started + 1) as u32
                },
                ..touched
            },
        ),
        GoalOp::Complete => if goal.status != GoalStatus::Complete {
            Some(GoalView { status: GoalStatus::Complete, blocked_reason: None, ..touched })
        } else {
            Some(touched)
        },
        GoalOp::Block { reason } => if goal.status != GoalStatus::Complete {
            Some(
                GoalView {
                    status: GoalStatus::Blocked,
                    blocked_reason: if text::is_blank(reason@) {
                        None
                    } else {
                        Some(text::trimmed(reason@))
                    },
                    ..touched
                },
            )
        } else {
            Some(touched)
        },
        GoalOp::BudgetLimit => if goal.status == GoalStatus::Active {
            Some(GoalView { status: GoalStatus::BudgetLimited, ..touched })
        } else {
            Some(touched)
        },
        GoalOp::Clear => None,
    }
}

/// The goal after an operation.
pub open spec fn goal_after(
    current: Option<GoalView>,
    op: GoalOp,
    now: u64,
    activation_tokens: u64,
) -> Option<GoalView> {
    match current {
        Some(goal) => goal_changed(goal, op, now),
        None => match op {
            GoalOp::SetGoal { objective, token_budget } => Some(
                GoalView {
                    objective: objective@,
                    status: GoalStatus::Active,
                    token_budget: budget(token_budget),
                    blocked_reason: None,
                    base_tokens: activation_tokens,
                    rounds_started: 0,
                    created_at: now,
                    updated_at: now,
                },
            ),
            _ => None,
        },
    }
}

/// Applies one operation to the goal. `activation_tokens` is the session's token total at the
/// time of the operation.
pub fn apply_goal_op(
    current: Option<GoalState>,
    op: &GoalOp,
    now: u64,
    activation_tokens: u64,
) -> (next: Option<GoalState>)
    ensures
        goal_view(next) == goal_after(goal_view(current), *op, now, activation_tokens),
{
    let mut goal = match current {
        Some(goal) => goal,
        None => {
            return match op {
                GoalOp::SetGoal { objective, token_budget } => Some(
                    GoalState {
                        objective: objective.clone(),
                        status: GoalStatus::Active,
                        token_budget: nonzero(*token_budget),
                        blocked_reason: None,
                        base_tokens: activation_tokens,
                        rounds_started: 0,
                        created_at: now,
                        updated_at: now,
                    },
                ),
                _ => None,
            };
        },
    };
    match op {
        GoalOp::SetGoal { .. } => {
            return Some(goal);
        },
        GoalOp::Edit { objective, token_budget } => {
            if goal.status == GoalStatus::Complete {
                return Some(goal);
            }
            if let Some(text) = objective {
                let text = trim(text.as_str());
                if text.as_str().is_empty() {
                    return Some(goal);
                }
                goal.objective = text;
            }
            if token_budget.is_some() {
                goal.token_budget = nonzero(*token_budget);
            }
            if goal.status == GoalStatus::Blocked || goal.status == GoalStatus::BudgetLimited {
                goal.status = GoalStatus::Active;
                goal.blocked_reason = None;
            }
        },
        GoalOp::Pause => {
            if goal.status == GoalStatus::Active {
                goal.status = GoalStatus::Paused;
            }
        },
        GoalOp::Resume => {
            if goal.status == GoalStatus::Paused || goal.status == GoalStatus::Blocked {
                goal.status = GoalStatus::Active;
                goal.blocked_reason = None;
            }
        },
        GoalOp::Round => {
            goal.rounds_started = goal.rounds_started.saturating_add(1);
        },
        GoalOp::Complete => {
            if goal.status != GoalStatus::Complete {
                goal.status = GoalStatus::Complete;
                goal.blocked_reason = None;
            }
        },
        GoalOp::Block { reason } => {
            if goal.status != GoalStatus::Complete {
                let reason = trim(reason.as_str());
                goal.status = GoalStatus::Blocked;
                goal.blocked_reason =
                if reason.as_str().is_empty() {
                    None
                } else {
                    Some(reason)
                };
            }
        },
        GoalOp::BudgetLimit => {
            if goal.status == GoalStatus::Active {
                goal.status = GoalStatus::BudgetLimited;
            }
        },
        GoalOp::Clear => {
            return None;
        },
    }
    goal.updated_at = now;
    Some(goal)
}

fn nonzero(tokens: Option<u64>) -> (kept: Option<u64>)
    ensures
        kept == budget(tokens),
{
    match tokens {
        Some(tokens) => if tokens > 0 {
            Some(tokens)
        } else {
            None
        },
        None => None,
    }
}


/// Where there is no goal, only setting one changes that.
pub proof fn goal_begins_by_setting(op: GoalOp, now: u64, activation_tokens: u64)
    ensures
        goal_after(None, op, now, activation_tokens) is Some <==> op is SetGoal,
{
}

/// A goal ends by being cleared, and in no other way.
pub proof fn goal_ends_by_clearing(goal: GoalView, op: GoalOp, now: u64, activation_tokens: u64)
    ensures
        goal_after(Some(goal), op, now, activation_tokens) is None <==> op is Clear,
{
}

/// A complete goal stays as it is, its rounds and time of change aside, until it is cleared.
pub proof fn complete_goal_is_final(goal: GoalView, op: GoalOp, now: u64, activation_tokens: u64)
    requires
        goal.status == GoalStatus::Complete,
        !(op is Clear),
    ensures
        goal_after(Some(goal), op, now, activation_tokens) matches Some(next) && next == (GoalView {
            rounds_started: next.rounds_started,
            updated_at: next.updated_at,
            ..goal
        }),
{
}

/// No operation moves the base of a goal's token account or the time of its creation.
pub proof fn goal_account_is_kept(goal: GoalView, op: GoalOp, now: u64, activation_tokens: u64)
    ensures
        goal_after(Some(goal), op, now, activation_tokens) matches Some(next) ==> next.base_tokens
            == goal.base_tokens && next.created_at == goal.created_at,
{
}

/// Resuming undoes pausing: an active goal comes back as it was, without a reason for being
/// blocked and with a later time of change.
pub proof fn resume_undoes_pause(goal: GoalView, paused_at: u64, resumed_at: u64, tokens: u64)
    requires
        goal.status == GoalStatus::Active,
    ensures
        goal_after(
            goal_after(Some(goal), GoalOp::Pause, paused_at, tokens),
            GoalOp::Resume,
            resumed_at,
            tokens,
        ) == Some(GoalView { blocked_reason: None, updated_at: resumed_at, ..goal }),
{
}

/// A budget is never zero: an operation keeps that.
pub proof fn goal_budget_is_never_zero(
    current: Option<GoalView>,
    op: GoalOp,
    now: u64,
    activation_tokens: u64,
)
    requires
        current matches Some(goal) ==> goal.token_budget != Some(0u64),
    ensures
        goal_after(current, op, now, activation_tokens) matches Some(next) ==> next.token_budget
            != Some(0u64),
{
}

/// Why a request's header was logged.
#[derive(Debug, Clone, Copy, PartialEq, Eq, Structural)]
pub enum RequestHeaderReason {
    /// The log holds none yet.
    Initial,
    /// The log holds one, and this is the first request of this run.
    Resume,
    /// The header differs from the last one.
    Change,
    Series,
}

/// The header of a model request: the call's settings, the system prompt and the tools.
#[derive(Debug, Clone, PartialEq)]
pub struct RequestHeaderSnapshot {
    pub config: LlmCallConfig,
    pub system: Option<String>,
    pub tools: Vec<ToolSchema>,
}

/// A tool's own name for a failure.
#[derive(Debug, Clone, PartialEq, Eq)]
pub struct ToolFailureIdentity {
    pub name: String,
    pub code: String,
}

/// That a tool's output was cut.
#[derive(Debug, Clone, PartialEq, Eq)]
pub struct TruncationInfo {
    pub total_chars: u64,
    pub shown_chars: u64,
}

/// One event of a session's log.
#[derive(Debug, Clone, PartialEq)]
#[allow(inconsistent_fields)]
pub enum SessionEvent {
    /// A notice that was admitted and not yet taken up.
    AgentInbox { id: String, text: String, source: String },
    /// A notice that was taken up.
    AgentDelivery { id: String, text: String, source: String },
    TurnStart { turn: u32 },
    TurnEnd { turn: u32, reason: TurnEndReason },
    StepStart { turn: u32, step: u32 },
    StepEnd { turn: u32, step: u32 },
    UserMessage {
        text: String,
        /// Written by the harness and not by the user.
        injected: bool,
        /// The channel that injected it.
        channel: Option<String>,
        images: Vec<ImageData>,
    },
    /// The system prompt of a request.
    SystemPrompt { turn: u32, step: u32, text: String },
    AssistantChunk { turn: u32, step: u32, chunk: StreamChunk },
    AssistantMessage {
        turn: u32,
        step: u32,
        blocks: Vec<ContentBlock>,
        usage: Option<TokenUsage>,
        interrupted: bool,
        /// The chunks that the message was built from.
        source_event_seqs: Vec<u64>,
    },
    ToolCall { turn: u32, step: u32, call_id: String, name: String, arguments: String },
    ToolResult {
        turn: u32,
        step: u32,
        call_id: String,
        content: String,
        is_error: bool,
        error: Option<String>,
        error_identity: Option<ToolFailureIdentity>,
        /// What the tool shows in its own way.
        meta: Option<Json>,
        truncation: Option<TruncationInfo>,
        /// The event whose place in the history this result takes.
        replaces: Option<u64>,
    },
    /// The events `replaces_from..=replaces_to` are folded into one summary, which stands before
    /// the events from `keep_from` on.
    CompactionSummary {
        turn: u32,
        step: u32,
        summary: String,
        replaces_from: u64,
        replaces_to: u64,
        keep_from: u64,
        pre_tokens: u64,
        post_tokens: u64,
    },
    /// The whole todo list; the latest counts.
    TodoWrite { todos: Vec<TodoItem> },
    Goal { op: GoalOp },
    /// A local command that the user ran.
    CommandRun { name: String, text: String },
    PermissionMode { mode: PermissionMode },
    ApprovalPolicy { policy: ApprovalPolicy },
    ApprovalAsked {
        request_id: String,
        call_id: String,
        tool: String,
        args_preview: String,
        reason: Option<String>,
    },
    ApprovalDecided { request_id: String, outcome: ApprovalOutcome },
    AskRequested {
        request_id: String,
        call_id: String,
        questions: Vec<AskQuestion>,
        timeout_ms: u64,
    },
    AskResolved { request_id: String, resolution: AskResolution },
    RequestHeader {
        turn: u32,
        step: u32,
        header: RequestHeaderSnapshot,
        reason: RequestHeaderReason,
        starts_series: bool,
    },
    RequestContext {
        turn: u32,
        step: u32,
        provider: String,
        model: String,
        context_window: Option<u64>,
    },
    RetryAttempt {
        turn: u32,
        step: u32,
        attempt: u32,
        code: String,
        message: String,
        delay_ms: u64,
    },
}

/// One entry of a session's log.
#[derive(Debug, Clone, PartialEq)]
pub struct SessionEnvelope {
    /// Contiguous, from one on.
    pub seq: u64,
    /// Unix epoch milliseconds.
    pub time: u64,
    pub event: SessionEvent,
}

/// Whether a fork's anchor lies within the log.
pub open spec fn anchored(events: Seq<SessionEnvelope>, at_seq: Option<u64>) -> bool {
    events.len() > 0 && (at_seq matches Some(anchor) && anchor <= events.last().seq)
}

/// Whether the event at `i` ends a turn at or after the anchor. Without an anchor within the log
/// any turn will do.
pub open spec fn ends_turn(events: Seq<SessionEnvelope>, at_seq: Option<u64>, i: int) -> bool {
    events[i].event is TurnEnd && (anchored(events, at_seq) ==> events[i].seq >= at_seq->0)
}

/// The number of events that a fork takes over.
///
/// The cut stands right behind the end of a turn: the first at or after `at_seq`, or, without
/// `at_seq` or with one beyond the log, the last of the log. `None` where there is no such turn.
pub fn fork_cut_index(events: &[SessionEnvelope], at_seq: Option<u64>) -> (cut: Option<usize>)
    ensures
        match cut {
            Some(n) => {
                &&& 0 < n <= events@.len()
                &&& ends_turn(events@, at_seq, n - 1)
                &&& anchored(events@, at_seq) ==> forall|i: int|
                    0 <= i < n - 1 ==> !ends_turn(events@, at_seq, i)
                &&& !anchored(events@, at_seq) ==> forall|i: int|
                    n <= i < events@.len() ==> !ends_turn(events@, at_seq, i)
            },
            None => forall|i: int| 0 <= i < events@.len() ==> !ends_turn(events@, at_seq, i),
        },
{
    if events.len() == 0 {
        return None;
    }
    let last_seq: u64 = events[events.len() - 1].seq;
    let anchor: Option<u64> = match at_seq {
        Some(anchor) => if anchor <= last_seq {
            Some(anchor)
        } else {
            None
        },
        None => None,
    };
    match anchor {
        Some(anchor) => {
            let mut i: usize = 0;
            while i < events.len()
                invariant
                    i <= events@.len(),
                    at_seq == Some(anchor),
                    anchored(events@, at_seq),
                    forall|j: int| 0 <= j < i ==> !ends_turn(events@, at_seq, j),
                decreases events@.len() - i,
            {
                if events[i].seq >= anchor && matches!(events[i].event, SessionEvent::TurnEnd { .. }) {
                    return Some(i + 1);
                }
                i += 1;
            }
        },
        None => {
            let mut i: usize = events.len();
            while i > 0
                invariant
                    i <= events@.len(),
                    !anchored(events@, at_seq),
                    forall|j: int| i <= j < events@.len() ==> !ends_turn(events@, at_seq, j),
                decreases i,
            {
                if matches!(events[i - 1].event, SessionEvent::TurnEnd { .. }) {
                    return Some(i);
                }
                i -= 1;
            }
        },
    }
    None
}

} // verus!
