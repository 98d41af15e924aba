//! What becomes of a tool call: whether it may run, what the user is asked, and what is logged.
use vstd::prelude::*;
use vstd::string::*;

use crate::agent::ids;
use crate::agent::ids::new_id;
use crate::agent::instructions;
use crate::agent::instructions::{path_argument, touched_path};
use crate::agent::log;
use crate::agent::log::{note, EventView};
use crate::error::LlmFailure;
use crate::json;
use crate::json::{parse, Json, JsonView};
use crate::message::ToolCallRef;
use crate::paths;
use crate::paths::{has_extension, path_within, place, relative, starts_doubly};
use crate::session;
use crate::session::{
    ApprovalOutcome, PermissionMode, PlanReviewDecision, SessionEvent, TruncationInfo,
};
use crate::stream::ModelSelection;
use crate::text;
use crate::text::{cat3, cat4, str_eq, trim};

verus! {

/// What a tool answers.
#[derive(Debug, PartialEq)]
pub struct ToolOutput {
    pub content: String,
    pub is_error: bool,
}

pub struct OutputView {
    pub content: Seq<char>,
    pub is_error: bool,
}

impl View for ToolOutput {
    type V = OutputView;

    open spec fn view(&self) -> OutputView {
        OutputView { content: self.content@, is_error: self.is_error }
    }
}

/// An error.
pub open spec fn failed(content: Seq<char>) -> OutputView {
    OutputView { content, is_error: true }
}

/// An answer that is no error.
pub open spec fn plain(content: Seq<char>) -> OutputView {
    OutputView { content, is_error: false }
}

impl ToolOutput {
    /// An answer that is no error.
    pub fn text(content: &str) -> (output: Self)
        ensures
            output@ == plain(content@),
    {
        ToolOutput { content: content.to_owned(), is_error: false }
    }

    /// An error.
    pub fn error(content: &str) -> (output: Self)
        ensures
            output@ == failed(content@),
    {
        ToolOutput { content: content.to_owned(), is_error: true }
    }
}

/// What a call is, for the permission rules.
#[derive(Debug, Clone, Copy, PartialEq, Eq, Structural)]
pub enum ActionClass {
    Read,
    /// Writes a file in the workspace.
    WriteInside,
    /// Writes a file outside the workspace.
    WriteOutside,
    /// Runs a command that may write.
    BashWrite,
    /// Hands in a plan.
    PlanSubmit,
    /// Writes a note into the memory.
    MemoryWrite,
}

impl View for ActionClass {
    type V = ActionClass;

    open spec fn view(&self) -> ActionClass {
        *self
    }
}

/// What the permission rules say of a call.
#[derive(Debug, PartialEq)]
pub enum Decision {
    Allow,
    Ask,
    Deny(String),
}

pub enum DecisionView {
    Allow,
    Ask,
    Deny(Seq<char>),
}

impl View for Decision {
    type V = DecisionView;

    open spec fn view(&self) -> DecisionView {
        match *self {
            Decision::Allow => DecisionView::Allow,
            Decision::Ask => DecisionView::Ask,
            Decision::Deny(reason) => DecisionView::Deny(reason@),
        }
    }
}

/// What is known of the path that a call names.
#[derive(Debug, Clone, Copy, PartialEq, Eq, Structural)]
pub struct PathFacts {
    /// It lies in the memory.
    pub in_memory: bool,
    /// Its extension is `md`.
    pub is_markdown: bool,
    /// It lies in the workspace.
    pub in_workspace: bool,
}

/// The path that a call names, as far as its arguments can be read.
pub open spec fn named_path(arguments: Seq<char>) -> Option<Seq<char>> {
    instructions::path_in(json::parsed(text::trimmed(arguments)))
}

/// What a call is. A call whose arguments cannot be read is left to its tool, which says what is
/// wrong with them.
pub open spec fn class_of(
    name: Seq<char>,
    path: Option<PathFacts>,
    confined: bool,
    may_write: bool,
) -> ActionClass {
    if name == "exit_plan"@ {
        ActionClass::PlanSubmit
    } else if name == "write_file"@ || name == "edit"@ {
        match path {
            Some(path) => if path.in_memory && path.is_markdown {
                ActionClass::MemoryWrite
            } else if path.in_workspace || confined {
                ActionClass::WriteInside
            } else {
                ActionClass::WriteOutside
            },
            None => ActionClass::WriteInside,
        }
    } else if (name == "bash"@ || name == "job_start"@) && may_write {
        ActionClass::BashWrite
    } else {
        ActionClass::Read
    }
}

/// What a call is, given what is known of its path and whether its command may write.
pub fn classify(name: &str, path: Option<PathFacts>, confined: bool, may_write: bool) -> (class:
    ActionClass)
    ensures
        class == class_of(name@, path, confined, may_write),
{
    if str_eq(name, "exit_plan") {
        ActionClass::PlanSubmit
    } else if str_eq(name, "write_file") || str_eq(name, "edit") {
        match path {
            Some(path) => if path.in_memory && path.is_markdown {
                ActionClass::MemoryWrite
            } else if path.in_workspace || confined {
                ActionClass::WriteInside
            } else {
                ActionClass::WriteOutside
            },
            None => ActionClass::WriteInside,
        }
    } else if (str_eq(name, "bash") || str_eq(name, "job_start")) && may_write {
        ActionClass::BashWrite
    } else {
        ActionClass::Read
    }
}

/// The facts of a path that a call names, which lies at `path`, given where the session works and its
/// memory. A relative path always lies in the workspace.
pub open spec fn facts_of(
    cwd: Seq<char>,
    named: Seq<char>,
    path: Seq<char>,
    memory_root: Option<Seq<char>>,
) -> PathFacts {
    PathFacts {
        in_memory: match memory_root {
            Some(root) => paths::lies_within(path, root),
            None => false,
        },
        is_markdown: paths::ends_in(path, "md"@),
        in_workspace: paths::is_relative(named) || paths::lies_within(path, cwd),
    }
}

/// Whether every system finds the same facts of a path.
pub open spec fn is_clear(
    cwd: Seq<char>,
    named: Seq<char>,
    path: Seq<char>,
    memory_root: Option<Seq<char>>,
) -> bool {
    &&& paths::is_plain(path)
    &&& memory_root matches Some(root) ==> paths::is_plain(root)
    &&& paths::is_relative(named) || paths::is_plain(cwd)
}

/// Whether a path's facts are those that were found. Each is fixed where every system reads the
/// paths in the same way.
pub open spec fn knows(
    facts: PathFacts,
    cwd: Seq<char>,
    named: Seq<char>,
    path: Seq<char>,
    memory_root: Option<Seq<char>>,
) -> bool {
    &&& memory_root is None ==> !facts.in_memory
    &&& memory_root matches Some(root) ==> is_found(facts.in_memory, path, root)
    &&& if paths::is_relative(named) && !paths::is_doubled(cwd) {
        facts.in_workspace
    } else {
        is_found(facts.in_workspace, path, cwd)
    }
    &&& paths::is_plain(path) ==> facts.is_markdown == paths::ends_in(path, "md"@)
}

/// Whether a path was found to lie in a directory, or not, as it does.
pub open spec fn is_found(within: bool, path: Seq<char>, root: Seq<char>) -> bool {
    &&& paths::is_plain(path) && paths::is_plain(root) ==> within == paths::lies_within(path, root)
    &&& path == root ==> within
}

fn path_facts(cwd: &str, named: &str, path: &str, memory_root: Option<&str>) -> (facts: PathFacts)
    ensures
        knows(facts, cwd@, named@, path@, text::opt_str_view(memory_root)),
{
    let in_memory = match memory_root {
        Some(root) => path_within(path, root),
        None => false,
    };
    proof {
        reveal_strlit("md");
        assert(!"md"@.contains('.') && !"md"@.contains('/'));
    }
    PathFacts {
        in_memory,
        is_markdown: has_extension(path, "md"),
        in_workspace: (relative(named) && !starts_doubly(cwd)) || path_within(path, cwd),
    }
}

/// The command of a shell call; empty where there is none.
pub open spec fn command_in(arguments: Option<JsonView>) -> Seq<char> {
    match arguments {
        Some(value) => match json::member_text(value, "command"@) {
            Some(command) => command,
            None => Seq::empty(),
        },
        None => Seq::empty(),
    }
}

/// The command of a shell call, given what its arguments were read as.
pub fn command_argument(arguments: &Option<Json>) -> (command: String)
    ensures
        command@ == command_in(
            match *arguments {
                Some(value) => Some(value@),
                None => None,
            },
        ),
{
    match arguments {
        Some(value) => match value.get_str("command") {
            Some(command) => command.to_owned(),
            None => String::new(),
        },
        None => String::new(),
    }
}

/// The command of a shell call; empty where there is none.
pub fn shell_command(arguments: &str) -> (command: String)
    ensures
        command@ == command_in(json::parsed(text::trimmed(arguments@))),
{
    command_argument(&parse(trim(arguments).as_str()))
}

/// Whether a class is that of a call that names a path. It is fixed where every system finds the
/// same facts of the path; else the class goes by what was found of it, as far as it is known.
pub open spec fn is_class(
    class: ActionClass,
    name: Seq<char>,
    cwd: Seq<char>,
    named: Seq<char>,
    confined: bool,
    memory_root: Option<Seq<char>>,
    may_write: bool,
) -> bool {
    match paths::placed(cwd, named) {
        Some(path) => if is_clear(cwd, named, path, memory_root) {
            class == class_of(name, Some(facts_of(cwd, named, path, memory_root)), confined, may_write)
        } else {
            exists|facts: PathFacts| #[trigger]
                knows(facts, cwd, named, path, memory_root) && class == class_of(
                    name,
                    Some(facts),
                    confined,
                    may_write,
                )
        },
        None => exists|facts: PathFacts| #[trigger]
            class_of(name, Some(facts), confined, may_write) == class && (memory_root is None
                ==> !facts.in_memory) && (paths::is_relative(named) && !paths::is_doubled(cwd)
                ==> facts.in_workspace),
    }
}

/// What a call is. `may_write` says whether its command, if it is one of the shell, may write.
pub fn classify_call(
    cwd: &str,
    call: &ToolCallRef,
    confined: bool,
    memory_root: Option<&str>,
    may_write: bool,
) -> (class: ActionClass)
    ensures
        match named_path(call.arguments@) {
            Some(named) => is_class(
                class,
                call.name@,
                cwd@,
                named,
                confined,
                text::opt_str_view(memory_root),
                may_write,
            ),
            None => class == class_of(call.name@, None, confined, may_write),
        },
{
    match path_argument(&parse(trim(call.arguments.as_str()).as_str())) {
        Some(named) => {
            let path = place(cwd, named.as_str());
            let facts = path_facts(cwd, named.as_str(), path.as_str(), memory_root);
            let class = classify(call.name.as_str(), Some(facts), confined, may_write);
            proof {
                let root = text::opt_str_view(memory_root);
                assert(knows(facts, cwd@, named@, path@, root));
                assert(class_of(call.name@, Some(facts), confined, may_write) == class);
                if is_clear(cwd@, named@, path@, root) && paths::placed(cwd@, named@) is Some {
                    if paths::is_relative(named@) && cwd@.len() >= 2 {
                        assert(path@[0] == cwd@[0] && path@[1] == cwd@[1]);
                    }
                    assert(facts == facts_of(cwd@, named@, path@, root));
                }
            }
            class
        },
        None => classify(call.name.as_str(), None, confined, may_write),
    }
}

/// Whether a tool takes a path.
pub open spec fn is_path_tool(name: Seq<char>) -> bool {
    name == "write_file"@ || name == "edit"@ || name == "read_file"@ || name == "ls"@ || name
        == "glob"@ || name == "grep"@
}

fn takes_path(name: &str) -> (yes: bool)
    ensures
        yes == is_path_tool(name@),
{
    str_eq(name, "write_file") || str_eq(name, "edit") || str_eq(name, "read_file") || str_eq(
        name,
        "ls",
    ) || str_eq(name, "glob") || str_eq(name, "grep")
}

/// Whether a call names a path in the memory, given whether the path that it names lies there.
pub fn is_anchored(name: &str, within: Option<bool>) -> (yes: bool)
    ensures
        yes == (is_path_tool(name@) && within == Some(true)),
{
    takes_path(name) && within == Some(true)
}

/// Whether a call names a path in the memory. Such a call is not confined to the workspace.
pub fn memory_anchored(cwd: &str, call: &ToolCallRef, memory_root: Option<&str>) -> (yes: bool)
    ensures
        match (memory_root, named_path(call.arguments@)) {
            (Some(root), Some(named)) => {
                &&& yes ==> is_path_tool(call.name@)
                &&& is_path_tool(call.name@) ==> (paths::placed(cwd@, named) matches Some(path)
                    ==> is_found(yes, path, root@))
            },
            _ => !yes,
        },
{
    let arguments = parse(trim(call.arguments.as_str()).as_str());
    let within = match (memory_root, path_argument(&arguments)) {
        (Some(root), Some(named)) => Some(path_within(place(cwd, named.as_str()).as_str(), root)),
        _ => None,
    };
    is_anchored(call.name.as_str(), within)
}

/// Whether a call is confined to the workspace: in a sandbox, unless everything is permitted or the
/// call names a path in the memory.
pub fn is_confined(mode: PermissionMode, sandbox: bool, anchored: bool) -> (yes: bool)
    ensures
        yes == (mode != PermissionMode::Full && sandbox && !anchored),
{
    !mode.is_full() && sandbox && !anchored
}

/// What a subagent is told that writes anything but a note.
pub const SUBAGENT_WRITE: &'static str =
    "子代理的文件写仅限记忆目录内的 .md 文件(记忆提取);其余写操作留在父代理。";

/// What is decided of a call: a note is written unless its path is sensitive, a subagent writes
/// nothing but notes, and for the rest the permission rules decide.
pub open spec fn gated(
    class: ActionClass,
    name: Seq<char>,
    is_subagent: bool,
    sensitive: Option<Seq<char>>,
    decided: DecisionView,
) -> DecisionView {
    if class == ActionClass::MemoryWrite {
        match sensitive {
            Some(path) => DecisionView::Deny(
                "路径 "@ + path + " 命中敏感目录(git 钩子/依赖/技能等),禁止写入。"@,
            ),
            None => decided,
        }
    } else if is_subagent && (name == "write_file"@ || name == "edit"@) {
        DecisionView::Deny(SUBAGENT_WRITE@)
    } else {
        decided
    }
}

/// What is decided of a call. `sensitive` is its path, if that is one that nobody writes to, and
/// `decided` is what the permission rules say.
pub fn decide_for(
    class: ActionClass,
    name: &str,
    is_subagent: bool,
    sensitive: Option<&str>,
    decided: Decision,
) -> (decision: Decision)
    ensures
        decision@ == gated(class, name@, is_subagent, text::opt_str_view(sensitive), decided@),
{
    if class == ActionClass::MemoryWrite {
        return match sensitive {
            Some(path) => Decision::Deny(
                cat3("路径 ", path, " 命中敏感目录(git 钩子/依赖/技能等),禁止写入。"),
            ),
            None => decided,
        };
    }
    if is_subagent && (str_eq(name, "write_file") || str_eq(name, "edit")) {
        return Decision::Deny(SUBAGENT_WRITE.to_owned());
    }
    decided
}

/// A subagent never writes a file but as a note, whatever the permission rules say.
pub proof fn subagent_writes_only_notes(
    class: ActionClass,
    name: Seq<char>,
    sensitive: Option<Seq<char>>,
    decided: DecisionView,
)
    requires
        name == "write_file"@ || name == "edit"@,
        class != ActionClass::MemoryWrite,
    ensures
        gated(class, name, true, sensitive, decided) is Deny,
{
}

/// Why a call is refused before anything is decided of it, if it is: a subagent calls a tool that it
/// is not allowed, or there is no such tool.
pub open spec fn refusal(allowed: Option<Seq<Seq<char>>>, known: bool, name: Seq<char>) -> Option<
    OutputView,
> {
    if allowed matches Some(allowed) && !allowed.contains(name) {
        Some(failed("该工具不在当前子代理允许的工具集合中"@))
    } else if !known {
        Some(
            failed(
                "unknown tool: "@ + name
                    + "\n该工具不存在;可用工具见系统提示的工具列表,核对名称后重试。"@,
            ),
        )
    } else {
        None
    }
}

fn contains_name(names: &Vec<String>, name: &str) -> (yes: bool)
    ensures
        yes == text::views(names@).contains(name@),
{
    let mut i: usize = 0;
    while i < names.len()
        invariant
            i <= names@.len(),
            forall|j: int| 0 <= j < i ==> text::views(names@)[j] != name@,
        decreases names@.len() - i,
    {
        if str_eq(names[i].as_str(), name) {
            assert(text::views(names@)[i as int] == name@);
            return true;
        }
        i += 1;
    }
    assert(!text::views(names@).contains(name@));
    false
}

/// Why a call is refused before anything is decided of it, if it is.
pub fn reject_before_dispatch(allowed: Option<&Vec<String>>, known: bool, name: &str) -> (output: Option<
    ToolOutput,
>)
    ensures
        refusal(
            match allowed {
                Some(allowed) => Some(text::views(allowed@)),
                None => None,
            },
            known,
            name@,
        ) == (match output {
            Some(output) => Some(output@),
            None => None::<OutputView>,
        }),
{
    if let Some(allowed) = allowed {
        if !contains_name(allowed, name) {
            return Some(ToolOutput::error("该工具不在当前子代理允许的工具集合中"));
        }
    }
    if !known {
        let text = cat3(
            "unknown tool: ",
            name,
            "\n该工具不存在;可用工具见系统提示的工具列表,核对名称后重试。",
        );
        return Some(ToolOutput::error(text.as_str()));
    }
    None
}

/// The call as it is logged.
pub fn append_call(turn: u32, step: u32, call: &ToolCallRef) -> (event: SessionEvent)
    ensures
        event@ == (EventView::ToolCall {
            turn,
            step,
            call_id: call.id@,
            name: call.name@,
            arguments: call.arguments@,
        }),
{
    SessionEvent::ToolCall {
        turn,
        step,
        call_id: call.id.clone(),
        name: call.name.clone(),
        arguments: call.arguments.clone(),
    }
}

/// Whether a call that came to an end has touched a file.
pub open spec fn touches(name: Seq<char>, arguments: Seq<char>, is_error: bool) -> bool {
    !is_error && (name == "read_file"@ || name == "write_file"@ || name == "edit"@) && named_path(
        arguments,
    ) is Some
}

/// The answer of a call as it is logged. The files that were touched are remembered. The content is
/// what the output budget left of it.
pub fn commit_result(
    turn: u32,
    step: u32,
    call: &ToolCallRef,
    is_error: bool,
    content: String,
    truncation: Option<TruncationInfo>,
    cwd: &str,
    touched: &mut Vec<String>,
) -> (event: SessionEvent)
    ensures
        event@ == (EventView::ToolResult {
            turn,
            step,
            call_id: call.id@,
            content: content@,
            is_error,
            truncation,
        }),
        if touches(call.name@, call.arguments@, is_error) {
            &&& final(touched)@ == old(touched)@.push(final(touched)@.last())
            &&& paths::is_joined(
                final(touched)@.last()@,
                cwd@,
                named_path(call.arguments@)->0,
            )
        } else {
            final(touched)@ == old(touched)@
        },
{
    let name = call.name.as_str();
    if !is_error && (str_eq(name, "read_file") || str_eq(name, "write_file") || str_eq(name, "edit")) {
        if let Some(path) = touched_path(cwd, call.arguments.as_str()) {
            assert(paths::is_joined(path@, cwd@, named_path(call.arguments@)->0));
            touched.push(path);
        }
    }
    SessionEvent::ToolResult {
        turn,
        step,
        call_id: call.id.clone(),
        content,
        is_error,
        error: None,
        error_identity: None,
        meta: None,
        truncation,
        replaces: None,
    }
}

/// What a call is answered whose events cannot be logged.
pub fn storage_output(failure: &LlmFailure) -> (output: ToolOutput)
    ensures
        output@ == failed("["@ + failure.code@ + "] "@ + failure.message@),
{
    ToolOutput::error(
        cat4("[", failure.code.as_str(), "] ", failure.message.as_str()).as_str(),
    )
}

/// What a call that may run is answered: what its tool says, unless the user cancelled before it
/// ran or while it did, or there is no such tool.
pub open spec fn run_answer(cancelled: bool, known: bool, output: Option<OutputView>) -> OutputView {
    if cancelled {
        failed("工具调用在派发前已被中断"@)
    } else if !known {
        failed("unknown tool"@)
    } else {
        match output {
            Some(output) => output,
            None => failed("工具执行被中断"@),
        }
    }
}

/// What a call that may run is answered. `cancelled` says that the user cancelled before it ran,
/// and there is no output where they cancelled while it ran.
pub fn settle_run(cancelled: bool, known: bool, output: Option<ToolOutput>) -> (answer: ToolOutput)
    ensures
        answer@ == run_answer(
            cancelled,
            known,
            match output {
                Some(output) => Some(output@),
                None => None,
            },
        ),
{
    if cancelled {
        return ToolOutput::error("工具调用在派发前已被中断");
    }
    if !known {
        return ToolOutput::error("unknown tool");
    }
    match output {
        Some(output) => output,
        None => ToolOutput::error("工具执行被中断"),
    }
}

/// Why the user is not asked about a call, if they are not.
pub open spec fn unasked(
    is_plan: bool,
    cancelled: bool,
    plan_error: Option<Seq<char>>,
    has_channel: bool,
) -> Option<Seq<char>> {
    if cancelled {
        Some("工具调用在派发前已被中断"@)
    } else if is_plan && plan_error is Some {
        Some("计划提交参数无效:"@ + plan_error->0)
    } else if !has_channel {
        Some(
            if is_plan {
                "计划审批需要用户审批通道,但当前没有可用的审批通道;请把计划直接写在回复里,请用户手动切换权限模式。"@
            } else {
                "该操作需要用户审批,但当前没有可用的审批通道;请改用工作区内的路径,或请用户调整权限模式。"@
            },
        )
    } else {
        None
    }
}

/// What the user is told of why they are asked.
pub open spec fn ask_reason(is_plan: bool) -> Seq<char> {
    if is_plan {
        "计划审批:批准后会话自动切换执行档位并继续执行"@
    } else {
        "该操作要写工作区之外的路径,需要用户确认"@
    }
}

/// A question to the user about a call.
pub struct Question {
    pub request_id: String,
    pub event: SessionEvent,
}

/// The question to the user about a call, or what the call is answered where nobody is asked. A plan
/// that cannot be read is not put before the user; `plan_error` says what is wrong with it.
pub fn ask_about(
    call: &ToolCallRef,
    cancelled: bool,
    plan_error: Option<&str>,
    has_channel: bool,
) -> (question: Result<Question, ToolOutput>)
    ensures
        match question {
            Ok(question) => {
                &&& unasked(
                    call.name@ == "exit_plan"@,
                    cancelled,
                    text::opt_str_view(plan_error),
                    has_channel,
                ) is None
                &&& ids::is_new_id(question.request_id@)
                &&& question.event@ == (EventView::ApprovalAsked {
                    request_id: question.request_id@,
                    call_id: call.id@,
                    tool: call.name@,
                    args_preview: call.arguments@,
                    reason: Some(ask_reason(call.name@ == "exit_plan"@)),
                })
            },
            Err(output) => {
                let why = unasked(
                    call.name@ == "exit_plan"@,
                    cancelled,
                    text::opt_str_view(plan_error),
                    has_channel,
                );
                why matches Some(text) && output@ == failed(text)
            },
        },
{
    if cancelled {
        return Err(ToolOutput::error("工具调用在派发前已被中断"));
    }
    let is_plan = str_eq(call.name.as_str(), "exit_plan");
    if is_plan {
        if let Some(error) = plan_error {
            return Err(ToolOutput::error(text::cat2("计划提交参数无效:", error).as_str()));
        }
    }
    if !has_channel {
        return Err(
            ToolOutput::error(
                if is_plan {
                    "计划审批需要用户审批通道,但当前没有可用的审批通道;请把计划直接写在回复里,请用户手动切换权限模式。"
                } else {
                    "该操作需要用户审批,但当前没有可用的审批通道;请改用工作区内的路径,或请用户调整权限模式。"
                },
            ),
        );
    }
    let reason = if is_plan {
        "计划审批:批准后会话自动切换执行档位并继续执行"
    } else {
        "该操作要写工作区之外的路径,需要用户确认"
    };
    let request_id = new_id();
    let event = SessionEvent::ApprovalAsked {
        request_id: request_id.clone(),
        call_id: call.id.clone(),
        tool: call.name.clone(),
        args_preview: call.arguments.clone(),
        reason: Some(reason.to_owned()),
    };
    Ok(Question { request_id, event })
}

/// What follows from the user's decision on a call.
pub enum ApprovalMove {
    /// The call runs.
    Run,
    /// The call is answered.
    Answer(ToolOutput),
}

pub enum ApprovalView {
    Run,
    Answer(OutputView),
}

impl View for ApprovalMove {
    type V = ApprovalView;

    open spec fn view(&self) -> ApprovalView {
        match *self {
            ApprovalMove::Run => ApprovalView::Run,
            ApprovalMove::Answer(output) => ApprovalView::Answer(output@),
        }
    }
}

/// What the user adds to a decision, if it says anything.
pub open spec fn added(feedback: Option<String>) -> Option<Seq<char>> {
    match feedback {
        Some(feedback) => if text::is_blank(feedback@) {
            None
        } else {
            Some(text::trimmed(feedback@))
        },
        None => None,
    }
}

/// The mode that an approved plan is carried out in: full access where the user chose it, and else
/// automatic edits. A mode that carries nothing out cannot be chosen.
pub open spec fn execute_mode(chosen: Option<PermissionMode>) -> PermissionMode {
    if chosen == Some(PermissionMode::Full) {
        PermissionMode::Full
    } else {
        PermissionMode::AutoEdit
    }
}

/// What the model is told of an approved plan.
pub open spec fn approval_text(mode: PermissionMode, switched: bool, added: Option<Seq<char>>) -> Seq<
    char,
> {
    let head = "计划已批准,会话已切换至 "@ + session::mode_name(mode) + " 模式,请开始执行。"@;
    let model = if switched {
        head + "执行模型已按用户选择切换。"@
    } else {
        head
    };
    match added {
        Some(text) => model + "\n用户补充建议(执行时一并落实):\n"@ + text,
        None => model,
    }
}

/// What the model is told of a rejected plan.
pub open spec fn rejection_text(added: Option<Seq<char>>) -> Seq<char> {
    match added {
        Some(text) => "用户拒绝了该计划。"@ + "请按以下补充建议修订计划后重新提交:\n"@ + text,
        None => "用户拒绝了该计划。"@
            + "请修订计划后重新提交;不确定用户的顾虑时,先用 ask 工具询问。"@,
    }
}

/// What follows from the user's decision on a call.
pub open spec fn approval_move(is_plan: bool, decision: PlanReviewDecision) -> ApprovalView {
    match decision.outcome {
        ApprovalOutcome::AllowedOnce => if is_plan {
            ApprovalView::Answer(
                plain(
                    approval_text(
                        execute_mode(decision.execute_mode),
                        decision.selection is Some,
                        added(decision.feedback),
                    ),
                ),
            )
        } else {
            ApprovalView::Run
        },
        ApprovalOutcome::Rejected => ApprovalView::Answer(
            if is_plan {
                plain(rejection_text(added(decision.feedback)))
            } else {
                failed("用户拒绝了该操作;请改用工作区内的方案,或先询问用户。"@)
            },
        ),
        ApprovalOutcome::Cancelled => ApprovalView::Answer(
            failed("审批已被取消(用户退出或轮次被中断)。"@),
        ),
        ApprovalOutcome::Unavailable => ApprovalView::Answer(
            failed("该操作需要用户审批,但当前没有可用的审批通道。"@),
        ),
    }
}

/// Whether a decision approves a plan.
pub open spec fn approves_plan(is_plan: bool, decision: PlanReviewDecision) -> bool {
    is_plan && decision.outcome == ApprovalOutcome::AllowedOnce
}

/// What is logged of the user's decision.
pub open spec fn approval_events(
    request_id: Seq<char>,
    is_plan: bool,
    decision: PlanReviewDecision,
    mode: PermissionMode,
) -> Seq<EventView> {
    let decided = EventView::ApprovalDecided { request_id, outcome: decision.outcome };
    if approves_plan(is_plan, decision) && execute_mode(decision.execute_mode) != mode {
        seq![decided, EventView::Mode { mode: execute_mode(decision.execute_mode) }]
    } else {
        seq![decided]
    }
}

fn trimmed_feedback(feedback: &Option<String>) -> (text: Option<String>)
    ensures
        text::opt_view(text) == added(*feedback),
{
    match feedback {
        Some(feedback) => {
            let text = trim(feedback.as_str());
            if text.as_str().is_empty() {
                None
            } else {
                Some(text)
            }
        },
        None => None,
    }
}

/// What the model is told of an approved plan, and in which mode it is carried out.
fn apply_plan_approval(decision: &PlanReviewDecision) -> (approved: (PermissionMode, ToolOutput))
    ensures
        approved.0 == execute_mode(decision.execute_mode),
        approved.1@ == plain(
            approval_text(
                execute_mode(decision.execute_mode),
                decision.selection is Some,
                added(decision.feedback),
            ),
        ),
{
    let mode = match decision.execute_mode {
        Some(PermissionMode::Full) => PermissionMode::Full,
        _ => PermissionMode::AutoEdit,
    };
    let mut text = cat3("计划已批准,会话已切换至 ", mode.as_str(), " 模式,请开始执行。");
    if decision.selection.is_some() {
        text.append("执行模型已按用户选择切换。");
    }
    if let Some(feedback) = trimmed_feedback(&decision.feedback) {
        text.append("\n用户补充建议(执行时一并落实):\n");
        text.append(feedback.as_str());
    }
    (mode, ToolOutput::text(text.as_str()))
}

/// What follows from the user's decision on a call. An approved plan changes the session's mode, and
/// the model where the user chose another.
pub fn settle_approval(
    call: &ToolCallRef,
    request_id: &str,
    decision: &PlanReviewDecision,
    mode: PermissionMode,
    selection: &mut ModelSelection,
    vision_supported: &mut bool,
    events: &mut Vec<SessionEvent>,
) -> (next: ApprovalMove)
    ensures
        ({
            let is_plan = call.name@ == "exit_plan"@;
            let approves = approves_plan(is_plan, *decision);
            &&& next@ == approval_move(is_plan, *decision)
            &&& log::event_views(final(events)@) == log::event_views(old(events)@) + approval_events(
                request_id@,
                is_plan,
                *decision,
                mode,
            )
            &&& *final(selection) == (if approves && decision.selection is Some {
                decision.selection->0
            } else {
                *old(selection)
            })
            &&& *final(vision_supported) == (if approves && decision.vision_supported is Some {
                decision.vision_supported->0
            } else {
                *old(vision_supported)
            })
        }),
{
    let ghost before = log::event_views(events@);
    let is_plan = str_eq(call.name.as_str(), "exit_plan");
    note(
        events,
        SessionEvent::ApprovalDecided {
            request_id: request_id.to_owned(),
            outcome: decision.outcome,
        },
    );
    let next = match decision.outcome {
        ApprovalOutcome::AllowedOnce => {
            if is_plan {
                let (chosen, output) = apply_plan_approval(decision);
                if chosen != mode {
                    note(events, SessionEvent::PermissionMode { mode: chosen });
                }
                if let Some(other) = &decision.selection {
                    *selection = other.clone();
                }
                if let Some(vision) = decision.vision_supported {
                    *vision_supported = vision;
                }
                ApprovalMove::Answer(output)
            } else {
                ApprovalMove::Run
            }
        },
        ApprovalOutcome::Rejected => {
            if is_plan {
                let mut text = "用户拒绝了该计划。".to_owned();
                match trimmed_feedback(&decision.feedback) {
                    Some(feedback) => {
                        text.append("请按以下补充建议修订计划后重新提交:\n");
                        text.append(feedback.as_str());
                    },
                    None => {
                        text.append(
                            "请修订计划后重新提交;不确定用户的顾虑时,先用 ask 工具询问。",
                        );
                    },
                }
                ApprovalMove::Answer(ToolOutput::text(text.as_str()))
            } else {
                ApprovalMove::Answer(
                    ToolOutput::error("用户拒绝了该操作;请改用工作区内的方案,或先询问用户。"),
                )
            }
        },
        ApprovalOutcome::Cancelled => ApprovalMove::Answer(
            ToolOutput::error("审批已被取消(用户退出或轮次被中断)。"),
        ),
        ApprovalOutcome::Unavailable => ApprovalMove::Answer(
            ToolOutput::error("该操作需要用户审批,但当前没有可用的审批通道。"),
        ),
    };
    assert(log::event_views(events@) =~= before + approval_events(
        request_id@,
        is_plan,
        *decision,
        mode,
    ));
    next
}

/// A call runs only where the user allowed it, and a plan itself never runs.
pub proof fn call_runs_only_when_allowed(is_plan: bool, decision: PlanReviewDecision)
    ensures
        approval_move(is_plan, decision) is Run ==> decision.outcome == ApprovalOutcome::AllowedOnce
            && !is_plan,
{
}

/// An approved plan is carried out in a mode that lets it: neither the one that only reads nor the
/// one that plans.
pub proof fn approved_plan_can_be_carried_out(decision: PlanReviewDecision)
    ensures
        execute_mode(decision.execute_mode) != PermissionMode::ReadOnly,
        execute_mode(decision.execute_mode) != PermissionMode::Plan,
{
}

} // verus!
