//! What holds of every call: what it counts as, who may make it, and what follows from the user's
//! word on it.
use vstd::prelude::*;
use vstd::string::*;

use crate::agent::exec;
use crate::agent::exec::{ActionClass, ApprovalView, DecisionView, PathFacts};
use crate::agent::log::EventView;
use crate::session::{ApprovalOutcome, PermissionMode, PlanReviewDecision};
use crate::text;
use crate::text_laws;

verus! {

/// A tool that writes a file.
pub open spec fn writes_files(name: Seq<char>) -> bool {
    name == "write_file"@ || name == "edit"@
}

/// A tool that runs a command.
pub open spec fn runs_commands(name: Seq<char>) -> bool {
    name == "bash"@ || name == "job_start"@
}

proof fn lemma_names()
    ensures
        "exit_plan"@ != "write_file"@,
        "exit_plan"@ != "edit"@,
        "exit_plan"@ != "bash"@,
        "exit_plan"@ != "job_start"@,
        "write_file"@ != "bash"@,
        "write_file"@ != "job_start"@,
        "edit"@ != "bash"@,
        "edit"@ != "job_start"@,
{
    reveal_strlit("exit_plan");
    reveal_strlit("write_file");
    reveal_strlit("edit");
    reveal_strlit("bash");
    reveal_strlit("job_start");
    assert("exit_plan"@[0] == 'e' && "exit_plan"@[1] == 'x');
    assert("edit"@[1] == 'd');
    assert("write_file"@[0] == 'w');
    assert("bash"@[0] == 'b');
    assert("job_start"@[0] == 'j');
}

/// A call counts as what it can do: a note where it writes a Markdown file in the memory, a write
/// inside or outside the workspace by where the file lies, a command that may write, a plan; and all
/// else only reads.
pub proof fn calls_count_as_what_they_do(
    name: Seq<char>,
    path: PathFacts,
    confined: bool,
    may_write: bool,
)
    ensures
        writes_files(name) && path.in_memory && path.is_markdown ==> exec::class_of(
            name,
            Some(path),
            confined,
            may_write,
        ) == ActionClass::MemoryWrite,
        writes_files(name) && !(path.in_memory && path.is_markdown) && (path.in_workspace || confined)
            ==> exec::class_of(name, Some(path), confined, may_write) == ActionClass::WriteInside,
        writes_files(name) && !(path.in_memory && path.is_markdown) && !path.in_workspace
            && !confined ==> exec::class_of(name, Some(path), confined, may_write)
            == ActionClass::WriteOutside,
        writes_files(name) ==> exec::class_of(name, None, confined, may_write)
            == ActionClass::WriteInside,
        forall|known: Option<PathFacts>|
            {
                let class = #[trigger] exec::class_of(name, known, confined, may_write);
                &&& (class == ActionClass::BashWrite) == (runs_commands(name) && may_write)
                &&& (class == ActionClass::PlanSubmit) == (name == "exit_plan"@)
                &&& (class == ActionClass::Read) == (!writes_files(name) && name != "exit_plan"@ && !(
                runs_commands(name) && may_write))
            },
{
    lemma_names();
}

/// What the permission rules say of a call stands, but for two cases: a subagent that writes
/// anything but a note, and a note at a sensitive path, are refused.
pub proof fn only_two_cases_overrule_the_rules(
    class: ActionClass,
    name: Seq<char>,
    is_subagent: bool,
    sensitive: Option<Seq<char>>,
    decided: DecisionView,
)
    ensures
        class == ActionClass::MemoryWrite && sensitive is None ==> exec::gated(
            class,
            name,
            is_subagent,
            sensitive,
            decided,
        ) == decided,
        class == ActionClass::MemoryWrite && sensitive is Some ==> exec::gated(
            class,
            name,
            is_subagent,
            sensitive,
            decided,
        ) is Deny,
        class != ActionClass::MemoryWrite && !(is_subagent && writes_files(name)) ==> exec::gated(
            class,
            name,
            is_subagent,
            sensitive,
            decided,
        ) == decided,
        class != ActionClass::MemoryWrite && is_subagent && writes_files(name) ==> exec::gated(
            class,
            name,
            is_subagent,
            sensitive,
            decided,
        ) is Deny,
{
}

/// A call is refused outright if and only if a subagent is not allowed its tool, or there is no such
/// tool; the refusal is a failure.
pub proof fn known_and_allowed_tools_are_called(
    allowed: Option<Seq<Seq<char>>>,
    known: bool,
    name: Seq<char>,
)
    ensures
        (exec::refusal(allowed, known, name) is None) == (known && match allowed {
            Some(names) => exists|i: int| 0 <= i < names.len() && #[trigger] names[i] == name,
            None => true,
        }),
        exec::refusal(allowed, known, name) matches Some(output) ==> output.is_error,
{
}

/// What a tool says is the answer, unless the call was cancelled or there is no such tool: then the
/// answer is a failure.
pub proof fn tool_answers_its_call(cancelled: bool, known: bool, output: Option<exec::OutputView>)
    ensures
        !cancelled && known && output is Some ==> exec::run_answer(cancelled, known, output)
            == output->0,
        cancelled || !known || output is None ==> exec::run_answer(cancelled, known, output).is_error,
{
}

/// The user is asked about a call if and only if it was not cancelled, there is somebody to ask, and
/// a plan can be read.
pub proof fn user_is_asked_where_they_can_be(
    is_plan: bool,
    cancelled: bool,
    plan_error: Option<Seq<char>>,
    has_channel: bool,
)
    ensures
        (exec::unasked(is_plan, cancelled, plan_error, has_channel) is None) == (!cancelled
            && has_channel && !(is_plan && plan_error is Some)),
        !cancelled && is_plan ==> (plan_error matches Some(why) ==> (exec::unasked(
            is_plan,
            cancelled,
            plan_error,
            has_channel,
        ) matches Some(told) && why.is_suffix_of(told))),
{
    if let Some(why) = plan_error {
        let told = "计划提交参数无效:"@ + why;
        assert(told.subrange(told.len() - why.len(), told.len() as int) =~= why);
    }
}

/// What the user decided is done: what they allowed runs, a plan that they allowed is carried out,
/// and anything else is answered. Only what failed is told as a failure; a plan that was sent back
/// is not.
pub proof fn users_word_counts(is_plan: bool, decision: PlanReviewDecision)
    ensures
        match decision.outcome {
            ApprovalOutcome::AllowedOnce => if is_plan {
                exec::approval_move(is_plan, decision) matches ApprovalView::Answer(output)
                    && !output.is_error
            } else {
                exec::approval_move(is_plan, decision) is Run
            },
            ApprovalOutcome::Rejected => exec::approval_move(is_plan, decision) matches ApprovalView::Answer(
                output,
            ) && output.is_error == !is_plan,
            _ => exec::approval_move(is_plan, decision) matches ApprovalView::Answer(output)
                && output.is_error,
        },
        decision.execute_mode == Some(PermissionMode::Full) ==> exec::execute_mode(
            decision.execute_mode,
        ) == PermissionMode::Full,
        decision.execute_mode != Some(PermissionMode::Full) ==> exec::execute_mode(
            decision.execute_mode,
        ) == PermissionMode::AutoEdit,
{
}

/// What the user adds to a plan reaches the model, whether they accept it or send it back.
pub proof fn users_advice_reaches_the_model(decision: PlanReviewDecision, advice: String)
    requires
        decision.feedback == Some(advice),
        exists|i: int| 0 <= i < advice@.len() && !text::is_space(#[trigger] advice@[i]),
        decision.outcome == ApprovalOutcome::AllowedOnce || decision.outcome
            == ApprovalOutcome::Rejected,
    ensures
        exec::approval_move(true, decision) matches ApprovalView::Answer(output) && text::trimmed(
            advice@,
        ).is_suffix_of(output.content),
{
    text_laws::blank_text_is_white_space(advice@);
    let words = text::trimmed(advice@);
    if let ApprovalView::Answer(output) = exec::approval_move(true, decision) {
        let told = output.content;
        assert(told.subrange(told.len() - words.len(), told.len() as int) =~= words);
    }
}

/// The user's word is always logged, first of all; the mode is logged behind it where a plan that
/// they accept changes it, and only there.
pub proof fn users_word_is_logged(
    request_id: Seq<char>,
    is_plan: bool,
    decision: PlanReviewDecision,
    mode: PermissionMode,
)
    ensures
        ({
            let events = exec::approval_events(request_id, is_plan, decision, mode);
            let next = exec::execute_mode(decision.execute_mode);
            let changes = is_plan && decision.outcome == ApprovalOutcome::AllowedOnce && next != mode;
            &&& events.len() == (if changes {
                2nat
            } else {
                1
            })
            &&& events[0] == (EventView::ApprovalDecided { request_id, outcome: decision.outcome })
            &&& changes ==> events[1] == (EventView::Mode { mode: next })
        }),
{
}

/// A file was touched if a tool that reads or writes one came to a good end and named it.
pub proof fn good_end_touches_a_file(name: Seq<char>, arguments: Seq<char>)
    ensures
        !exec::touches(name, arguments, true),
        exec::touches(name, arguments, false) == ((name == "read_file"@ || writes_files(name))
            && exec::named_path(arguments) is Some),
{
}

} // verus!
