//! Notices when the model gives the same output again and again.
//!
//! Two lines are watched: the text of an answer and its sequence of tool calls. The first three
//! equal outputs in a row pass, the third with a warning; the fourth ends the turn. An answer
//! without text, or without calls, leaves that line as it is.
use vstd::prelude::*;
use vstd::string::*;

use crate::history;
use crate::history::text_of_blocks;
use crate::json;
use crate::json::{parse, Json, JsonView};
use crate::stream::ContentBlock;
use crate::text;
use crate::text::{chars_of, str_eq, trim, whitespace};

verus! {

/// The equal output, in a row, that ends the turn.
pub const LOOP_THRESHOLD: u32 = 4;

/// The equal output, in a row, at which the model is warned.
pub const LOOP_WARN_THRESHOLD: u32 = 3;

/// What the model is told.
pub const LOOP_WARN_TEXT: &'static str =
    "检测到重复:你已连续多次输出相同的内容或发起相同的工具调用。\n不要原样重复同一次调用,除非用户明确要求重试。\n请用已有结果换一个下一步(改参数、换工具、缩小范围),或说明当前卡在哪里、需要用户提供什么。";

/// What is known of the latest outputs.
#[derive(Debug)]
pub struct LoopGuard {
    last_text: Option<String>,
    text_run: u32,
    last_tools: Option<String>,
    tools_run: u32,
}

/// One line: the latest output and how often it came in a row.
pub struct Line {
    pub last: Option<Seq<char>>,
    pub run: nat,
}

pub struct GuardView {
    pub text: Line,
    pub tools: Line,
}

impl View for LoopGuard {
    type V = GuardView;

    closed spec fn view(&self) -> GuardView {
        GuardView {
            text: Line { last: text::opt_view(self.last_text), run: self.text_run as nat },
            tools: Line { last: text::opt_view(self.last_tools), run: self.tools_run as nat },
        }
    }
}

/// What follows from an answer.
#[derive(Debug, Clone, Copy, PartialEq, Eq, Structural)]
pub enum LoopVerdict {
    Continue,
    /// The model is warned and goes on.
    Warn { repeats: u32 },
    /// The turn ends.
    Block { repeats: u32 },
}

/// A line after one more output.
pub open spec fn line_after(line: Line, output: Seq<char>) -> Line {
    if output.len() == 0 {
        line
    } else if line.last == Some(output) {
        Line { run: line.run + 1, ..line }
    } else {
        Line { last: Some(output), run: 1 }
    }
}

/// The run of a line, if the output counts in it and its run is in a range.
pub open spec fn run_within(line: Line, output: Seq<char>, from: nat, to: nat) -> nat {
    if output.len() > 0 && from <= line.run <= to {
        line.run
    } else {
        0
    }
}

pub open spec fn larger(a: nat, b: nat) -> nat {
    if a >= b {
        a
    } else {
        b
    }
}

/// The text of an answer, white space around it aside.
pub open spec fn answer_text(blocks: Seq<ContentBlock>) -> Seq<char> {
    text::trimmed(history::blocks_text(blocks))
}

/// A text without its white space.
pub open spec fn without_spaces(text: Seq<char>) -> Seq<char>
    decreases text.len(),
{
    if text.len() == 0 {
        Seq::empty()
    } else if text::is_space(text.last()) {
        without_spaces(text.drop_last())
    } else {
        without_spaces(text.drop_last()).push(text.last())
    }
}

/// Arguments in a form that is the same for equal arguments: JSON with its keys in order, or, for
/// a text that is no JSON, the text without white space.
pub open spec fn normal_form(arguments: Seq<char>, value: Option<JsonView>) -> Seq<char> {
    match value {
        Some(value) => json::compact(value),
        None => without_spaces(arguments),
    }
}

/// The normal form of a call's arguments.
pub open spec fn normal_arguments(arguments: Seq<char>) -> Seq<char> {
    normal_form(text::trimmed(arguments), json::parsed(text::trimmed(arguments)))
}

/// The tool calls of an answer as one text.
pub open spec fn call_signature(blocks: Seq<ContentBlock>) -> Seq<char>
    decreases blocks.len(),
{
    if blocks.len() == 0 {
        Seq::empty()
    } else {
        let rest = call_signature(blocks.drop_last());
        match blocks.last() {
            ContentBlock::ToolCall { name, arguments, .. } => rest + name@ + "("@
                + normal_arguments(arguments@) + ");"@,
            _ => rest,
        }
    }
}

/// The state after an answer.
pub open spec fn guard_after(guard: GuardView, output: Seq<char>, calls: Seq<char>) -> GuardView {
    GuardView {
        text: line_after(guard.text, output),
        tools: line_after(guard.tools, calls),
    }
}

/// What follows from an answer, given the state after it.
pub open spec fn verdict_of(after: GuardView, output: Seq<char>, calls: Seq<char>) -> LoopVerdict {
    let block = larger(
        run_within(after.text, output, LOOP_THRESHOLD as nat, u32::MAX as nat),
        run_within(after.tools, calls, LOOP_THRESHOLD as nat, u32::MAX as nat),
    );
    let warn = larger(
        run_within(after.text, output, LOOP_WARN_THRESHOLD as nat, LOOP_WARN_THRESHOLD as nat),
        run_within(after.tools, calls, LOOP_WARN_THRESHOLD as nat, LOOP_WARN_THRESHOLD as nat),
    );
    if block > 0 {
        LoopVerdict::Block { repeats: block as u32 }
    } else if warn > 0 {
        LoopVerdict::Warn { repeats: warn as u32 }
    } else {
        LoopVerdict::Continue
    }
}

/// The longer of the two runs.
pub open spec fn longest_run(guard: GuardView) -> nat {
    larger(guard.text.run, guard.tools.run)
}

/// A state that knows of no output.
pub open spec fn fresh() -> GuardView {
    GuardView { text: Line { last: None, run: 0 }, tools: Line { last: None, run: 0 } }
}

/// Takes out the white space.
pub fn strip_spaces(text: &str) -> (stripped: String)
    ensures
        stripped@ == without_spaces(text@),
{
    let chars = chars_of(text);
    let mut stripped = String::new();
    let mut i: usize = 0;
    while i < chars.len()
        invariant
            i <= chars@.len(),
            stripped@ == without_spaces(chars@.take(i as int)),
        decreases chars@.len() - i,
    {
        assert(chars@.take(i + 1).drop_last() =~= chars@.take(i as int));
        if !whitespace(chars[i]) {
            stripped.push(chars[i]);
        }
        i += 1;
    }
    assert(chars@.take(chars@.len() as int) =~= chars@);
    stripped
}

/// The normal form of arguments that were read as `value`.
pub fn normalized_as(arguments: &str, value: &Option<Json>) -> (normal: String)
    ensures
        normal@ == normal_form(
            arguments@,
            match *value {
                Some(value) => Some(value@),
                None => None,
            },
        ),
{
    match value {
        Some(value) => value.to_text(),
        None => strip_spaces(arguments),
    }
}

/// The normal form of a call's arguments.
pub fn normalize_arguments(arguments: &str) -> (normal: String)
    ensures
        normal@ == normal_arguments(arguments@),
{
    let arguments = trim(arguments);
    let value = parse(arguments.as_str());
    normalized_as(arguments.as_str(), &value)
}

/// The tool calls of an answer as one text; empty without calls.
pub fn tool_signature(blocks: &Vec<ContentBlock>) -> (signature: String)
    ensures
        signature@ == call_signature(blocks@),
{
    let mut signature = String::new();
    let mut i: usize = 0;
    while i < blocks.len()
        invariant
            i <= blocks@.len(),
            signature@ == call_signature(blocks@.take(i as int)),
        decreases blocks@.len() - i,
    {
        assert(blocks@.take(i + 1).drop_last() =~= blocks@.take(i as int));
        if let ContentBlock::ToolCall { name, arguments, .. } = &blocks[i] {
            signature.append(name.as_str());
            signature.append("(");
            signature.append(normalize_arguments(arguments.as_str()).as_str());
            signature.append(");");
        }
        i += 1;
    }
    assert(blocks@.take(blocks@.len() as int) =~= blocks@);
    signature
}

/// The text of an answer, white space around it aside.
pub fn normalized_text(blocks: &Vec<ContentBlock>) -> (output: String)
    ensures
        output@ == answer_text(blocks@),
{
    trim(text_of_blocks(blocks).as_str())
}

fn same_output(last: &Option<String>, output: &str) -> (same: bool)
    ensures
        same == (text::opt_view(*last) == Some(output@)),
{
    match last {
        Some(last) => str_eq(last.as_str(), output),
        None => false,
    }
}

impl Default for LoopGuard {
    fn default() -> (guard: Self)
        ensures
            guard@ == fresh(),
    {
        LoopGuard::new()
    }
}

impl LoopGuard {
    /// A guard that has seen nothing.
    pub fn new() -> (guard: Self)
        ensures
            guard@ == fresh(),
    {
        LoopGuard { last_text: None, text_run: 0, last_tools: None, tools_run: 0 }
    }

    /// Forgets what was seen.
    pub fn reset(&mut self)
        ensures
            final(self)@ == fresh(),
    {
        *self = LoopGuard::new();
    }

    /// Takes in an answer whose text and calls are given.
    pub fn observe_output(&mut self, output: String, calls: String) -> (verdict: LoopVerdict)
        requires
            longest_run(old(self)@) < u32::MAX,
        ensures
            final(self)@ == guard_after(old(self)@, output@, calls@),
            verdict == verdict_of(final(self)@, output@, calls@),
            longest_run(final(self)@) <= longest_run(old(self)@) + 1,
    {
        let ghost (said, made) = (output@, calls@);
        let mut warn: u32 = 0;
        let mut block: u32 = 0;
        if !output.as_str().is_empty() {
            if same_output(&self.last_text, output.as_str()) {
                self.text_run = self.text_run + 1;
            } else {
                self.last_text = Some(output);
                self.text_run = 1;
            }
            if self.text_run == LOOP_WARN_THRESHOLD {
                warn = self.text_run;
            }
            if self.text_run >= LOOP_THRESHOLD {
                block = self.text_run;
            }
        }
        if !calls.as_str().is_empty() {
            if same_output(&self.last_tools, calls.as_str()) {
                self.tools_run = self.tools_run + 1;
            } else {
                self.last_tools = Some(calls);
                self.tools_run = 1;
            }
            if self.tools_run == LOOP_WARN_THRESHOLD && self.tools_run > warn {
                warn = self.tools_run;
            }
            if self.tools_run >= LOOP_THRESHOLD && self.tools_run > block {
                block = self.tools_run;
            }
        }
        if block > 0 {
            LoopVerdict::Block { repeats: block }
        } else if warn > 0 {
            LoopVerdict::Warn { repeats: warn }
        } else {
            LoopVerdict::Continue
        }
    }

    /// Takes in an answer.
    pub fn observe(&mut self, blocks: &Vec<ContentBlock>) -> (verdict: LoopVerdict)
        requires
            longest_run(old(self)@) < u32::MAX,
        ensures
            final(self)@ == guard_after(old(self)@, answer_text(blocks@), call_signature(blocks@)),
            verdict == verdict_of(final(self)@, answer_text(blocks@), call_signature(blocks@)),
            longest_run(final(self)@) <= longest_run(old(self)@) + 1,
    {
        let output = normalized_text(blocks);
        let calls = tool_signature(blocks);
        self.observe_output(output, calls)
    }
}

/// The state after the same answer came `times` times to a guard that had seen nothing.
pub open spec fn guard_repeated(output: Seq<char>, calls: Seq<char>, times: nat) -> GuardView
    decreases times,
{
    if times == 0 {
        fresh()
    } else {
        guard_after(guard_repeated(output, calls, (times - 1) as nat), output, calls)
    }
}

proof fn lemma_repeated(output: Seq<char>, calls: Seq<char>, times: nat)
    ensures
        guard_repeated(output, calls, times) == (GuardView {
            text: if output.len() > 0 && times > 0 {
                Line { last: Some(output), run: times }
            } else {
                Line { last: None, run: 0 }
            },
            tools: if calls.len() > 0 && times > 0 {
                Line { last: Some(calls), run: times }
            } else {
                Line { last: None, run: 0 }
            },
        }),
    decreases times,
{
    if times > 0 {
        lemma_repeated(output, calls, (times - 1) as nat);
    }
}

/// The same answer passes twice, brings a warning the third time, and ends the turn from the
/// fourth time on.
pub proof fn equal_answers_warn_then_block(output: Seq<char>, calls: Seq<char>, times: nat)
    requires
        0 < times <= u32::MAX,
        output.len() > 0 || calls.len() > 0,
    ensures
        verdict_of(guard_repeated(output, calls, times), output, calls) == (if times
            < LOOP_WARN_THRESHOLD {
            LoopVerdict::Continue
        } else if times < LOOP_THRESHOLD {
            LoopVerdict::Warn { repeats: times as u32 }
        } else {
            LoopVerdict::Block { repeats: times as u32 }
        }),
{
    lemma_repeated(output, calls, times);
}

/// Arguments that are read as the same value have the same normal form, however their keys are
/// ordered and their text is spaced.
pub proof fn equal_arguments_have_one_form(a: Seq<char>, b: Seq<char>)
    requires
        json::parsed(text::trimmed(a)) is Some,
        json::parsed(text::trimmed(a)) == json::parsed(text::trimmed(b)),
    ensures
        normal_arguments(a) == normal_arguments(b),
{
}

/// An answer that differs in text and in calls from the one before it never ends a turn.
pub proof fn different_answer_continues(guard: GuardView, output: Seq<char>, calls: Seq<char>)
    requires
        output.len() > 0 ==> guard.text.last != Some(output),
        calls.len() > 0 ==> guard.tools.last != Some(calls),
    ensures
        verdict_of(guard_after(guard, output, calls), output, calls) == LoopVerdict::Continue,
{
}

/// An empty answer changes nothing and brings nothing.
pub proof fn empty_answer_changes_nothing(guard: GuardView)
    ensures
        guard_after(guard, Seq::empty(), Seq::empty()) == guard,
        verdict_of(guard, Seq::empty(), Seq::empty()) == LoopVerdict::Continue,
{
}

} // verus!
