//! What holds of a guard over any course of answers.
use vstd::prelude::*;
use vstd::string::*;

use crate::agent::loop_guard;
use crate::agent::loop_guard::{GuardView, Line, LoopVerdict};
use crate::history;
use crate::json;
use crate::stream::ContentBlock;
use crate::text;
use crate::text_laws;

verus! {

/// The last output that says something.
pub open spec fn last_said(outputs: Seq<Seq<char>>) -> Option<Seq<char>>
    decreases outputs.len(),
{
    if outputs.len() == 0 {
        None
    } else if outputs.last().len() > 0 {
        Some(outputs.last())
    } else {
        last_said(outputs.drop_last())
    }
}

/// How often `output` came in a row at the end, empty outputs aside.
pub open spec fn times_in_a_row(outputs: Seq<Seq<char>>, output: Seq<char>) -> nat
    decreases outputs.len(),
{
    if outputs.len() == 0 {
        0
    } else if outputs.last().len() == 0 {
        times_in_a_row(outputs.drop_last(), output)
    } else if outputs.last() == output {
        times_in_a_row(outputs.drop_last(), output) + 1
    } else {
        0
    }
}

/// A line after a course of outputs.
pub open spec fn line_over(outputs: Seq<Seq<char>>) -> Line
    decreases outputs.len(),
{
    if outputs.len() == 0 {
        loop_guard::fresh().text
    } else {
        loop_guard::line_after(line_over(outputs.drop_last()), outputs.last())
    }
}

/// A guard after a course of answers: the texts, and the calls.
pub open spec fn guard_over(texts: Seq<Seq<char>>, calls: Seq<Seq<char>>) -> GuardView
    decreases texts.len(),
{
    if texts.len() == 0 || calls.len() == 0 {
        loop_guard::fresh()
    } else {
        loop_guard::guard_after(
            guard_over(texts.drop_last(), calls.drop_last()),
            texts.last(),
            calls.last(),
        )
    }
}

proof fn lemma_line(outputs: Seq<Seq<char>>)
    ensures
        line_over(outputs).last == last_said(outputs),
        line_over(outputs).run == (match last_said(outputs) {
            Some(output) => times_in_a_row(outputs, output),
            None => 0,
        }),
    decreases outputs.len(),
{
    if outputs.len() > 0 {
        let rest = outputs.drop_last();
        lemma_line(rest);
        if outputs.last().len() > 0 && last_said(rest) != Some(outputs.last()) {
            lemma_new(rest, outputs.last());
        }
    }
}

proof fn lemma_new(outputs: Seq<Seq<char>>, output: Seq<char>)
    requires
        last_said(outputs) != Some(output),
        output.len() > 0,
    ensures
        times_in_a_row(outputs, output) == 0,
    decreases outputs.len(),
{
    if outputs.len() > 0 && outputs.last().len() == 0 {
        lemma_new(outputs.drop_last(), output);
    }
}

proof fn lemma_guard(texts: Seq<Seq<char>>, calls: Seq<Seq<char>>)
    requires
        texts.len() == calls.len(),
    ensures
        guard_over(texts, calls) == (GuardView { text: line_over(texts), tools: line_over(calls) }),
    decreases texts.len(),
{
    if texts.len() > 0 {
        lemma_guard(texts.drop_last(), calls.drop_last());
    }
}

/// How often the last output came in a row; none where it is empty.
pub open spec fn repeats(outputs: Seq<Seq<char>>) -> nat {
    if outputs.last().len() == 0 {
        0
    } else {
        times_in_a_row(outputs, outputs.last())
    }
}

/// After any course of answers, the fourth equal text in a row or the fourth equal calls in a row
/// end the turn, and so does each further one; the third brings a warning, and anything less brings
/// nothing. Answers without text do not count for the texts, nor those without calls for the calls.
pub proof fn repeats_decide(texts: Seq<Seq<char>>, calls: Seq<Seq<char>>)
    requires
        texts.len() == calls.len(),
        0 < texts.len() <= u32::MAX,
    ensures
        ({
            let verdict = loop_guard::verdict_of(
                guard_over(texts, calls),
                texts.last(),
                calls.last(),
            );
            let (a, b) = (repeats(texts), repeats(calls));
            &&& a >= 4 || b >= 4 ==> verdict == (LoopVerdict::Block {
                repeats: (if a >= b {
                    a
                } else {
                    b
                }) as u32,
            })
            &&& a < 4 && b < 4 && (a == 3 || b == 3) ==> verdict == LoopVerdict::Warn { repeats: 3 }
            &&& a < 3 && b < 3 ==> verdict == LoopVerdict::Continue
        }),
{
    lemma_guard(texts, calls);
    lemma_line(texts);
    lemma_line(calls);
    lemma_bound(texts, texts.last());
    lemma_bound(calls, calls.last());
}

proof fn lemma_bound(outputs: Seq<Seq<char>>, output: Seq<char>)
    ensures
        times_in_a_row(outputs, output) <= outputs.len(),
    decreases outputs.len(),
{
    if outputs.len() > 0 {
        lemma_bound(outputs.drop_last(), output);
    }
}

/// Texts that differ only in the white space around them count as equal.
pub proof fn space_around_an_answer_is_ignored(
    a: Seq<ContentBlock>,
    b: Seq<ContentBlock>,
    from: int,
    to: int,
    first: int,
    end: int,
)
    requires
        ({
            let (x, y) = (history::blocks_text(a), history::blocks_text(b));
            &&& is_inner(x, from, to)
            &&& is_inner(y, first, end)
            &&& x.subrange(from, to) == y.subrange(first, end)
        }),
    ensures
        loop_guard::answer_text(a) == loop_guard::answer_text(b),
        loop_guard::answer_text(a) == history::blocks_text(a).subrange(from, to),
{
    lemma_inner(history::blocks_text(a), from, to);
    lemma_inner(history::blocks_text(b), first, end);
}

/// What stands between two places of a text is all of it but the white space around.
pub open spec fn is_inner(text: Seq<char>, from: int, to: int) -> bool {
    &&& 0 <= from <= to <= text.len()
    &&& forall|i: int| 0 <= i < from ==> text::is_space(#[trigger] text[i])
    &&& forall|i: int| to <= i < text.len() ==> text::is_space(#[trigger] text[i])
    &&& from < to ==> !text::is_space(text[from]) && !text::is_space(text[to - 1])
}

proof fn lemma_inner(text: Seq<char>, from: int, to: int)
    requires
        is_inner(text, from, to),
    ensures
        text::trimmed(text) == text.subrange(from, to),
{
    let (a, b) = text_laws::trimming_takes_the_space_around(text);
    if from < to {
        if a < from {
            assert(text::is_space(text[a]));
        }
        if b > to {
            assert(text::is_space(text[b - 1]));
        }
        assert(a == from && b == to);
    } else {
        if a < b {
            if a < from {
                assert(text::is_space(text[a]));
            } else {
                assert(text::is_space(text[a]));
            }
        }
        assert(text.subrange(a, b) =~= text.subrange(from, to));
    }
}

/// The calls of an answer are told apart by their names and their arguments in normal form, in
/// order; texts and ids play no part.
pub proof fn signature_is_the_calls(a: Seq<ContentBlock>, b: Seq<ContentBlock>, block: ContentBlock)
    ensures
        loop_guard::call_signature(a + b) == loop_guard::call_signature(a)
            + loop_guard::call_signature(b),
        loop_guard::call_signature(seq![block]) == (match block {
            ContentBlock::ToolCall { name, arguments, .. } => name@ + "("@ + (match json::parsed(
                text::trimmed(arguments@),
            ) {
                Some(value) => json::compact(value),
                None => loop_guard::without_spaces(text::trimmed(arguments@)),
            }) + ");"@,
            _ => Seq::<char>::empty(),
        }),
    decreases b.len(),
{
    if b.len() == 0 {
        assert(a + b =~= a);
        assert(loop_guard::call_signature(a) + loop_guard::call_signature(b)
            =~= loop_guard::call_signature(a));
    } else {
        signature_is_the_calls(a, b.drop_last(), block);
        assert((a + b).drop_last() =~= a + b.drop_last());
        assert(loop_guard::call_signature(a + b) =~= loop_guard::call_signature(a)
            + loop_guard::call_signature(b));
    }
    assert(seq![block].drop_last() =~= Seq::empty());
    assert(loop_guard::call_signature(Seq::<ContentBlock>::empty()) == Seq::<char>::empty());
    if let ContentBlock::ToolCall { name, .. } = block {
        assert(Seq::<char>::empty() + name@ =~= name@);
    }
}

/// A text that is no JSON counts without its white space, and with all else.
pub proof fn only_space_is_left_out(a: Seq<char>, b: Seq<char>, c: char)
    ensures
        loop_guard::without_spaces(a + b) == loop_guard::without_spaces(a)
            + loop_guard::without_spaces(b),
        loop_guard::without_spaces(seq![c]) == (if text::is_space(c) {
            Seq::<char>::empty()
        } else {
            seq![c]
        }),
    decreases b.len(),
{
    if b.len() == 0 {
        assert(a + b =~= a);
        assert(loop_guard::without_spaces(a) + loop_guard::without_spaces(b)
            =~= loop_guard::without_spaces(a));
    } else {
        only_space_is_left_out(a, b.drop_last(), c);
        assert((a + b).drop_last() =~= a + b.drop_last());
        assert(loop_guard::without_spaces(a + b) =~= loop_guard::without_spaces(a)
            + loop_guard::without_spaces(b));
    }
    assert(seq![c].drop_last() =~= Seq::empty());
    assert(loop_guard::without_spaces(Seq::<char>::empty()) == Seq::<char>::empty());
    assert(loop_guard::without_spaces(seq![c]) =~= (if text::is_space(c) {
        Seq::<char>::empty()
    } else {
        seq![c]
    }));
}

} // verus!
