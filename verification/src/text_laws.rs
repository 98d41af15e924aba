//! What holds of the operations on texts.
use vstd::prelude::*;
use vstd::string::*;

use crate::text;

verus! {

/// To trim a text takes white space off its ends, all of it, and nothing else.
pub proof fn trimming_takes_the_space_around(text: Seq<char>) -> (ends: (int, int))
    ensures
        0 <= ends.0 <= ends.1 <= text.len(),
        text::trimmed(text) == text.subrange(ends.0, ends.1),
        forall|i: int| 0 <= i < ends.0 ==> text::is_space(#[trigger] text[i]),
        forall|i: int| ends.1 <= i < text.len() ==> text::is_space(#[trigger] text[i]),
        ends.0 < ends.1 ==> !text::is_space(text[ends.0]) && !text::is_space(text[ends.1 - 1]),
{
    let from = lemma_front(text);
    let rest = text.skip(from);
    let to = lemma_back(rest);
    assert(rest.take(to) =~= text.subrange(from, from + to));
    assert forall|i: int| from + to <= i < text.len() implies text::is_space(
        #[trigger] text[i],
    ) by {
        assert(text[i] == rest[i - from]);
    }
    if to > 0 {
        assert(rest[0] == text[from]);
        assert(rest[to - 1] == text[from + to - 1]);
    }
    (from, from + to)
}

proof fn lemma_front(text: Seq<char>) -> (from: int)
    ensures
        0 <= from <= text.len(),
        text::trim_front(text) == text.skip(from),
        forall|i: int| 0 <= i < from ==> text::is_space(#[trigger] text[i]),
        from < text.len() ==> !text::is_space(text[from]),
    decreases text.len(),
{
    if text.len() > 0 && text::is_space(text[0]) {
        let rest = text.skip(1);
        let from = lemma_front(rest);
        assert(rest.skip(from) =~= text.skip(from + 1));
        assert forall|i: int| 0 <= i < from + 1 implies text::is_space(#[trigger] text[i]) by {
            if i > 0 {
                assert(text[i] == rest[i - 1]);
            }
        }
        from + 1
    } else {
        assert(text.skip(0) =~= text);
        0
    }
}

proof fn lemma_back(text: Seq<char>) -> (to: int)
    ensures
        0 <= to <= text.len(),
        text::trim_back(text) == text.take(to),
        forall|i: int| to <= i < text.len() ==> text::is_space(#[trigger] text[i]),
        to > 0 ==> !text::is_space(text[to - 1]),
    decreases text.len(),
{
    if text.len() > 0 && text::is_space(text.last()) {
        let rest = text.drop_last();
        let to = lemma_back(rest);
        assert(rest.take(to) =~= text.take(to));
        assert forall|i: int| to <= i < text.len() implies text::is_space(#[trigger] text[i]) by {
            if i < rest.len() {
                assert(text[i] == rest[i]);
            }
        }
        to
    } else {
        assert(text.take(text.len() as int) =~= text);
        text.len() as int
    }
}

/// A text is blank where nothing but white space stands in it.
pub proof fn blank_text_is_white_space(text: Seq<char>)
    ensures
        text::is_blank(text) == forall|i: int|
            0 <= i < text.len() ==> text::is_space(#[trigger] text[i]),
{
    let (from, to) = trimming_takes_the_space_around(text);
    assert(text::trimmed(text).len() == to - from);
}

/// A line ends at a line feed, and a text that is left over is the last line. A carriage return
/// before the line feed belongs to the line's end.
pub proof fn lines_end_at_line_feeds(line: Seq<char>, rest: Seq<char>)
    requires
        !line.contains('\n'),
    ensures
        text::lines(line) == (if line.len() == 0 {
            Seq::<Seq<char>>::empty()
        } else {
            seq![line]
        }),
        text::lines(line + seq!['\n'] + rest) == seq![text::without_return(line)] + text::lines(
            rest,
        ),
        text::without_return(line.push('\r')) == line,
        !(line.len() > 0 && line.last() == '\r') ==> text::without_return(line) == line,
{
    text::lemma_char_from(line, '\n', 0);
    if let Some(at) = text::char_from(line, '\n', 0) {
        assert(line.contains(line[at]));
    }
    assert(line.skip(0) =~= line);
    let whole = line + seq!['\n'] + rest;
    text::lemma_char_from(whole, '\n', 0);
    assert(whole[line.len() as int] == '\n');
    let at = text::char_from(whole, '\n', 0)->0;
    if at < line.len() {
        assert(whole[at] == line[at]);
        assert(line.contains(line[at]));
    }
    assert(whole.subrange(0, at) =~= line);
    lemma_lines_skip(whole, at + 1);
    assert(whole.skip(at + 1) =~= rest);
    assert(line.push('\r').drop_last() =~= line);
}

proof fn lemma_lines_skip(text: Seq<char>, from: int)
    requires
        0 <= from <= text.len(),
    ensures
        text::lines_from(text, from) == text::lines(text.skip(from)),
{
    lemma_lines_shift(text, from, 0);
}

proof fn lemma_lines_shift(text: Seq<char>, by: int, from: int)
    requires
        0 <= by,
        0 <= from,
        by + from <= text.len(),
    ensures
        text::lines_from(text, by + from) == text::lines_from(text.skip(by), from),
    decreases text.len() - from,
{
    let rest = text.skip(by);
    if from < rest.len() {
        text::lemma_char_from(text, '\n', by + from);
        text::lemma_char_from(rest, '\n', from);
        match text::char_from(text, '\n', by + from) {
            Some(at) => {
                assert(rest[at - by] == '\n');
                let other = text::char_from(rest, '\n', from)->0;
                assert(text[by + other] == '\n');
                assert(other == at - by);
                assert(text.subrange(by + from, at) =~= rest.subrange(from, at - by));
                lemma_lines_shift(text, by, at - by + 1);
            },
            None => {
                if let Some(other) = text::char_from(rest, '\n', from) {
                    assert(text[by + other] == '\n');
                }
                assert(text.skip(by + from) =~= rest.skip(from));
            },
        }
    }
}

/// A text that is joined of others holds them in order, with the separator between neighbours.
pub proof fn joined_texts_follow_each_other(
    a: Seq<Seq<char>>,
    b: Seq<Seq<char>>,
    separator: Seq<char>,
)
    requires
        a.len() > 0,
        b.len() > 0,
    ensures
        text::joined(a + b, separator) == text::joined(a, separator) + separator + text::joined(
            b,
            separator,
        ),
        a.len() == 1 ==> text::joined(a, separator) == a[0],
    decreases b.len(),
{
    if b.len() == 1 {
        assert((a + b).drop_last() =~= a);
        assert((a + b).last() == b[0]);
    } else {
        joined_texts_follow_each_other(a, b.drop_last(), separator);
        assert((a + b).drop_last() =~= a + b.drop_last());
        assert((a + b).last() == b.last());
        assert(text::joined(a + b, separator) =~= text::joined(a, separator) + separator
            + text::joined(b, separator));
    }
}

/// A part of a text occurs in it.
pub proof fn part_of_a_text_occurs(before: Seq<char>, part: Seq<char>, after: Seq<char>)
    ensures
        text::has(before + part + after, part),
{
    let all = before + part + after;
    let at = before.len() as int;
    assert(all.subrange(at, at + part.len()) =~= part);
    assert(text::occurs_at(all, part, at));
}

/// What occurs in a part of a text occurs in it.
pub proof fn inner_part_occurs(
    before: Seq<char>,
    part: Seq<char>,
    after: Seq<char>,
    inner: Seq<char>,
)
    requires
        text::has(part, inner),
    ensures
        text::has(before + part + after, inner),
{
    let all = before + part + after;
    let at = choose|at: int| text::occurs_at(part, inner, at);
    let from = before.len() + at;
    assert(all.subrange(from, from + inner.len()) =~= part.subrange(at, at + inner.len()));
    assert(text::occurs_at(all, inner, from));
}

/// Each of the texts that are joined occurs in the whole.
pub proof fn joined_text_holds_each(texts: Seq<Seq<char>>, separator: Seq<char>, i: int)
    requires
        0 <= i < texts.len(),
    ensures
        text::has(text::joined(texts, separator), texts[i]),
    decreases texts.len(),
{
    let none = Seq::<char>::empty();
    if texts.len() == 1 {
        part_of_a_text_occurs(none, texts[0], none);
        assert(none + texts[0] + none =~= texts[0]);
    } else {
        let rest = text::joined(texts.drop_last(), separator);
        let all = text::joined(texts, separator);
        if i < texts.len() - 1 {
            joined_text_holds_each(texts.drop_last(), separator, i);
            inner_part_occurs(none, rest, separator + texts.last(), texts[i]);
            assert(none + rest + (separator + texts.last()) =~= all);
        } else {
            part_of_a_text_occurs(rest + separator, texts.last(), none);
            assert(rest + separator + texts.last() + none =~= all);
        }
    }
}

} // verus!
