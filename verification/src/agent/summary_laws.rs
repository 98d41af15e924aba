//! What is left of a summary that a model wrote.
use vstd::prelude::*;
use vstd::string::*;

use crate::agent::compact;
use crate::text;
use crate::text_laws;

verus! {

/// A text without its white space.
pub open spec fn ink(text: Seq<char>) -> Seq<char>
    decreases text.len(),
{
    if text.len() == 0 {
        Seq::empty()
    } else if text::is_space(text.last()) {
        ink(text.drop_last())
    } else {
        ink(text.drop_last()).push(text.last())
    }
}

/// The first tag of a text stands at `start`, and the first end of it behind that at `end`.
pub open spec fn is_pair(
    text: Seq<char>,
    open: Seq<char>,
    close: Seq<char>,
    start: int,
    end: int,
) -> bool {
    &&& 0 <= start <= end
    &&& text::occurs_at(text, open, start)
    &&& text::occurs_at(text, close, end)
    &&& forall|i: int| 0 <= i < start ==> !text::occurs_at(text, open, i)
    &&& forall|i: int| start <= i < end ==> !text::occurs_at(text, close, i)
}

/// No tag of a text has its end behind it.
pub open spec fn is_free(text: Seq<char>, open: Seq<char>, close: Seq<char>) -> bool {
    forall|start: int, end: int|
        0 <= start <= end && #[trigger] text::occurs_at(text, open, start)
            ==> !#[trigger] text::occurs_at(text, close, end)
}

/// `rest` is what is left of a text without its first draft.
pub open spec fn is_without_draft(summary: Seq<char>, rest: Seq<char>) -> bool {
    ||| is_free(summary, "<analysis>"@, "</analysis>"@) && rest == summary
    ||| exists|start: int, end: int| #[trigger]
        is_pair(summary, "<analysis>"@, "</analysis>"@, start, end) && rest == summary.take(start)
            + summary.skip(end + "</analysis>"@.len())
}

/// No run of white space holds three line feeds: no two blank lines follow each other.
pub open spec fn is_airy(text: Seq<char>) -> bool {
    forall|i: int, j: int, k: int|
        0 <= i < j < k < text.len() && #[trigger] text[i] == '\n' && #[trigger] text[j] == '\n'
            && #[trigger] text[k] == '\n' ==> exists|m: int|
            i < m < k && !text::is_space(#[trigger] text[m])
}

proof fn lemma_pair(text: Seq<char>, open: Seq<char>, close: Seq<char>)
    ensures
        match text::find_from(text, open, 0) {
            Some(start) => match text::find_from(text, close, start) {
                Some(end) => is_pair(text, open, close, start, end),
                None => is_free(text, open, close),
            },
            None => is_free(text, open, close),
        },
        compact::has_pair(text, open, close) != is_free(text, open, close),
{
    text::lemma_find_from(text, open, 0);
    if let Some(start) = text::find_from(text, open, 0) {
        text::lemma_find_from(text, close, start);
        if let Some(end) = text::find_from(text, close, start) {
            assert(text::occurs_at(text, open, start) && text::occurs_at(text, close, end));
        }
    }
}

proof fn lemma_same_pair(
    text: Seq<char>,
    open: Seq<char>,
    close: Seq<char>,
    start: int,
    end: int,
)
    requires
        is_pair(text, open, close, start, end),
    ensures
        text::find_from(text, open, 0) == Some(start),
        text::find_from(text, close, start) == Some(end),
{
    text::lemma_find_from(text, open, 0);
    text::lemma_find_from(text, close, start);
}

/// A text without tags is kept as it is.
pub proof fn untagged_summary_is_kept(summary: Seq<char>)
    requires
        is_free(summary, "<analysis>"@, "</analysis>"@),
        is_free(summary, "<summary>"@, "</summary>"@),
    ensures
        compact::formatted(summary) == summary,
{
    lemma_pair(summary, "<analysis>"@, "</analysis>"@);
    lemma_pair(summary, "<summary>"@, "</summary>"@);
}

proof fn lemma_ink_add(a: Seq<char>, b: Seq<char>)
    ensures
        ink(a + b) == ink(a) + ink(b),
    decreases b.len(),
{
    if b.len() == 0 {
        assert(a + b =~= a);
        assert(ink(a) + ink(b) =~= ink(a));
    } else {
        lemma_ink_add(a, b.drop_last());
        assert((a + b).drop_last() =~= a + b.drop_last());
        assert(ink(a + b) =~= ink(a) + ink(b));
    }
}

proof fn lemma_ink_space(text: Seq<char>)
    requires
        forall|i: int| 0 <= i < text.len() ==> text::is_space(#[trigger] text[i]),
    ensures
        ink(text) == Seq::<char>::empty(),
    decreases text.len(),
{
    if text.len() > 0 {
        assert forall|i: int| 0 <= i < text.drop_last().len() implies text::is_space(
            #[trigger] text.drop_last()[i],
        ) by {
            assert(text[i] == text.drop_last()[i]);
        }
        lemma_ink_space(text.drop_last());
        assert(text::is_space(text[text.len() - 1]));
    }
}

proof fn lemma_ink_trimmed(text: Seq<char>)
    ensures
        ink(text::trimmed(text)) == ink(text),
{
    let (from, to) = text_laws::trimming_takes_the_space_around(text);
    let head = text.take(from);
    let tail = text.skip(to);
    lemma_ink_space(head);
    assert forall|i: int| 0 <= i < tail.len() implies text::is_space(#[trigger] tail[i]) by {
        assert(tail[i] == text[to + i]);
    }
    lemma_ink_space(tail);
    assert(text =~= head + text.subrange(from, to) + tail);
    lemma_ink_add(head + text.subrange(from, to), tail);
    lemma_ink_add(head, text.subrange(from, to));
    assert(ink(text) =~= ink(text.subrange(from, to)));
}

spec fn ink_of(lines: Seq<Seq<char>>) -> Seq<char>
    decreases lines.len(),
{
    if lines.len() == 0 {
        Seq::empty()
    } else {
        ink_of(lines.drop_last()) + ink(lines.last())
    }
}

proof fn lemma_ink_of_add(a: Seq<Seq<char>>, b: Seq<Seq<char>>)
    ensures
        ink_of(a + b) == ink_of(a) + ink_of(b),
    decreases b.len(),
{
    if b.len() == 0 {
        assert(a + b =~= a);
        assert(ink_of(a) + ink_of(b) =~= ink_of(a));
    } else {
        lemma_ink_of_add(a, b.drop_last());
        assert((a + b).drop_last() =~= a + b.drop_last());
        assert(ink_of(a + b) =~= ink_of(a) + ink_of(b));
    }
}

proof fn lemma_ink_return(line: Seq<char>)
    ensures
        ink(text::without_return(line)) == ink(line),
{
}

/// A text is its first line and the rest.
proof fn lemma_first_line(text: Seq<char>) -> (at: int)
    requires
        text.contains('\n'),
    ensures
        0 <= at < text.len(),
        text =~= text.take(at) + seq!['\n'] + text.skip(at + 1),
        !text.take(at).contains('\n'),
{
    text::lemma_char_from(text, '\n', 0);
    let k = choose|k: int| 0 <= k < text.len() && text[k] == '\n';
    let at = text::char_from(text, '\n', 0)->0;
    let head = text.take(at);
    if head.contains('\n') {
        let i = choose|i: int| 0 <= i < head.len() && head[i] == '\n';
        assert(text[i] == '\n');
    }
    at
}

proof fn lemma_ink_lines(text: Seq<char>)
    ensures
        ink_of(text::lines(text)) == ink(text),
    decreases text.len(),
{
    if text.contains('\n') {
        let at = lemma_first_line(text);
        let line = text.take(at);
        let rest = text.skip(at + 1);
        text_laws::lines_end_at_line_feeds(line, rest);
        assert(text == line + seq!['\n'] + rest);
        lemma_ink_lines(rest);
        let first = seq![text::without_return(line)];
        lemma_ink_of_add(first, text::lines(rest));
        assert(first.drop_last() =~= Seq::empty());
        assert(ink_of(Seq::<Seq<char>>::empty()) == Seq::<char>::empty());
        assert(ink_of(first) =~= ink(text::without_return(line)));
        lemma_ink_return(line);
        lemma_ink_add(line + seq!['\n'], rest);
        lemma_ink_add(line, seq!['\n']);
        lemma_ink_space(seq!['\n']);
        assert(ink(line) + Seq::<char>::empty() =~= ink(line));
    } else {
        text_laws::lines_end_at_line_feeds(text, Seq::empty());
        if text.len() > 0 {
            assert(seq![text].drop_last() =~= Seq::empty());
            assert(ink_of(Seq::<Seq<char>>::empty()) == Seq::<char>::empty());
            assert(ink_of(seq![text]) =~= ink(text));
        }
    }
}

proof fn lemma_newline()
    ensures
        "\n"@ == seq!['\n'],
{
    reveal_strlit("\n");
    assert("\n"@ =~= seq!['\n']);
}

proof fn lemma_ink_blank(line: Seq<char>)
    requires
        text::is_blank(line),
    ensures
        ink(line) == Seq::<char>::empty(),
{
    text_laws::blank_text_is_white_space(line);
    lemma_ink_space(line);
}

proof fn lemma_ink_spaced(lines: Seq<Seq<char>>)
    ensures
        ink(compact::spaced(lines).0) == ink_of(lines),
    decreases lines.len(),
{
    if lines.len() > 0 {
        let (before, was_blank) = compact::spaced(lines.drop_last());
        lemma_ink_spaced(lines.drop_last());
        lemma_newline();
        lemma_ink_space(seq!['\n']);
        if text::is_blank(lines.last()) {
            lemma_ink_blank(lines.last());
        }
        lemma_ink_add(before + lines.last(), seq!['\n']);
        lemma_ink_add(before, lines.last());
        assert(ink(compact::spaced(lines).0) =~= ink_of(lines));
    }
}

/// What a model wrote between the tags of its summary is kept, all that can be seen of it and
/// nothing more, under a heading. Where only a draft is tagged, what is left without it is kept.
pub proof fn summary_keeps_its_words(summary: Seq<char>, rest: Seq<char>)
    requires
        is_without_draft(summary, rest),
    ensures
        forall|start: int, end: int| #[trigger]
            is_pair(rest, "<summary>"@, "</summary>"@, start, end) ==> ink(
                compact::formatted(summary),
            ) == "Summary:"@ + ink(rest.subrange(start + "<summary>"@.len(), end)),
        is_free(rest, "<summary>"@, "</summary>"@) ==> ink(compact::formatted(summary)) == ink(rest),
{
    lemma_rest(summary, rest);
    lemma_pair(summary, "<analysis>"@, "</analysis>"@);
    lemma_pair(summary, "<summary>"@, "</summary>"@);
    lemma_pair(rest, "<summary>"@, "</summary>"@);
    let open = compact::unwrapped(rest);
    lemma_ink_lines(open);
    lemma_ink_spaced(text::lines(open));
    lemma_ink_trimmed(compact::spaced(text::lines(open)).0);
    assert forall|start: int, end: int| #[trigger]
        is_pair(rest, "<summary>"@, "</summary>"@, start, end) implies ink(open) == "Summary:"@
        + ink(rest.subrange(start + "<summary>"@.len(), end)) by {
        lemma_same_pair(rest, "<summary>"@, "</summary>"@, start, end);
        let inner = rest.subrange(start + "<summary>"@.len(), end);
        lemma_heading();
        lemma_ink_add("Summary:\n"@, text::trimmed(inner));
        lemma_ink_trimmed(inner);
    }
}

proof fn lemma_rest(summary: Seq<char>, rest: Seq<char>)
    requires
        is_without_draft(summary, rest),
    ensures
        compact::without_analysis(summary) == rest,
{
    lemma_pair(summary, "<analysis>"@, "</analysis>"@);
    if !is_free(summary, "<analysis>"@, "</analysis>"@) {
        let (start, end) = choose|start: int, end: int| #[trigger]
            is_pair(summary, "<analysis>"@, "</analysis>"@, start, end) && rest == summary.take(
                start,
            ) + summary.skip(end + "</analysis>"@.len());
        lemma_same_pair(summary, "<analysis>"@, "</analysis>"@, start, end);
    } else if exists|start: int, end: int| #[trigger]
        is_pair(summary, "<analysis>"@, "</analysis>"@, start, end) && rest == summary.take(start)
            + summary.skip(end + "</analysis>"@.len()) {
        let (start, end) = choose|start: int, end: int| #[trigger]
            is_pair(summary, "<analysis>"@, "</analysis>"@, start, end) && rest == summary.take(
                start,
            ) + summary.skip(end + "</analysis>"@.len());
        assert(text::occurs_at(summary, "<analysis>"@, start) && text::occurs_at(
            summary,
            "</analysis>"@,
            end,
        ));
    }
}

proof fn lemma_heading()
    ensures
        "Summary:\n"@ == "Summary:"@ + seq!['\n'],
        ink("Summary:\n"@) == "Summary:"@,
        ink("Summary:"@) == "Summary:"@,
        "Summary:"@.len() == 8,
        "Summary:"@[0] == 'S',
        !"Summary:"@.contains('\n'),
        "Summary:"@.last() == ':',
{
    reveal_strlit("Summary:\n");
    reveal_strlit("Summary:");
    assert("Summary:\n"@ =~= "Summary:"@ + seq!['\n']);
    reveal_with_fuel(ink, 9);
    assert(ink("Summary:"@) =~= "Summary:"@);
    lemma_ink_space(seq!['\n']);
    lemma_ink_add("Summary:"@, seq!['\n']);
    assert("Summary:"@ + Seq::<char>::empty() =~= "Summary:"@);
}

/// The lines hold no line feeds.
proof fn lemma_lines_whole(text: Seq<char>)
    ensures
        forall|i: int|
            0 <= i < text::lines(text).len() ==> !(#[trigger] text::lines(text)[i]).contains('\n'),
    decreases text.len(),
{
    let all = text::lines(text);
    if text.contains('\n') {
        let at = lemma_first_line(text);
        let line = text.take(at);
        let rest = text.skip(at + 1);
        text_laws::lines_end_at_line_feeds(line, rest);
        assert(text == line + seq!['\n'] + rest);
        lemma_lines_whole(rest);
        assert forall|i: int| 0 <= i < all.len() implies !(#[trigger] all[i]).contains('\n') by {
            if i > 0 {
                assert(all[i] == text::lines(rest)[i - 1]);
            } else if all[0].contains('\n') {
                let k = choose|k: int| 0 <= k < all[0].len() && all[0][k] == '\n';
                assert(line[k] == '\n');
            }
        }
    } else {
        text_laws::lines_end_at_line_feeds(text, Seq::empty());
    }
}

/// Between the last end of a line and any before it stands something to be seen.
spec fn ends_seen(text: Seq<char>) -> bool {
    forall|i: int|
        0 <= i < text.len() - 1 && #[trigger] text[i] == '\n' ==> exists|m: int|
            i < m < text.len() && !text::is_space(#[trigger] text[m])
}

proof fn lemma_spaced_airy(lines: Seq<Seq<char>>)
    requires
        forall|i: int| 0 <= i < lines.len() ==> !(#[trigger] lines[i]).contains('\n'),
    ensures
        is_airy(compact::spaced(lines).0),
        compact::spaced(lines).0.len() > 0 ==> compact::spaced(lines).0.last() == '\n',
        !compact::spaced(lines).1 ==> ends_seen(compact::spaced(lines).0),
    decreases lines.len(),
{
    if lines.len() > 0 {
        let rest = lines.drop_last();
        assert forall|i: int| 0 <= i < rest.len() implies !(#[trigger] rest[i]).contains('\n') by {
            assert(rest[i] == lines[i]);
        }
        lemma_spaced_airy(rest);
        lemma_newline();
        let (before, was_blank) = compact::spaced(rest);
        let line = lines.last();
        assert(line == lines[lines.len() - 1]);
        text_laws::blank_text_is_white_space(line);
        let blank = text::is_blank(line);
        if !(blank && was_blank) {
            let out = before + line + seq!['\n'];
            assert(compact::spaced(lines).0 == out);
            assert forall|i: int| before.len() <= i < out.len() - 1 implies out[i] != '\n' by {
                assert(out[i] == line[i - before.len()]);
                if out[i] == '\n' {
                    assert(line.contains('\n'));
                }
            }
            if !blank {
                let k = choose|k: int| 0 <= k < line.len() && !text::is_space(#[trigger] line[k]);
                let m = before.len() + k;
                assert(out[m] == line[k]);
                assert(out[m] != '\n');
                assert(ends_seen(out));
                assert(is_airy(out)) by {
                    assert forall|i: int, j: int, k: int|
                        0 <= i < j < k < out.len() && #[trigger] out[i] == '\n' && #[trigger] out[j]
                            == '\n' && #[trigger] out[k] == '\n' implies exists|m: int|
                        i < m < k && !text::is_space(#[trigger] out[m]) by {
                        lemma_triple(before, out, i, j, k, m);
                    }
                }
            } else {
                assert forall|i: int, j: int, k: int|
                    0 <= i < j < k < out.len() && #[trigger] out[i] == '\n' && #[trigger] out[j]
                        == '\n' && #[trigger] out[k] == '\n' implies exists|m: int|
                    i < m < k && !text::is_space(#[trigger] out[m]) by {
                    if k < before.len() {
                        assert(before[i] == '\n' && before[j] == '\n' && before[k] == '\n');
                        let m = choose|m: int|
                            i < m < k && !text::is_space(#[trigger] before[m]);
                        assert(out[m] == before[m]);
                    } else {
                        assert(k == out.len() - 1);
                        assert(j < before.len());
                        assert(before[i] == '\n');
                        let m = choose|m: int|
                            i < m < before.len() && !text::is_space(#[trigger] before[m]);
                        assert(out[m] == before[m]);
                    }
                }
            }
        }
    }
}

proof fn lemma_triple(before: Seq<char>, out: Seq<char>, i: int, j: int, k: int, seen: int)
    requires
        is_airy(before),
        before.len() <= seen < out.len() - 1,
        before =~= out.take(before.len() as int),
        !text::is_space(out[seen]),
        forall|p: int| before.len() <= p < out.len() - 1 ==> out[p] != '\n',
        0 <= i < j < k < out.len(),
        out[i] == '\n',
        out[j] == '\n',
        out[k] == '\n',
    ensures
        exists|m: int| i < m < k && !text::is_space(#[trigger] out[m]),
{
    if k < before.len() {
        assert(before[i] == '\n' && before[j] == '\n' && before[k] == '\n');
        let m = choose|m: int| i < m < k && !text::is_space(#[trigger] before[m]);
        assert(out[m] == before[m]);
    } else {
        assert(k == out.len() - 1);
        assert(i < seen < k && !text::is_space(out[seen]));
    }
}

/// In a summary that was tagged, no two blank lines follow each other.
pub proof fn tagged_summary_is_airy(summary: Seq<char>)
    requires
        !is_free(summary, "<analysis>"@, "</analysis>"@) || !is_free(
            summary,
            "<summary>"@,
            "</summary>"@,
        ),
    ensures
        is_airy(compact::formatted(summary)),
{
    lemma_pair(summary, "<analysis>"@, "</analysis>"@);
    lemma_pair(summary, "<summary>"@, "</summary>"@);
    let open = compact::unwrapped(compact::without_analysis(summary));
    lemma_lines_whole(open);
    lemma_spaced_airy(text::lines(open));
    let out = compact::spaced(text::lines(open)).0;
    let (from, to) = text_laws::trimming_takes_the_space_around(out);
    let inner = compact::formatted(summary);
    assert(inner == out.subrange(from, to));
    assert forall|i: int, j: int, k: int|
        0 <= i < j < k < inner.len() && #[trigger] inner[i] == '\n' && #[trigger] inner[j] == '\n'
            && #[trigger] inner[k] == '\n' implies exists|m: int|
        i < m < k && !text::is_space(#[trigger] inner[m]) by {
        assert(out[from + i] == '\n' && out[from + j] == '\n' && out[from + k] == '\n');
        let m = choose|m: int|
            from + i < m < from + k && !text::is_space(#[trigger] out[m]);
        assert(inner[m - from] == out[m]);
    }
}

/// The lines, each with its end.
spec fn laid(lines: Seq<Seq<char>>) -> Seq<char>
    decreases lines.len(),
{
    if lines.len() == 0 {
        Seq::empty()
    } else {
        laid(lines.drop_last()) + lines.last() + seq!['\n']
    }
}

proof fn lemma_laid_add(a: Seq<Seq<char>>, b: Seq<Seq<char>>)
    ensures
        laid(a + b) == laid(a) + laid(b),
    decreases b.len(),
{
    if b.len() == 0 {
        assert(a + b =~= a);
        assert(laid(a) + laid(b) =~= laid(a));
    } else {
        lemma_laid_add(a, b.drop_last());
        assert((a + b).drop_last() =~= a + b.drop_last());
        assert(laid(a + b) =~= laid(a) + laid(b));
    }
}

/// No two blank lines follow each other.
pub open spec fn are_airy(lines: Seq<Seq<char>>) -> bool {
    forall|i: int|
        0 < i < lines.len() && text::is_blank(#[trigger] lines[i]) ==> !text::is_blank(lines[i - 1])
}

proof fn lemma_spaced_laid(lines: Seq<Seq<char>>)
    requires
        are_airy(lines),
    ensures
        compact::spaced(lines).0 == laid(lines),
        compact::spaced(lines).1 == (lines.len() > 0 && text::is_blank(lines.last())),
    decreases lines.len(),
{
    if lines.len() > 0 {
        let rest = lines.drop_last();
        assert forall|i: int| 0 < i < rest.len() && text::is_blank(#[trigger] rest[i]) implies !text::is_blank(
            rest[i - 1],
        ) by {
            assert(text::is_blank(lines[i]));
        }
        lemma_spaced_laid(rest);
        lemma_newline();
        if rest.len() > 0 && text::is_blank(lines[lines.len() - 1]) {
            assert(rest.last() == lines[lines.len() - 2]);
        }
    }
}

proof fn lemma_lines_laid(text: Seq<char>)
    requires
        text.len() > 0,
        text.last() != '\n',
        !text.contains('\r'),
    ensures
        laid(text::lines(text)) == text + seq!['\n'],
    decreases text.len(),
{
    if text.contains('\n') {
        let at = lemma_first_line(text);
        let line = text.take(at);
        let rest = text.skip(at + 1);
        text_laws::lines_end_at_line_feeds(line, rest);
        assert(text == line + seq!['\n'] + rest);
        if at == text.len() - 1 {
            assert(text.last() == '\n');
        }
        assert(rest.last() == text.last());
        if rest.contains('\r') {
            let k = choose|k: int| 0 <= k < rest.len() && rest[k] == '\r';
            assert(text[at + 1 + k] == '\r');
        }
        lemma_lines_laid(rest);
        if line.len() > 0 && line.last() == '\r' {
            assert(text[at - 1] == '\r');
        }
        let first = seq![line];
        lemma_laid_add(first, text::lines(rest));
        assert(first.drop_last() =~= Seq::empty());
        assert(laid(Seq::<Seq<char>>::empty()) == Seq::<char>::empty());
        assert(laid(first) =~= line + seq!['\n']);
        assert(laid(text::lines(text)) =~= text + seq!['\n']);
    } else {
        text_laws::lines_end_at_line_feeds(text, Seq::empty());
        assert(seq![text].drop_last() =~= Seq::empty());
        assert(laid(Seq::<Seq<char>>::empty()) == Seq::<char>::empty());
        assert(laid(seq![text]) =~= text + seq!['\n']);
    }
}

proof fn lemma_trimmed_is(text: Seq<char>, inner: Seq<char>)
    requires
        inner.len() > 0,
        !text::is_space(inner[0]),
        !text::is_space(inner.last()),
        text == inner + seq!['\n'],
    ensures
        text::trimmed(text) == inner,
{
    let (from, to) = text_laws::trimming_takes_the_space_around(text);
    assert(text[0] == inner[0]);
    assert(text[inner.len() - 1] == inner.last());
    assert(text[inner.len() as int] == '\n');
    assert(from == 0);
    assert(to == inner.len());
    assert(text.subrange(0, inner.len() as int) =~= inner);
}

/// A summary that holds no two blank lines in a row is kept letter for letter, with its line ends,
/// under a heading.
pub proof fn airy_summary_is_kept_as_it_is(summary: Seq<char>, rest: Seq<char>, start: int, end: int)
    requires
        is_without_draft(summary, rest),
        !is_free(summary, "<analysis>"@, "</analysis>"@) || !is_free(
            summary,
            "<summary>"@,
            "</summary>"@,
        ),
        is_pair(rest, "<summary>"@, "</summary>"@, start, end),
        start + "<summary>"@.len() <= end,
        ({
            let inner = text::trimmed(rest.subrange(start + "<summary>"@.len(), end));
            inner.len() > 0 && !inner.contains('\r') && are_airy(text::lines(inner))
        }),
    ensures
        compact::formatted(summary) == "Summary:"@ + seq!['\n'] + text::trimmed(
            rest.subrange(start + "<summary>"@.len(), end),
        ),
{
    lemma_rest(summary, rest);
    lemma_pair(summary, "<analysis>"@, "</analysis>"@);
    lemma_pair(summary, "<summary>"@, "</summary>"@);
    lemma_same_pair(rest, "<summary>"@, "</summary>"@, start, end);
    let whole = rest.subrange(start + "<summary>"@.len(), end);
    let inner = text::trimmed(whole);
    let (from, to) = text_laws::trimming_takes_the_space_around(whole);
    assert(inner.len() == to - from);
    assert(inner.last() == whole[to - 1]);
    lemma_heading();
    let open = "Summary:"@ + seq!['\n'] + inner;
    assert(compact::unwrapped(rest) == open);
    text_laws::lines_end_at_line_feeds("Summary:"@, inner);
    let lines = text::lines(open);
    assert(lines == seq!["Summary:"@] + text::lines(inner));
    text_laws::blank_text_is_white_space("Summary:"@);
    assert(!text::is_space("Summary:"@[0]));
    assert forall|i: int| 0 < i < lines.len() && text::is_blank(#[trigger] lines[i]) implies !text::is_blank(
        lines[i - 1],
    ) by {
        assert(lines[i] == text::lines(inner)[i - 1]);
        if i > 1 {
            assert(lines[i - 1] == text::lines(inner)[i - 2]);
        }
    }
    lemma_spaced_laid(lines);
    if open.contains('\r') {
        let k = choose|k: int| 0 <= k < open.len() && open[k] == '\r';
        reveal_strlit("Summary:");
        if k >= 9 {
            assert(inner[k - 9] == '\r');
        }
    }
    lemma_lines_laid(open);
    lemma_trimmed_is(open + seq!['\n'], open);
}

} // verus!
