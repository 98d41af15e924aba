//! What holds of the ways in which an element is named and an outcome is told.
use vstd::prelude::*;

use crate::browser::target;
use crate::browser::target::Button;
use crate::text;
use crate::text_laws;

verus! {

/// A mark of an element is an `e` and digits.
pub open spec fn is_mark(text: Seq<char>) -> bool {
    text.len() > 1 && text[0] == 'e' && forall|i: int|
        1 <= i < text.len() ==> '0' <= #[trigger] text[i] <= '9'
}

proof fn lemma_mark(text: Seq<char>)
    ensures
        target::aria_ref(text) == is_mark(text),
{
    if is_mark(text) {
        assert forall|i: int| 1 <= i < text.len() implies text::is_digit(#[trigger] text[i]) by {}
    }
}

/// An element is named by its mark, with or without a sign before it; anything else is a selector
/// and stays as it is.
pub proof fn element_is_named_by_its_mark(mark: Seq<char>, other: Seq<char>)
    requires
        is_mark(mark),
        text::trimmed(mark) == mark,
        text::trimmed(seq!['@'] + mark) == seq!['@'] + mark,
        text::trimmed(other) == other,
        !is_mark(other),
        !(other.len() > 0 && other[0] == '@' && is_mark(other.skip(1))),
    ensures
        target::selector(mark) == "aria-ref="@ + mark,
        target::selector(seq!['@'] + mark) == "aria-ref="@ + mark,
        target::selector(other) == other,
{
    reveal_strlit("@");
    assert("@"@ =~= seq!['@']);
    lemma_mark(mark);
    lemma_mark(other);
    lemma_mark(other.skip(1));
    let signed = seq!['@'] + mark;
    assert("@"@ =~= signed.subrange(0, 1));
    assert(signed.skip(1) =~= mark);
    if "@"@.is_prefix_of(mark) {
        assert(mark.subrange(0, 1)[0] == '@');
    }
    if "@"@.is_prefix_of(other) {
        assert(other.subrange(0, 1)[0] == '@');
    }
}

/// The mark of an element goes before a locator.
pub proof fn mark_goes_before_a_locator(reference: Seq<char>, locator: Seq<char>)
    ensures
        target::picked(Some(reference), Some(locator)) == Some(target::selector(reference)),
        target::picked(Some(reference), None) == Some(target::selector(reference)),
        target::picked(None, Some(locator)) == Some(locator),
        target::picked(None, None) is None,
{
}

/// A button is pressed by its name, and the left one where nothing else is named.
pub proof fn button_is_meant(name: Seq<char>)
    ensures
        target::button_named(Some("right"@)) == Button::Right,
        target::button_named(Some("middle"@)) == Button::Middle,
        name != "right"@ && name != "middle"@ ==> target::button_named(Some(name)) == Button::Left,
        target::button_named(None) == Button::Left,
{
    reveal_strlit("right");
    reveal_strlit("middle");
    assert("right"@.len() == 5 && "middle"@.len() == 6);
}

/// A text that is written into a script keeps its letters in their order: a backslash, a quote and
/// the end of a line are escaped, and nothing else is.
pub proof fn script_text_keeps_the_letters(a: Seq<char>, b: Seq<char>, c: char)
    ensures
        target::script_text(a + b) == target::script_text(a) + target::script_text(b),
        target::script_text(Seq::empty()) == Seq::<char>::empty(),
        target::script_text(seq!['\\']) == seq!['\\', '\\'],
        target::script_text(seq!['\'']) == seq!['\\', '\''],
        target::script_text(seq!['\n']) == seq!['\\', 'n'],
        target::script_text(seq!['\r']) == seq!['\\', 'r'],
        c != '\\' && c != '\'' && c != '\n' && c != '\r' ==> target::script_text(seq![c]) == seq![c],
    decreases b.len(),
{
    if b.len() > 0 {
        assert((a + b).drop_last() =~= a + b.drop_last());
        script_text_keeps_the_letters(a, b.drop_last(), c);
        assert(target::script_text(a + b) =~= target::script_text(a) + target::script_text(b));
    } else {
        assert(a + b =~= a);
        assert(target::script_text(a + b) =~= target::script_text(a) + target::script_text(b));
    }
    lemma_one('\\');
    lemma_one('\'');
    lemma_one('\n');
    lemma_one('\r');
    lemma_one(c);
}

proof fn lemma_one(c: char)
    ensures
        target::script_text(seq![c]) == target::script_char(c),
{
    assert(seq![c].drop_last() =~= Seq::<char>::empty());
    assert(target::script_text(Seq::<char>::empty()) =~= Seq::<char>::empty());
    assert(target::script_text(seq![c]) =~= target::script_char(c));
}

/// A failure is told by its kind: too long a time goes before a closed target, and that before
/// something that is not there.
pub proof fn failure_has_a_kind(before: Seq<char>, after: Seq<char>, message: Seq<char>, lower: Seq<char>)
    ensures
        target::code_of(before + "timeout"@ + after, message) == "timeout"@,
        target::code_of(lower, before + "超时"@ + after) == "timeout"@,
        ({
            let late = text::has(lower, "timeout"@) || text::has(message, "超时"@);
            let closed = text::has(lower, "target closed"@) || text::has(message, "已关闭"@);
            let missing = text::has(lower, "not exist"@) || text::has(message, "不存在"@);
            &&& late <==> target::code_of(lower, message) == "timeout"@
            &&& !late && closed <==> target::code_of(lower, message) == "target_closed"@
            &&& !late && !closed && missing <==> target::code_of(lower, message) == "not_found"@
            &&& !late && !closed && !missing <==> target::code_of(lower, message)
                == "command_failed"@
        }),
{
    text_laws::part_of_a_text_occurs(before, "timeout"@, after);
    text_laws::part_of_a_text_occurs(before, "超时"@, after);
    reveal_strlit("timeout");
    reveal_strlit("target_closed");
    reveal_strlit("not_found");
    reveal_strlit("command_failed");
    assert("timeout"@.len() == 7 && "target_closed"@.len() == 13 && "not_found"@.len() == 9
        && "command_failed"@.len() == 14);
}

/// A body is shown as text where its kind is one of text, and where nothing is said of the kind but
/// it reads as text.
pub proof fn text_is_shown(before: Seq<char>, after: Seq<char>, is_utf8: bool)
    ensures
        target::is_text_type(before + "text/"@ + after, is_utf8),
        target::is_text_type(before + "json"@ + after, is_utf8),
        target::is_text_type(before + "javascript"@ + after, is_utf8),
        target::is_text_type(before + "xml"@ + after, is_utf8),
        target::is_text_type(before + "x-www-form-urlencoded"@ + after, is_utf8),
        target::is_text_type(Seq::empty(), is_utf8) == is_utf8,
{
    text_laws::part_of_a_text_occurs(before, "text/"@, after);
    text_laws::part_of_a_text_occurs(before, "json"@, after);
    text_laws::part_of_a_text_occurs(before, "javascript"@, after);
    text_laws::part_of_a_text_occurs(before, "xml"@, after);
    text_laws::part_of_a_text_occurs(before, "x-www-form-urlencoded"@, after);
    reveal_strlit("text/");
    reveal_strlit("json");
    reveal_strlit("javascript");
    reveal_strlit("xml");
    reveal_strlit("x-www-form-urlencoded");
    assert("text/"@.len() == 5 && "json"@.len() == 4 && "javascript"@.len() == 10 && "xml"@.len() == 3
        && "x-www-form-urlencoded"@.len() == 21);
}

/// A picture of a page is cut before the mark of the first element that is too many, and is left as
/// it is where no element is.
pub proof fn picture_is_cut_before_an_element(snapshot: Seq<char>, max: u32)
    ensures
        target::limited(snapshot, None) == (snapshot, false),
        ({
            let (shown, is_cut) = target::limited(snapshot, Some(max));
            &&& !is_cut ==> shown == snapshot
            &&& is_cut ==> shown.len() < snapshot.len() && shown == snapshot.take(shown.len() as int)
                && text::occurs_at(snapshot, "[ref="@, shown.len() as int)
            &&& !is_cut && max == 0 ==> !text::has(snapshot, "[ref="@)
            &&& is_cut && max == 0 ==> forall|i: int|
                0 <= i < shown.len() ==> !text::occurs_at(snapshot, "[ref="@, i)
        }),
{
    reveal_strlit("[ref=");
    lemma_cut(snapshot, 0, max as nat);
    text::lemma_find_from(snapshot, "[ref="@, 0);
}

proof fn lemma_cut(snapshot: Seq<char>, from: int, left: nat)
    requires
        0 <= from,
    ensures
        target::cut_at(snapshot, from, left) matches Some(at) ==> from <= at && text::occurs_at(
            snapshot,
            "[ref="@,
            at,
        ),
    decreases left,
{
    reveal_strlit("[ref=");
    text::lemma_find_from(snapshot, "[ref="@, from);
    if let Some(at) = text::find_from(snapshot, "[ref="@, from) {
        if left > 0 {
            lemma_cut(snapshot, at + 5, (left - 1) as nat);
        }
    }
}

/// With one element more allowed, the cut stands one element later.
pub proof fn every_element_counts(before: Seq<char>, rest: Seq<char>, left: nat)
    requires
        !text::has(before + "[ref="@.drop_last(), "[ref="@),
    ensures
        ({
            let all = before + "[ref="@ + rest;
            let from = (before + "[ref="@).len() as int;
            &&& target::cut_at(all, 0, 0) == Some(before.len() as int)
            &&& target::cut_at(all, 0, left + 1) == target::cut_at(all, from, left)
        }),
{
    reveal_strlit("[ref=");
    let all = before + "[ref="@ + rest;
    let at = before.len() as int;
    text::lemma_find_from(all, "[ref="@, 0);
    assert(all.subrange(at, at + 5) =~= "[ref="@);
    assert(text::occurs_at(all, "[ref="@, at));
    let found = text::find_from(all, "[ref="@, 0)->0;
    if found < at {
        let head = before + "[ref="@.drop_last();
        assert(head.subrange(found, found + 5) =~= all.subrange(found, found + 5));
        assert(text::occurs_at(head, "[ref="@, found));
    }
}

} // verus!
