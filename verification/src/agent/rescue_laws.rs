//! What holds of the calls that are read from a text.
use vstd::prelude::*;
use vstd::string::*;

use crate::agent::rescue;
use crate::agent::rescue::{RawCallView, RescuedView};
use crate::json;
use crate::json::JsonView;
use crate::stream::ContentBlock;
use crate::text;

verus! {

/// A parameter whose text is JSON has that value, of whatever kind; any other has its text. Of two
/// under one key the later counts.
pub proof fn parameter_keeps_its_value(
    name: Seq<char>,
    parameters: Seq<(Seq<char>, Seq<char>)>,
    at: int,
)
    requires
        0 <= at < parameters.len(),
        forall|j: int|
            at < j < parameters.len() ==> (#[trigger] parameters[j]).0 != parameters[at].0,
    ensures
        rescue::interpreted(RawCallView { name, parameters }).arguments matches JsonView::Object(
            arguments,
        ) && arguments.contains_key(parameters[at].0) && (match json::parsed(parameters[at].1) {
            Some(value) => arguments[parameters[at].0] == value,
            None => arguments[parameters[at].0] == JsonView::Text(parameters[at].1),
        }),
{
    lemma_argument(parameters, at);
}

proof fn lemma_argument(parameters: Seq<(Seq<char>, Seq<char>)>, at: int)
    requires
        0 <= at < parameters.len(),
        forall|j: int|
            at < j < parameters.len() ==> (#[trigger] parameters[j]).0 != parameters[at].0,
    ensures
        rescue::arguments_of(parameters).contains_key(parameters[at].0),
        rescue::arguments_of(parameters)[parameters[at].0] == (match json::parsed(
            parameters[at].1,
        ) {
            Some(value) => value,
            None => JsonView::Text(parameters[at].1),
        }),
    decreases parameters.len(),
{
    if at < parameters.len() - 1 {
        let rest = parameters.drop_last();
        assert forall|j: int| at < j < rest.len() implies (#[trigger] rest[j]).0 != rest[at].0 by {
            assert(parameters[j].0 != parameters[at].0);
        }
        lemma_argument(rest, at);
        assert(parameters[parameters.len() - 1].0 != parameters[at].0);
    }
}

/// A call has no arguments but its parameters.
pub proof fn arguments_are_the_parameters(
    name: Seq<char>,
    parameters: Seq<(Seq<char>, Seq<char>)>,
    key: Seq<char>,
)
    requires
        forall|j: int| 0 <= j < parameters.len() ==> (#[trigger] parameters[j]).0 != key,
    ensures
        rescue::interpreted(RawCallView { name, parameters }).name == name,
        rescue::interpreted(RawCallView { name, parameters }).arguments matches JsonView::Object(
            arguments,
        ) && !arguments.contains_key(key),
    decreases parameters.len(),
{
    if parameters.len() > 0 {
        let rest = parameters.drop_last();
        assert forall|j: int| 0 <= j < rest.len() implies (#[trigger] rest[j]).0 != key by {
            assert(parameters[j].0 != key);
        }
        arguments_are_the_parameters(name, rest, key);
        assert(parameters[parameters.len() - 1].0 != key);
    }
}

/// The calls of a text are made, each with its own name and parameters, where all of them can be
/// read; and none is made where one cannot.
pub proof fn calls_are_made_together(text: Seq<char>)
    ensures
        match rescue::raw_calls_in(text) {
            Some(raw) => raw.len() > 0 && (rescue::rescued(text) matches Some(calls) && calls.len()
                == raw.len() && forall|i: int|
                0 <= i < raw.len() ==> #[trigger] calls[i] == rescue::interpreted(raw[i])),
            None => rescue::rescued(text) is None,
        },
{
}

/// A text in which a tag is not closed gives no call, whatever else stands in it; nor does a text
/// without tags.
pub proof fn open_tag_gives_no_call(text: Seq<char>, at: int)
    ensures
        text::occurs_at(rescue::lowered(text), "<tool_call"@, at) && (forall|i: int|
            at <= i ==> !text::occurs_at(rescue::lowered(text), "</tool_call>"@, i))
            ==> rescue::rescued(text) is None,
        !text::has(rescue::lowered(text), "<tool_call"@) ==> rescue::rescued(text) is None,
{
    let lower = rescue::lowered(text);
    reveal_strlit("<tool_call");
    reveal_strlit("</tool_call>");
    if text::occurs_at(lower, "<tool_call"@, at) && forall|i: int|
        at <= i ==> !text::occurs_at(lower, "</tool_call>"@, i) {
        lemma_open_tag(text, lower, 0, Seq::empty(), at);
    }
    text::lemma_find_from(lower, "<tool_call"@, 0);
}

proof fn lemma_open_tag(
    text: Seq<char>,
    lower: Seq<char>,
    from: int,
    known: Seq<RawCallView>,
    at: int,
)
    requires
        0 <= from <= at,
        text::occurs_at(lower, "<tool_call"@, at),
        forall|i: int| at <= i ==> !text::occurs_at(lower, "</tool_call>"@, i),
    ensures
        rescue::calls_from(text, lower, from, known) is None,
    decreases lower.len() - from,
{
    reveal_strlit("<tool_call");
    reveal_strlit("</tool_call>");
    text::lemma_find_from(lower, "<tool_call"@, from);
    if let Some(start) = text::find_from(lower, "<tool_call"@, from) {
        let inside = start + "<tool_call"@.len();
        text::lemma_find_from(lower, "</tool_call>"@, inside);
        if let Some(end) = text::find_from(lower, "</tool_call>"@, inside) {
            let next = end + "</tool_call>"@.len();
            // The end of a tag does not reach into the next tag.
            assert(end < at);
            if next > at {
                let k = at - end;
                assert(lower.subrange(end, next)[k] == "</tool_call>"@[k]);
                assert(lower.subrange(at, at + 10)[0] == '<');
            }
            if let Some(call) = rescue::call_in(
                text.subrange(start, end),
                lower.subrange(start, end),
            ) {
                lemma_open_tag(text, lower, next, known.push(call), at);
            }
        }
    }
}

/// A character of a name in lower case.
pub open spec fn is_small(c: char) -> bool {
    rescue::is_name_char(c) && !('A' <= c <= 'Z')
}

/// A name in lower case.
pub open spec fn is_name(name: Seq<char>) -> bool {
    name.len() > 0 && forall|i: int| 0 <= i < name.len() ==> is_small(#[trigger] name[i])
}

/// A text without a tag.
pub open spec fn is_plain(text: Seq<char>) -> bool {
    forall|i: int| 0 <= i < text.len() ==> #[trigger] text[i] != '<'
}

/// A parameter as it is written.
pub open spec fn written_parameter(parameter: (Seq<char>, Seq<char>)) -> Seq<char> {
    "<parameter="@ + parameter.0 + ">"@ + parameter.1 + "</parameter>"@
}

/// Parameters as they are written.
pub open spec fn written_parameters(parameters: Seq<(Seq<char>, Seq<char>)>) -> Seq<char>
    decreases parameters.len(),
{
    if parameters.len() == 0 {
        Seq::empty()
    } else {
        written_parameter(parameters[0]) + written_parameters(parameters.skip(1))
    }
}

/// What stands between the tags of a call.
pub open spec fn written_inside(call: RawCallView) -> Seq<char> {
    "<tool_call"@ + (">"@ + "<function="@ + call.name + ">"@ + written_parameters(call.parameters)
        + "</function>"@)
}

/// A call as it is written.
pub open spec fn written(call: RawCallView) -> Seq<char> {
    written_inside(call) + "</tool_call>"@
}

/// Whether a call can be written: its name and keys are names, and its values hold no tags.
pub open spec fn can_be_written(call: RawCallView) -> bool {
    &&& is_name(call.name)
    &&& forall|i: int|
        0 <= i < call.parameters.len() ==> is_name((#[trigger] call.parameters[i]).0) && is_plain(
            call.parameters[i].1,
        )
}

/// A call as it is read: the white space around its values is gone.
pub open spec fn as_read(call: RawCallView) -> RawCallView {
    RawCallView {
        name: call.name,
        parameters: call.parameters.map_values(
            |parameter: (Seq<char>, Seq<char>)| (parameter.0, text::trimmed(parameter.1)),
        ),
    }
}

/// Calls as they are written, one after the other, with a text before each.
pub open spec fn written_all(texts: Seq<Seq<char>>, calls: Seq<RawCallView>) -> Seq<char>
    decreases calls.len(),
{
    if calls.len() == 0 {
        Seq::empty()
    } else {
        texts[0] + written(calls[0]) + written_all(texts.skip(1), calls.skip(1))
    }
}

proof fn lemma_find(text: Seq<char>, tag: Seq<char>, from: int, at: int)
    requires
        0 <= from <= at,
        text::occurs_at(text, tag, at),
        forall|i: int| from <= i < at ==> !#[trigger] text::occurs_at(text, tag, i),
    ensures
        text::find_from(text, tag, from) == Some(at),
{
    text::lemma_find_from(text, tag, from);
}

proof fn lemma_tags()
    ensures
        "<tool_call"@.len() == 10,
        "</tool_call>"@.len() == 12,
        "<function="@.len() == 10,
        "</function>"@.len() == 11,
        "<parameter="@.len() == 11,
        "</parameter>"@.len() == 12,
        ">"@ == seq!['>'],
        "<tool_call"@[0] == '<',
        "<tool_call"@[1] == 't',
        "<function="@[0] == '<',
        "<function="@[1] == 'f',
        "</function>"@[0] == '<',
        "</function>"@[1] == '/',
        "</function>"@[2] == 'f',
        "<parameter="@[0] == '<',
        "<parameter="@[1] == 'p',
        "</parameter>"@[0] == '<',
        "</parameter>"@[1] == '/',
        "</parameter>"@[2] == 'p',
        "</tool_call>"@[0] == '<',
        "</tool_call>"@[1] == '/',
        "</tool_call>"@[2] == 't',
        forall|i: int| 0 < i < 10 ==> #[trigger] "<tool_call"@[i] != '<',
        forall|i: int| 0 < i < 12 ==> #[trigger] "</tool_call>"@[i] != '<',
        forall|i: int| 0 < i < 10 ==> #[trigger] "<function="@[i] != '<',
        forall|i: int| 0 < i < 11 ==> #[trigger] "</function>"@[i] != '<',
        forall|i: int| 0 < i < 11 ==> #[trigger] "<parameter="@[i] != '<',
        forall|i: int| 0 < i < 12 ==> #[trigger] "</parameter>"@[i] != '<',
{
    reveal_strlit("<tool_call");
    reveal_strlit("</tool_call>");
    reveal_strlit("<function=");
    reveal_strlit("</function>");
    reveal_strlit("<parameter=");
    reveal_strlit("</parameter>");
    reveal_strlit(">");
    assert(">"@ =~= seq!['>']);
}

/// Each tag of a text is whole, and none of them ends a call.
spec fn is_inner(text: Seq<char>) -> bool {
    forall|i: int|
        0 <= i < text.len() && #[trigger] text[i] == '<' ==> i + 2 < text.len() && !(text[i + 1]
            == '/' && rescue::lower_char(text[i + 2]) == 't')
}

proof fn lemma_inner_add(a: Seq<char>, b: Seq<char>)
    requires
        is_inner(a),
        is_inner(b),
    ensures
        is_inner(a + b),
{
    let all = a + b;
    assert forall|i: int| 0 <= i < all.len() && #[trigger] all[i] == '<' implies i + 2 < all.len()
        && !(all[i + 1] == '/' && rescue::lower_char(all[i + 2]) == 't') by {
        if i < a.len() {
            assert(a[i] == '<');
        } else {
            assert(b[i - a.len()] == '<');
        }
    }
}

proof fn lemma_name_is_plain(name: Seq<char>)
    requires
        is_name(name),
    ensures
        is_plain(name),
        rescue::lowered(name) == name,
{
    assert forall|i: int| 0 <= i < name.len() implies #[trigger] name[i] != '<' by {
        assert(is_small(name[i]));
    }
    assert forall|i: int| 0 <= i < name.len() implies rescue::lower_char(#[trigger] name[i])
        == name[i] by {
        assert(is_small(name[i]));
    }
    assert(rescue::lowered(name) =~= name);
}

proof fn lemma_lowered_tags()
    ensures
        rescue::lowered("<tool_call"@) == "<tool_call"@,
        rescue::lowered("</tool_call>"@) == "</tool_call>"@,
        rescue::lowered("<function="@) == "<function="@,
        rescue::lowered("</function>"@) == "</function>"@,
        rescue::lowered("<parameter="@) == "<parameter="@,
        rescue::lowered("</parameter>"@) == "</parameter>"@,
        rescue::lowered(">"@) == ">"@,
{
    reveal_strlit("<tool_call");
    reveal_strlit("</tool_call>");
    reveal_strlit("<function=");
    reveal_strlit("</function>");
    reveal_strlit("<parameter=");
    reveal_strlit("</parameter>");
    reveal_strlit(">");
    assert(rescue::lowered("<tool_call"@) =~= "<tool_call"@);
    assert(rescue::lowered("</tool_call>"@) =~= "</tool_call>"@);
    assert(rescue::lowered("<function="@) =~= "<function="@);
    assert(rescue::lowered("</function>"@) =~= "</function>"@);
    assert(rescue::lowered("<parameter="@) =~= "<parameter="@);
    assert(rescue::lowered("</parameter>"@) =~= "</parameter>"@);
    assert(rescue::lowered(">"@) =~= ">"@);
}

spec fn are_parameters(parameters: Seq<(Seq<char>, Seq<char>)>) -> bool {
    forall|i: int|
        0 <= i < parameters.len() ==> is_name((#[trigger] parameters[i]).0) && is_plain(
            parameters[i].1,
        )
}

proof fn lemma_parameters_inner(parameters: Seq<(Seq<char>, Seq<char>)>)
    requires
        are_parameters(parameters),
    ensures
        is_inner(written_parameters(parameters)),
    decreases parameters.len(),
{
    if parameters.len() > 0 {
        let rest = parameters.skip(1);
        let (key, value) = parameters[0];
        assert(is_name(parameters[0].0) && is_plain(parameters[0].1));
        assert forall|i: int| 0 <= i < rest.len() implies is_name((#[trigger] rest[i]).0)
            && is_plain(rest[i].1) by {
            assert(is_name(parameters[i + 1].0));
        }
        lemma_parameters_inner(rest);
        lemma_tags();
        lemma_name_is_plain(key);
        lemma_inner_add("<parameter="@, key);
        lemma_inner_add("<parameter="@ + key, ">"@);
        lemma_inner_add("<parameter="@ + key + ">"@, value);
        lemma_inner_add("<parameter="@ + key + ">"@ + value, "</parameter>"@);
        lemma_inner_add(written_parameter(parameters[0]), written_parameters(rest));
    }
}

proof fn lemma_name_end(text: Seq<char>, from: int, end: int)
    requires
        0 <= from <= end < text.len(),
        forall|i: int| from <= i < end ==> rescue::is_name_char(#[trigger] text[i]),
        !rescue::is_name_char(text[end]),
    ensures
        rescue::name_end(text, from) == end,
    decreases end - from,
{
    if from < end {
        assert(rescue::is_name_char(text[from]));
        lemma_name_end(text, from + 1, end);
    }
}

proof fn lemma_char(text: Seq<char>, c: char, at: int)
    requires
        0 <= at < text.len(),
        text[at] == c,
    ensures
        text::char_from(text, c, at) == Some(at),
{
}

/// Where the parts of a written parameter are found.
proof fn lemma_parameter_parts(
    body: Seq<char>,
    head: Seq<char>,
    parameter: (Seq<char>, Seq<char>),
    more: Seq<char>,
)
    requires
        is_name(parameter.0),
        is_plain(parameter.1),
        body == head + written_parameter(parameter) + more,
    ensures
        ({
            let lower = rescue::lowered(body);
            let at = head.len() as int;
            let key_start = at + 11;
            let key_end = key_start + parameter.0.len();
            let end = key_end + 1 + parameter.1.len();
            &&& text::occurs_at(lower, "<parameter="@, at)
            &&& rescue::name_end(lower, key_start) == key_end
            &&& text::char_from(lower, '>', key_end) == Some(key_end)
            &&& text::find_from(lower, "</parameter>"@, key_end + 1) == Some(end)
            &&& lower.subrange(key_start, key_end) == parameter.0
            &&& body.subrange(key_end + 1, end) == parameter.1
            &&& end + 12 <= body.len() == lower.len()
            &&& (head + written_parameter(parameter)).len() == end + 12
        }),
{
    let (key, value) = parameter;
    let lower = rescue::lowered(body);
    lemma_tags();
    lemma_lowered_tags();
    lemma_name_is_plain(key);
    let open = "<parameter="@;
    let shut = "</parameter>"@;
    let at = head.len() as int;
    let key_start = at + 11;
    let key_end = key_start + key.len();
    let end = key_end + 1 + value.len();
    assert(text::occurs_at(lower, open, at)) by {
        assert(body =~= head + open + (key + ">"@ + value + shut + more));
        lemma_lowered_part(body, head, open, key + ">"@ + value + shut + more);
    }
    assert(text::occurs_at(lower, shut, end)) by {
        assert(body =~= (head + open + key + ">"@ + value) + shut + more);
        lemma_lowered_part(body, head + open + key + ">"@ + value, shut, more);
    }
    assert(rescue::name_end(lower, key_start) == key_end && lower.subrange(key_start, key_end)
        == key && text::char_from(lower, '>', key_end) == Some(key_end)) by {
        assert forall|i: int| key_start <= i < key_end implies rescue::is_name_char(
            #[trigger] lower[i],
        ) && lower[i] == key[i - key_start] by {
            assert(body[i] == key[i - key_start]);
            assert(is_small(key[i - key_start]));
        }
        assert(body[key_end] == '>');
        assert(lower[key_end] == '>');
        lemma_name_end(lower, key_start, key_end);
        lemma_char(lower, '>', key_end);
        assert(lower.subrange(key_start, key_end) =~= key);
    }
    assert(text::find_from(lower, shut, key_end + 1) == Some(end)) by {
        assert forall|i: int| key_end + 1 <= i < end implies !#[trigger] text::occurs_at(
            lower,
            shut,
            i,
        ) by {
            if text::occurs_at(lower, shut, i) {
                lemma_tag_in_lower(body, shut, i, '/');
                assert(body[i] == value[i - key_end - 1]);
            }
        }
        lemma_find(lower, shut, key_end + 1, end);
    }
    assert(body.subrange(key_end + 1, end) =~= value);
}

/// No parameter begins in what stands before the written ones.
proof fn lemma_no_parameter(body: Seq<char>, from: int, to: int)
    requires
        0 <= from <= to <= body.len(),
        forall|i: int|
            from <= i < to ==> !(#[trigger] body[i] == '<' && i + 1 < body.len()
                && rescue::lower_char(body[i + 1]) == 'p'),
    ensures
        forall|i: int|
            from <= i < to ==> !#[trigger] text::occurs_at(
                rescue::lowered(body),
                "<parameter="@,
                i,
            ),
{
    lemma_tags();
    assert forall|i: int| from <= i < to implies !#[trigger] text::occurs_at(
        rescue::lowered(body),
        "<parameter="@,
        i,
    ) by {
        if text::occurs_at(rescue::lowered(body), "<parameter="@, i) {
            lemma_tag_in_lower(body, "<parameter="@, i, 'p');
        }
    }
}

/// The parameters that are written from `from` on are read.
proof fn lemma_parameters_read(
    body: Seq<char>,
    head: Seq<char>,
    parameters: Seq<(Seq<char>, Seq<char>)>,
    tail: Seq<char>,
    known: Seq<(Seq<char>, Seq<char>)>,
    from: int,
)
    requires
        are_parameters(parameters),
        body == head + written_parameters(parameters) + tail,
        0 <= from <= head.len(),
        forall|i: int|
            from <= i < head.len() ==> !(#[trigger] body[i] == '<' && i + 1 < body.len()
                && rescue::lower_char(body[i + 1]) == 'p'),
        forall|i: int|
            0 <= i < tail.len() && #[trigger] tail[i] == '<' ==> i + 1 < tail.len()
                && rescue::lower_char(tail[i + 1]) != 'p',
    ensures
        rescue::parameters_from(body, rescue::lowered(body), from, known) == Some(
            known + parameters.map_values(
                |parameter: (Seq<char>, Seq<char>)| (parameter.0, text::trimmed(parameter.1)),
            ),
        ),
    decreases parameters.len(),
{
    let lower = rescue::lowered(body);
    let read = parameters.map_values(
        |parameter: (Seq<char>, Seq<char>)| (parameter.0, text::trimmed(parameter.1)),
    );
    let open = "<parameter="@;
    lemma_no_parameter(body, from, head.len() as int);
    if parameters.len() == 0 {
        assert(body =~= head + tail);
        assert(known + read =~= known);
        assert forall|i: int| head.len() <= i < body.len() implies !(#[trigger] body[i] == '<' && i
            + 1 < body.len() && rescue::lower_char(body[i + 1]) == 'p') by {
            assert(body[i] == tail[i - head.len()]);
        }
        lemma_no_parameter(body, head.len() as int, body.len() as int);
        text::lemma_find_from(lower, open, from);
        lemma_tags();
    } else {
        let (key, value) = parameters[0];
        let rest = parameters.skip(1);
        assert(is_name(parameters[0].0) && is_plain(parameters[0].1));
        let more = written_parameters(rest) + tail;
        let behind = head + written_parameter(parameters[0]);
        let at = head.len() as int;
        let next = at + 11 + key.len() + 1 + value.len() + 12;
        assert(body =~= behind + more);
        lemma_parameter_parts(body, head, parameters[0], more);
        lemma_find(lower, open, from, at);
        let longer = known.push((key, text::trimmed(value)));
        assert(body =~= behind + written_parameters(rest) + tail);
        assert forall|i: int| 0 <= i < rest.len() implies is_name((#[trigger] rest[i]).0)
            && is_plain(rest[i].1) by {
            assert(is_name(parameters[i + 1].0));
        }
        lemma_parameters_read(body, behind, rest, tail, longer, next);
        lemma_tags();
        assert(longer + rest.map_values(
            |parameter: (Seq<char>, Seq<char>)| (parameter.0, text::trimmed(parameter.1)),
        ) =~= known + read);
        assert(rescue::parameters_from(body, lower, from, known) == rescue::parameters_from(
            body,
            lower,
            next,
            longer,
        ));
    }
}

/// A part of a text that is in lower case stands at its place in the text in lower case.
proof fn lemma_lowered_part(body: Seq<char>, before: Seq<char>, tag: Seq<char>, after: Seq<char>)
    requires
        body == before + tag + after,
        rescue::lowered(tag) == tag,
    ensures
        text::occurs_at(rescue::lowered(body), tag, before.len() as int),
        rescue::lowered(body).len() == body.len(),
{
    let lower = rescue::lowered(body);
    assert(lower.subrange(before.len() as int, (before.len() + tag.len()) as int) =~= tag) by {
        assert forall|i: int| 0 <= i < tag.len() implies lower[before.len() + i] == tag[i] by {
            assert(rescue::lowered(tag)[i] == tag[i]);
            assert(body[before.len() + i] == tag[i]);
        }
    }
}

/// A tag in the text in lower case begins with the same sign in the text, and its second character
/// is the same but for the case.
proof fn lemma_tag_in_lower(body: Seq<char>, tag: Seq<char>, at: int, second: char)
    requires
        text::occurs_at(rescue::lowered(body), tag, at),
        tag.len() >= 2,
        tag[0] == '<',
        tag[1] == second,
    ensures
        0 <= at < body.len() - 1,
        body[at] == '<',
        rescue::lower_char(body[at + 1]) == second,
{
    let lower = rescue::lowered(body);
    assert(lower.subrange(at, at + tag.len())[0] == '<');
    assert(lower.subrange(at, at + tag.len())[1] == second);
    let c = body[at];
    assert(rescue::lower_char(c) == '<');
    if 'A' <= c <= 'Z' {
        assert(rescue::lower_char(c) as int == c as int + 32);
    }
}

/// A call that is written is read.
proof fn lemma_call_read(call: RawCallView)
    requires
        can_be_written(call),
    ensures
        rescue::call_in(written_inside(call), rescue::lowered(written_inside(call))) == Some(
            as_read(call),
        ),
{
    let body = written_inside(call);
    let lower = rescue::lowered(body);
    lemma_tags();
    lemma_lowered_tags();
    lemma_name_is_plain(call.name);
    let tag = "<function="@;
    let inside = written_parameters(call.parameters);
    let before = "<tool_call"@ + ">"@;
    assert(body =~= before + tag + (call.name + ">"@ + inside + "</function>"@));
    lemma_lowered_part(body, before, tag, call.name + ">"@ + inside + "</function>"@);
    assert forall|i: int| 0 <= i < 11 implies !#[trigger] text::occurs_at(lower, tag, i) by {
        if text::occurs_at(lower, tag, i) {
            lemma_tag_in_lower(body, tag, i, 'f');
            assert(body[i] == before[i]);
            if i > 0 && i < 10 {
                assert(before[i] == "<tool_call"@[i]);
            }
            assert(i == 0);
            assert(body[1] == "<tool_call"@[1]);
        }
    }
    lemma_find(lower, tag, 0, 11);
    let start = 21int;
    let end = start + call.name.len();
    assert forall|i: int| start <= i < end implies rescue::is_name_char(#[trigger] lower[i])
        && lower[i] == call.name[i - start] by {
        assert(body[i] == call.name[i - start]);
        assert(is_small(call.name[i - start]));
    }
    assert(body[end] == '>');
    assert(lower[end] == '>');
    lemma_name_end(lower, start, end);
    assert(lower.subrange(start, end) =~= call.name);
    let head = before + tag + call.name + ">"@;
    assert(body =~= head + inside + "</function>"@);
    assert forall|i: int| 0 <= i < head.len() implies !(#[trigger] body[i] == '<' && i + 1
        < body.len() && rescue::lower_char(body[i + 1]) == 'p') by {
        if body[i] == '<' {
            if i < 10 {
                assert(body[i] == "<tool_call"@[i]);
                assert(i == 0);
                assert(body[1] == "<tool_call"@[1]);
            } else if 11 <= i < 21 {
                assert(body[i] == tag[i - 11]);
                assert(i == 11);
                assert(body[12] == tag[1]);
            } else if 21 <= i < end {
                assert(body[i] == call.name[i - start]);
            }
        }
    }
    lemma_parameters_read(body, head, call.parameters, "</function>"@, Seq::empty(), 0);
    assert(Seq::<(Seq<char>, Seq<char>)>::empty() + as_read(call).parameters =~= as_read(
        call,
    ).parameters);
}

proof fn lemma_inside_is_inner(call: RawCallView)
    requires
        can_be_written(call),
    ensures
        is_inner(written_inside(call)),
{
    lemma_tags();
    lemma_name_is_plain(call.name);
    lemma_parameters_inner(call.parameters);
    let rest = ">"@ + "<function="@ + call.name + ">"@ + written_parameters(call.parameters);
    lemma_inner_add(">"@, "<function="@);
    lemma_inner_add(">"@ + "<function="@, call.name);
    lemma_inner_add(">"@ + "<function="@ + call.name, ">"@);
    lemma_inner_add(
        ">"@ + "<function="@ + call.name + ">"@,
        written_parameters(call.parameters),
    );
    lemma_inner_add(rest, "</function>"@);
    lemma_inner_add("<tool_call"@, rest + "</function>"@);
}

/// Where the parts of a written call are found.
proof fn lemma_call_parts(
    text: Seq<char>,
    head: Seq<char>,
    plain: Seq<char>,
    call: RawCallView,
    rest: Seq<char>,
)
    requires
        text == head + plain + written(call) + rest,
        is_plain(plain),
        can_be_written(call),
    ensures
        ({
            let lower = rescue::lowered(text);
            let start = head.len() + plain.len();
            let end = start + written_inside(call).len();
            &&& text::find_from(lower, "<tool_call"@, head.len() as int) == Some(start as int)
            &&& text::find_from(lower, "</tool_call>"@, (start + 10) as int) == Some(
                end as int,
            )
            &&& text.subrange(start as int, end as int) == written_inside(call)
            &&& lower.subrange(start as int, end as int) == rescue::lowered(written_inside(call))
            &&& end + 12 <= lower.len() == text.len()
            &&& (head + plain + written(call)).len() == end + 12
        }),
{
    let lower = rescue::lowered(text);
    let open = "<tool_call"@;
    let shut = "</tool_call>"@;
    let inside = written_inside(call);
    let from = head.len() as int;
    let start = from + plain.len();
    let end = start + inside.len();
    lemma_tags();
    lemma_lowered_tags();
    let body = ">"@ + "<function="@ + call.name + ">"@ + written_parameters(call.parameters)
        + "</function>"@;
    assert(inside == open + body);
    assert(text::find_from(lower, open, from) == Some(start)) by {
        assert(text =~= (head + plain) + open + (body + shut + rest));
        lemma_lowered_part(text, head + plain, open, body + shut + rest);
        assert forall|i: int| from <= i < start implies !#[trigger] text::occurs_at(
            lower,
            open,
            i,
        ) by {
            if text::occurs_at(lower, open, i) {
                lemma_tag_in_lower(text, open, i, 't');
                assert(text[i] == plain[i - from]);
            }
        }
        lemma_find(lower, open, from, start);
    }
    assert(text =~= (head + plain) + inside + (shut + rest));
    assert(text::find_from(lower, shut, start + 10) == Some(end)) by {
        assert(text =~= (head + plain + inside) + shut + rest);
        lemma_lowered_part(text, head + plain + inside, shut, rest);
        lemma_inside_is_inner(call);
        assert forall|i: int| start + 10 <= i < end implies !#[trigger] text::occurs_at(
            lower,
            shut,
            i,
        ) by {
            if text::occurs_at(lower, shut, i) {
                lemma_tag_in_lower(text, shut, i, '/');
                assert(text[i] == inside[i - start]);
                assert(lower.subrange(i, i + 12)[2] == 't');
                assert(text[i + 1] == inside[i - start + 1]);
                assert(text[i + 2] == inside[i - start + 2]);
                lemma_slash(text[i + 1]);
            }
        }
        lemma_find(lower, shut, start + 10, end);
    }
    assert(text.subrange(start, end) =~= inside);
    assert(lower.subrange(start, end) =~= rescue::lowered(inside));
}

/// The calls that are written from `head` on are read behind those that are known.
proof fn lemma_calls_read(
    text: Seq<char>,
    head: Seq<char>,
    texts: Seq<Seq<char>>,
    calls: Seq<RawCallView>,
    tail: Seq<char>,
    known: Seq<RawCallView>,
)
    requires
        text == head + written_all(texts, calls) + tail,
        texts.len() == calls.len(),
        forall|i: int| 0 <= i < calls.len() ==> can_be_written(#[trigger] calls[i]),
        forall|i: int| 0 <= i < texts.len() ==> is_plain(#[trigger] texts[i]),
        is_plain(tail),
    ensures
        rescue::calls_from(text, rescue::lowered(text), head.len() as int, known) == Some(
            known + calls.map_values(|call: RawCallView| as_read(call)),
        ),
    decreases calls.len(),
{
    let lower = rescue::lowered(text);
    let read = calls.map_values(|call: RawCallView| as_read(call));
    let open = "<tool_call"@;
    let from = head.len() as int;
    lemma_tags();
    if calls.len() == 0 {
        assert(text =~= head + tail);
        text::lemma_find_from(lower, open, from);
        if let Some(i) = text::find_from(lower, open, from) {
            lemma_tag_in_lower(text, open, i, 't');
            assert(text[i] == tail[i - from]);
        }
        assert(known + read =~= known);
    } else {
        let call = calls[0];
        let plain = texts[0];
        assert(can_be_written(calls[0]) && is_plain(texts[0]));
        let after = written_all(texts.skip(1), calls.skip(1));
        let behind = head + plain + written(call);
        assert(text =~= behind + (after + tail));
        lemma_call_parts(text, head, plain, call, after + tail);
        lemma_call_read(call);
        assert(text =~= behind + after + tail);
        assert forall|i: int| 0 <= i < calls.skip(1).len() implies can_be_written(
            #[trigger] calls.skip(1)[i],
        ) by {
            assert(can_be_written(calls[i + 1]));
        }
        assert forall|i: int| 0 <= i < texts.skip(1).len() implies is_plain(
            #[trigger] texts.skip(1)[i],
        ) by {
            assert(is_plain(texts[i + 1]));
        }
        let longer = known.push(as_read(call));
        lemma_calls_read(text, behind, texts.skip(1), calls.skip(1), tail, longer);
        assert(longer + calls.skip(1).map_values(|call: RawCallView| as_read(call)) =~= known
            + read);
        assert(rescue::calls_from(text, lower, from, known) == rescue::calls_from(
            text,
            lower,
            behind.len() as int,
            longer,
        ));
    }
}

proof fn lemma_slash(c: char)
    requires
        rescue::lower_char(c) == '/',
    ensures
        c == '/',
{
    if 'A' <= c <= 'Z' {
        assert(rescue::lower_char(c) as int == c as int + 32);
    }
}

/// Calls that a model writes into its text are read back, all of them and in order, with any text
/// before, between and behind them.
pub proof fn written_calls_are_read(texts: Seq<Seq<char>>, calls: Seq<RawCallView>, tail: Seq<char>)
    requires
        texts.len() == calls.len() > 0,
        forall|i: int| 0 <= i < calls.len() ==> can_be_written(#[trigger] calls[i]),
        forall|i: int| 0 <= i < texts.len() ==> is_plain(#[trigger] texts[i]),
        is_plain(tail),
    ensures
        rescue::raw_calls_in(written_all(texts, calls) + tail) == Some(
            calls.map_values(|call: RawCallView| as_read(call)),
        ),
{
    let text = written_all(texts, calls) + tail;
    assert(text =~= Seq::<char>::empty() + written_all(texts, calls) + tail);
    lemma_calls_read(text, Seq::empty(), texts, calls, tail, Seq::empty());
    let read = calls.map_values(|call: RawCallView| as_read(call));
    assert(Seq::<RawCallView>::empty() + read =~= read);
}

/// The calls of an answer are those of its texts, one text after the other; none is made where one
/// of its texts gives none.
pub proof fn answer_is_rescued_whole(a: Seq<ContentBlock>, b: Seq<ContentBlock>, block: ContentBlock)
    ensures
        rescue::rescued_all(a + b) == (match (rescue::rescued_all(a), rescue::rescued_all(b)) {
            (Some(first), Some(second)) => Some(first + second),
            _ => None,
        }),
        rescue::rescued_all(seq![block]) == (match block {
            ContentBlock::Text { text } => rescue::rescued(text@),
            _ => Some(Seq::<RescuedView>::empty()),
        }),
        rescue::names_in(a + b) == rescue::names_in(a) + rescue::names_in(b),
        rescue::names_in(seq![block]) == (match block {
            ContentBlock::Text { text } => rescue::declared_names(text@),
            _ => Seq::<Seq<char>>::empty(),
        }),
        rescue::rescued_blocks(a) == (match rescue::rescued_all(a) {
            Some(calls) if calls.len() > 0 => Some(calls),
            _ => None,
        }),
    decreases b.len(),
{
    if b.len() == 0 {
        assert(a + b =~= a);
        if let Some(first) = rescue::rescued_all(a) {
            assert(first + Seq::<RescuedView>::empty() =~= first);
        }
        assert(rescue::names_in(a) + rescue::names_in(b) =~= rescue::names_in(a));
    } else {
        answer_is_rescued_whole(a, b.drop_last(), block);
        assert((a + b).drop_last() =~= a + b.drop_last());
        if let (Some(first), Some(second)) = (
            rescue::rescued_all(a),
            rescue::rescued_all(b.drop_last()),
        ) {
            if let ContentBlock::Text { text } = b.last() {
                if let Some(calls) = rescue::rescued(text@) {
                    assert(first + second + calls =~= first + (second + calls));
                }
            }
        }
        assert(rescue::names_in(a + b) =~= rescue::names_in(a) + rescue::names_in(b));
    }
    assert(seq![block].drop_last() =~= Seq::empty());
    assert(rescue::rescued_all(Seq::<ContentBlock>::empty()) == Some(Seq::<RescuedView>::empty()));
    assert(rescue::names_in(Seq::<ContentBlock>::empty()) == Seq::<Seq<char>>::empty());
    if let ContentBlock::Text { text } = block {
        if let Some(calls) = rescue::rescued(text@) {
            assert(Seq::<RescuedView>::empty() + calls =~= calls);
        }
        assert(Seq::<Seq<char>>::empty() + rescue::declared_names(text@)
            =~= rescue::declared_names(text@));
    }
}

/// A name that a text declares, in lower case.
pub open spec fn declares(text: Seq<char>, name: Seq<char>, at: int) -> bool {
    let lower = rescue::lowered(text);
    let start = at + "<function="@.len();
    &&& 0 <= at
    &&& text::occurs_at(lower, "<function="@, at)
    &&& name.len() > 0
    &&& text::occurs_at(lower, name, start)
    &&& forall|i: int| 0 <= i < name.len() ==> rescue::is_name_char(#[trigger] name[i])
    &&& start + name.len() == lower.len() || !rescue::is_name_char(lower[(start + name.len()) as int])
}

/// The names that are told are those that the text declares, each once, in any text that has the tag
/// of a call; other texts declare none. A tag right behind a name is not looked at.
pub proof fn declared_names_are_told(text: Seq<char>, name: Seq<char>, at: int)
    ensures
        !text::has(rescue::lowered(text), "<tool_call"@) ==> rescue::declared_names(text).len() == 0,
        rescue::declared_names(text).no_duplicates(),
        text::has(rescue::lowered(text), "<tool_call"@) && declares(text, name, at) && (at == 0 || !(
        rescue::is_name_char(rescue::lowered(text)[at - 1]) || rescue::lowered(text)[at - 1] == '='))
            ==> rescue::declared_names(text).contains(name),
        rescue::declared_names(text).contains(name) ==> exists|k: int| declares(text, name, k),
{
    let lower = rescue::lowered(text);
    lemma_names(text, lower, 0, Seq::empty(), name, at);
}

proof fn lemma_name_span(text: Seq<char>, from: int)
    requires
        0 <= from <= text.len(),
    ensures
        from <= rescue::name_end(text, from) <= text.len(),
        forall|i: int|
            from <= i < rescue::name_end(text, from) ==> rescue::is_name_char(#[trigger] text[i]),
        rescue::name_end(text, from) < text.len() ==> !rescue::is_name_char(
            text[rescue::name_end(text, from)],
        ),
    decreases text.len() - from,
{
    if from < text.len() && rescue::is_name_char(text[from]) {
        lemma_name_span(text, from + 1);
    }
}

proof fn lemma_names(
    text: Seq<char>,
    lower: Seq<char>,
    from: int,
    known: Seq<Seq<char>>,
    name: Seq<char>,
    at: int,
)
    requires
        lower == rescue::lowered(text),
        0 <= from,
        known.no_duplicates(),
    ensures
        rescue::names_from(lower, from, known).no_duplicates(),
        known.contains(name) ==> rescue::names_from(lower, from, known).contains(name),
        from <= at && declares(text, name, at) && (at == 0 || !(rescue::is_name_char(lower[at - 1])
            || lower[at - 1] == '=')) ==> rescue::names_from(lower, from, known).contains(name),
        rescue::names_from(lower, from, known).contains(name) ==> known.contains(name) || exists|
            k: int,
        |
            declares(text, name, k),
    decreases lower.len() - from,
{
    let tag = "<function="@;
    lemma_tags();
    text::lemma_find_from(lower, tag, from);
    if let Some(found) = text::find_from(lower, tag, from) {
        let start = found + 10;
        lemma_name_span(lower, start);
        let end = rescue::name_end(lower, start);
        let here = lower.subrange(start, end);
        let next = if here.len() == 0 || known.contains(here) {
            known
        } else {
            known.push(here)
        };
        if here.len() > 0 {
            assert(declares(text, here, found)) by {
                assert(lower.subrange(start, start + here.len()) =~= here);
            }
        }
        if !known.contains(here) {
            lemma_pushed(known, here, name);
        }
        if declares(text, name, at) && found == at {
            lemma_same_name(lower, start, end, name);
            assert(next.contains(name));
        }
        if from <= end < lower.len() {
            if declares(text, name, at) && found < at {
                // The tag cannot begin within this tag or within its name.
                if at < start {
                    assert(lower.subrange(found, start)[at - found] == tag[at - found]);
                    assert(lower.subrange(at, at + 10)[0] == '<');
                    assert(lower[at] == '<');
                }
                assert(lower.subrange(at, at + 10)[0] == '<');
                assert(lower[at] == '<');
                if at < end {
                    assert(rescue::is_name_char(lower[at]));
                }
                if at == end && end == start {
                    assert(lower.subrange(found, start)[9] == tag[9]);
                    reveal_strlit("<function=");
                    assert(lower[at - 1] == '=');
                }
            }
            lemma_names(text, lower, end + 1, next, name, at);
        } else if declares(text, name, at) && found < at {
            assert(lower.subrange(at, at + 10)[0] == '<');
            assert(lower[at] == '<');
            if at < start {
                assert(lower.subrange(found, start)[at - found] == tag[at - found]);
            } else {
                assert(rescue::is_name_char(lower[at]));
            }
        }
    }
}

proof fn lemma_pushed(known: Seq<Seq<char>>, here: Seq<char>, name: Seq<char>)
    requires
        known.no_duplicates(),
        !known.contains(here),
    ensures
        known.push(here).no_duplicates(),
        known.push(here).contains(name) == (known.contains(name) || name == here),
{
    let more = known.push(here);
    assert(more[known.len() as int] == here);
    if known.contains(name) {
        let i = choose|i: int| 0 <= i < known.len() && known[i] == name;
        assert(more[i] == name);
    }
    if more.contains(name) {
        let i = choose|i: int| 0 <= i < more.len() && more[i] == name;
        if i < known.len() {
            assert(known[i] == name);
        }
    }
    assert forall|i: int, j: int| 0 <= i < more.len() && 0 <= j < more.len() && i != j implies more[i]
        != more[j] by {
        if i < known.len() && j == known.len() && known[i] == here {
            assert(known.contains(here));
        }
        if j < known.len() && i == known.len() && known[j] == here {
            assert(known.contains(here));
        }
    }
}

proof fn lemma_same_name(lower: Seq<char>, start: int, end: int, name: Seq<char>)
    requires
        0 <= start <= end <= lower.len(),
        end == rescue::name_end(lower, start),
        text::occurs_at(lower, name, start),
        forall|i: int| 0 <= i < name.len() ==> rescue::is_name_char(#[trigger] name[i]),
        start + name.len() == lower.len() || !rescue::is_name_char(
            lower[(start + name.len()) as int],
        ),
    ensures
        lower.subrange(start, end) == name,
{
    lemma_name_span(lower, start);
    let stop = start + name.len();
    assert(lower.subrange(start, stop) == name);
    if end < stop {
        assert(name[end - start] == lower[end]);
    }
    if stop < end {
        assert(rescue::is_name_char(lower[stop as int]));
    }
}

} // verus!
