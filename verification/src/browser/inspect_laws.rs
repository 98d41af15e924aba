//! What holds of a search through scripts, of breakpoints and of the values of a page.
use vstd::prelude::*;

use crate::browser::bytes;
use crate::browser::inspect;
use crate::browser::inspect::{SEARCH_SKIP_LEN, SOURCE_BYTES};
use crate::browser::recon::{MatchView, PausedView, ScriptView};
use crate::browser::remote;
use crate::browser::script_laws::says;
use crate::json::{JsonView, NumberView};
use crate::text;
use crate::text_laws;

verus! {

/// What was found before stays, and the hits of a script follow in their order, each with the
/// script's id and address, until as many are there as are wanted.
pub proof fn hits_are_told_in_order(
    matches: Seq<MatchView>,
    script: ScriptView,
    hits: Seq<JsonView>,
    max: nat,
    i: int,
)
    requires
        matches.len() <= max,
        0 <= i < hits.len(),
        matches.len() + i < max,
    ensures
        ({
            let told = inspect::with_hits(matches, script, hits, max);
            &&& told.len() == (if matches.len() + hits.len() < max {
                matches.len() + hits.len()
            } else {
                max
            })
            &&& told.take(matches.len() as int) == matches
            &&& told[matches.len() + i].script_id == script.script_id
            &&& told[matches.len() + i].url == script.url
            &&& forall|content: Seq<char>|
                #[trigger] says(hits[i], "lineContent"@, JsonView::Text(content))
                    ==> told[matches.len() + i].line_content == content
            &&& forall|line: u64|
                #[trigger] says(
                    hits[i],
                    "lineNumber"@,
                    JsonView::Number(NumberView::Unsigned(line)),
                ) && line <= i64::MAX ==> told[matches.len() + i].line_number == line
        }),
    decreases hits.len(),
{
    let told = inspect::with_hits(matches, script, hits, max);
    lemma_hits(matches, script, hits, max);
    assert(told[matches.len() + i] == inspect::hit_told(script, hits[i]));
    assert(told.take(matches.len() as int) =~= matches);
}

proof fn lemma_hits(matches: Seq<MatchView>, script: ScriptView, hits: Seq<JsonView>, max: nat)
    requires
        matches.len() <= max,
    ensures
        ({
            let told = inspect::with_hits(matches, script, hits, max);
            &&& told.len() == (if matches.len() + hits.len() < max {
                matches.len() + hits.len()
            } else {
                max
            })
            &&& forall|i: int| 0 <= i < matches.len() ==> #[trigger] told[i] == matches[i]
            &&& forall|i: int|
                matches.len() <= i < told.len() ==> #[trigger] told[i] == inspect::hit_told(
                    script,
                    hits[i - matches.len()],
                )
        }),
    decreases hits.len(),
{
    if hits.len() > 0 {
        lemma_hits(matches, script, hits.drop_last(), max);
    }
}

/// A search goes on at the next script that is not too long, and counts those that it passes over.
pub proof fn search_goes_on_at_the_next(scripts: Seq<ScriptView>, at: int, skipped: int, next: int)
    requires
        0 <= at <= next <= scripts.len(),
        forall|i: int| at <= i < next ==> (#[trigger] scripts[i]).length > SEARCH_SKIP_LEN,
        next < scripts.len() ==> scripts[next].length <= SEARCH_SKIP_LEN,
    ensures
        inspect::past_large(scripts, at, skipped) == (next, skipped + (next - at)),
    decreases next - at,
{
    if at < next {
        search_goes_on_at_the_next(scripts, at + 1, skipped + 1, next);
    }
}

/// A script is found by its address or by the end of it: the first such one is meant.
pub proof fn script_is_found_by_its_address(scripts: Seq<ScriptView>, url: Seq<char>, at: int)
    requires
        0 <= at <= scripts.len(),
        forall|i: int| 0 <= i < at ==> !url.is_suffix_of((#[trigger] scripts[i]).url),
        at < scripts.len() ==> url.is_suffix_of(scripts[at].url),
    ensures
        inspect::script_by_url(scripts, url, 0) == if at < scripts.len() {
            Some(at)
        } else {
            None
        },
{
    lemma_by_url(scripts, url, at, 0);
}

proof fn lemma_by_url(scripts: Seq<ScriptView>, url: Seq<char>, at: int, from: int)
    requires
        0 <= from <= at <= scripts.len(),
        forall|i: int| from <= i < at ==> !url.is_suffix_of((#[trigger] scripts[i]).url),
        at < scripts.len() ==> url.is_suffix_of(scripts[at].url),
    ensures
        inspect::script_by_url(scripts, url, from) == if at < scripts.len() {
            Some(at)
        } else {
            None
        },
    decreases at - from,
{
    if from < at {
        let address = scripts[from].url;
        if address == url {
            assert(url =~= address.subrange(address.len() - url.len(), address.len() as int));
        }
        lemma_by_url(scripts, url, at, from + 1);
    }
}

/// The lines that are asked for are shown: from the first to the last one wished for, or to the end
/// of the source.
pub proof fn wished_lines_are_shown(
    script_id: Seq<char>,
    url: Seq<char>,
    reply: JsonView,
    source: Seq<char>,
    first: i64,
    last: i64,
)
    requires
        says(reply, "scriptSource"@, JsonView::Text(source)),
        !bytes::is_longer(source, SOURCE_BYTES),
        0 <= first <= last < text::lines(source).len(),
        text::lines(source).len() <= u64::MAX,
    ensures
        inspect::source_told(script_id, url, reply, Some(first), Some(last)) matches JsonView::Object(
            told,
        ) && {
            let lines = text::lines(source);
            &&& told["scriptId"@] == JsonView::Text(script_id)
            &&& told["url"@] == JsonView::Text(url)
            &&& told["source"@] == JsonView::Text(
                text::joined(lines.subrange(first as int, last + 1), "\n"@),
            )
            &&& told["startLine"@] == JsonView::Number(NumberView::Unsigned(first as u64))
            &&& told["endLine"@] == JsonView::Number(NumberView::Unsigned((last + 1) as u64))
            &&& told["totalLines"@] == JsonView::Number(NumberView::Unsigned(lines.len() as u64))
            &&& told["truncated"@] == JsonView::Bool(false)
        },
        inspect::source_told(script_id, url, reply, None, None) matches JsonView::Object(told)
            && told["source"@] == JsonView::Text(text::joined(text::lines(source), "\n"@)),
{
    lemma_source_names();
    let lines = text::lines(source);
    assert(lines.subrange(0, lines.len() as int) =~= lines);
}

proof fn lemma_source_names()
    ensures
        "scriptId"@.len() == 8,
        "url"@.len() == 3,
        "startLine"@.len() == 9,
        "endLine"@.len() == 7,
        "totalLines"@.len() == 10,
        "truncated"@.len() == 9,
        "truncated"@ != "startLine"@,
        "source"@.len() == 6,
{
    reveal_strlit("scriptId");
    reveal_strlit("url");
    reveal_strlit("startLine");
    reveal_strlit("endLine");
    reveal_strlit("totalLines");
    reveal_strlit("truncated");
    reveal_strlit("source");
    assert("truncated"@[0] != "startLine"@[0]);
}

/// The hits of a text are counted from one; nothing said means the first.
pub proof fn hits_are_counted_from_one(occurrence: usize)
    ensures
        occurrence >= 1 ==> inspect::meant_hit(occurrence) + 1 == occurrence,
        inspect::meant_hit(0) == 0,
{
}

/// A breakpoint is asked for at its line, and under its condition where that says something.
pub proof fn breakpoint_is_asked_for(url: Seq<char>, line: i64, condition: Seq<char>)
    requires
        line >= 0,
    ensures
        inspect::breakpoint_params(url, line, None) matches JsonView::Object(plain) && {
            &&& plain["url"@] == JsonView::Text(url)
            &&& plain["lineNumber"@] == JsonView::Number(NumberView::Unsigned(line as u64))
            &&& !plain.contains_key("condition"@)
            &&& text::is_blank(condition) ==> inspect::breakpoint_params(url, line, Some(condition))
                == JsonView::Object(plain)
            &&& !text::is_blank(condition) ==> inspect::breakpoint_params(url, line, Some(condition))
                == JsonView::Object(plain.insert("condition"@, JsonView::Text(condition)))
        },
{
    reveal_strlit("url");
    reveal_strlit("lineNumber");
    reveal_strlit("columnNumber");
    reveal_strlit("condition");
    assert("url"@.len() == 3 && "lineNumber"@.len() == 10 && "columnNumber"@.len() == 12
        && "condition"@.len() == 9);
}

/// A value can be asked for where the page of that tab stands still and has such a call, and only
/// there.
pub proof fn paused_page_is_asked(paused: Option<PausedView>, tab: Seq<char>, frame: usize)
    ensures
        inspect::eval_refusal(paused, tab, frame) is None <==> (paused is Some && paused->0.tab_id
            == tab && frame < paused->0.frames.len()),
        paused is Some && paused->0.tab_id != tab ==> text::has(
            inspect::eval_refusal(paused, tab, frame)->0,
            paused->0.tab_id,
        ),
{
    if paused is Some && paused->0.tab_id != tab {
        text_laws::part_of_a_text_occurs(
            "暂停发生在 tab "@,
            paused->0.tab_id,
            ",不是当前 tab"@,
        );
    }
}

/// What an expression throws is told in its own words, and a value is not taken for it.
pub proof fn thrown_error_is_told(
    reply: JsonView,
    details: JsonView,
    exception: JsonView,
    said: Seq<char>,
)
    requires
        says(reply, "exceptionDetails"@, details),
    ensures
        inspect::thrown(reply) is Some,
        says(details, "exception"@, exception) && says(
            exception,
            "description"@,
            JsonView::Text(said),
        ) ==> inspect::thrown(reply) == Some(said),
        (details matches JsonView::Object(members) && !members.contains_key("exception"@)) && says(
            details,
            "text"@,
            JsonView::Text(said),
        ) ==> inspect::thrown(reply) == Some(said),
        forall|members: Map<Seq<char>, JsonView>|
            !members.contains_key("exceptionDetails"@) ==> #[trigger] inspect::thrown(
                JsonView::Object(members),
            ) is None,
{
}

/// A page that stands still can go one step on in three ways.
pub proof fn steps_are_three(direction: Seq<char>)
    ensures
        inspect::step_method("over"@) == Some("Debugger.stepOver"@),
        inspect::step_method("into"@) == Some("Debugger.stepInto"@),
        inspect::step_method("out"@) == Some("Debugger.stepOut"@),
        direction != "over"@ && direction != "into"@ && direction != "out"@
            ==> inspect::step_method(direction) is None,
{
    reveal_strlit("over");
    reveal_strlit("into");
    reveal_strlit("out");
    assert("over"@[0] != "into"@[0]);
    assert("out"@.len() == 3 && "over"@.len() == 4 && "into"@.len() == 4);
}

/// A text of a page is told as it is, nothing as nothing, and another value by its description.
pub proof fn value_is_told_as_text(value: JsonView, said: Seq<char>, members: Map<Seq<char>, JsonView>)
    ensures
        says(value, "value"@, JsonView::Text(said)) ==> remote::remote_text(value) == said,
        says(value, "value"@, JsonView::Null) ==> remote::remote_text(value) == "null"@,
        value == JsonView::Object(members) && !members.contains_key("value"@) && says(
            value,
            "description"@,
            JsonView::Text(said),
        ) && said.len() > 0 ==> remote::remote_text(value) == said,
        says(value, "value"@, JsonView::Bool(true)) && says(
            value,
            "description"@,
            JsonView::Text(said),
        ) && said.len() > 0 ==> remote::remote_text(value) == said,
{
}

/// A value of many parts without a description is told by its parts, each with its name and value.
pub proof fn parts_are_told(
    value: JsonView,
    members: Map<Seq<char>, JsonView>,
    kind: Seq<char>,
    preview: JsonView,
    part: JsonView,
    name: Seq<char>,
    told: Seq<char>,
)
    requires
        value == JsonView::Object(members),
        !members.contains_key("value"@),
        !members.contains_key("description"@),
        says(value, "subtype"@, JsonView::Text(kind)),
        kind == "array"@ || kind == "object"@ || kind == "map"@ || kind == "set"@ || kind == "regexp"@
            || kind == "date"@ || kind == "node"@,
        says(value, "preview"@, preview),
        says(preview, "properties"@, JsonView::Array(seq![part])),
        says(part, "name"@, JsonView::Text(name)),
        says(part, "value"@, JsonView::Text(told)),
    ensures
        remote::remote_text(value) == "{"@ + (name + ": "@ + told) + "}"@,
{
    reveal_strlit("error");
    reveal_strlit("array");
    reveal_strlit("object");
    reveal_strlit("map");
    reveal_strlit("set");
    reveal_strlit("regexp");
    reveal_strlit("date");
    reveal_strlit("node");
    assert("error"@.len() == 5 && "object"@.len() == 6 && "map"@.len() == 3 && "set"@.len() == 3
        && "regexp"@.len() == 6 && "date"@.len() == 4 && "node"@.len() == 4);
    assert("error"@[0] != "array"@[0]);
    let line = name + ": "@ + told;
    properties_are_told_in_order(Seq::empty(), seq![part], part, name, told);
    assert(remote::properties(seq![part]) == seq![line]);
    text_laws::joined_texts_follow_each_other(seq![line], seq![line], ", "@);
}

/// The parts of a value are told in their order, each with its name and its value.
pub proof fn properties_are_told_in_order(
    a: Seq<JsonView>,
    b: Seq<JsonView>,
    part: JsonView,
    name: Seq<char>,
    told: Seq<char>,
)
    requires
        says(part, "name"@, JsonView::Text(name)),
        says(part, "value"@, JsonView::Text(told)),
    ensures
        remote::properties(a + b) == remote::properties(a) + remote::properties(b),
        remote::properties(seq![part]) == seq![name + ": "@ + told],
    decreases b.len(),
{
    if b.len() > 0 {
        assert((a + b).drop_last() =~= a + b.drop_last());
        properties_are_told_in_order(a, b.drop_last(), part, name, told);
        assert(remote::properties(a + b) =~= remote::properties(a) + remote::properties(b));
    } else {
        assert(a + b =~= a);
        assert(remote::properties(a + b) =~= remote::properties(a) + remote::properties(b));
    }
    assert(seq![part].drop_last() =~= Seq::<JsonView>::empty());
    assert(remote::properties(Seq::<JsonView>::empty()) =~= Seq::<Seq<char>>::empty());
    assert(remote::properties(seq![part]) =~= seq![name + ": "@ + told]);
}

/// The value of an expression is handed out as it is; one that cannot be is described.
pub proof fn value_is_handed_out(value: JsonView, inner: JsonView, members: Map<Seq<char>, JsonView>)
    ensures
        says(value, "value"@, inner) && inner != JsonView::Null ==> remote::remote_value(value) == inner,
        value == JsonView::Object(members) && !members.contains_key("value"@) ==> (
        remote::remote_value(value) matches JsonView::Object(told) && {
            &&& says(value, "type"@, JsonView::Text("undefined"@)) ==> told["kind"@] == JsonView::Text(
                "undefined"@,
            )
            &&& says(value, "type"@, JsonView::Text("function"@)) ==> told["kind"@] == JsonView::Text(
                "function"@,
            )
        }),
{
    reveal_strlit("undefined");
    reveal_strlit("function");
    reveal_strlit("kind");
    reveal_strlit("description");
    reveal_strlit("preview");
    assert("undefined"@.len() == 9 && "function"@.len() == 8);
    assert("kind"@.len() == 4 && "description"@.len() == 11 && "preview"@.len() == 7);
}

/// The texts of a list are told in their order, and nothing that is no text.
pub proof fn texts_are_told_in_order(a: Seq<JsonView>, b: Seq<JsonView>, text: Seq<char>)
    ensures
        remote::texts_in(a + b) == remote::texts_in(a) + remote::texts_in(b),
        remote::texts_in(seq![JsonView::Text(text)]) == seq![text],
        remote::texts_in(seq![JsonView::Null]).len() == 0,
    decreases b.len(),
{
    if b.len() > 0 {
        assert((a + b).drop_last() =~= a + b.drop_last());
        texts_are_told_in_order(a, b.drop_last(), text);
        assert(remote::texts_in(a + b) =~= remote::texts_in(a) + remote::texts_in(b));
    } else {
        assert(a + b =~= a);
        assert(remote::texts_in(a + b) =~= remote::texts_in(a) + remote::texts_in(b));
    }
    assert(seq![JsonView::Text(text)].drop_last() =~= Seq::<JsonView>::empty());
    assert(seq![JsonView::Null].drop_last() =~= Seq::<JsonView>::empty());
    assert(remote::texts_in(Seq::<JsonView>::empty()) =~= Seq::<Seq<char>>::empty());
    assert(remote::texts_in(seq![JsonView::Text(text)]) =~= seq![text]);
}

/// The place that a message comes from is that of the latest call.
pub proof fn place_is_that_of_the_latest_call(
    stack: JsonView,
    frames: Seq<JsonView>,
    url: Seq<char>,
    line: u64,
)
    requires
        says(stack, "callFrames"@, JsonView::Array(frames)),
        frames.len() > 0,
        says(frames[0], "url"@, JsonView::Text(url)),
        says(frames[0], "lineNumber"@, JsonView::Number(NumberView::Unsigned(line))),
        line <= i64::MAX,
    ensures
        remote::stack_place(Some(stack)).0 == url,
        remote::stack_place(Some(stack)).1 == line,
{
}

} // verus!
