//! Tool calls that a model wrote into its text.
//!
//! Some models and gateways render a call as tags in the answer's text
//! (`<tool_call><function=name><parameter=key>value</parameter>…`) and send no call. Where all the
//! tags can be read, the calls are made; otherwise the model is told.
use vstd::prelude::*;
use vstd::string::*;

use crate::json;
use crate::json::{parse, Json, JsonView};
use crate::stream::ContentBlock;
use crate::text;
use crate::text::{ascii_alnum, cat2, cat3, chars_of, find_char, find_chars, join, slice_text, str_eq, trim};

verus! {

/// A letter of the English alphabet in lower case; any other character as it is.
pub open spec fn lower_char(c: char) -> char {
    if 'A' <= c <= 'Z' {
        (c as int + 32) as char
    } else {
        c
    }
}

/// A text with the letters of the English alphabet in lower case.
pub open spec fn lowered(text: Seq<char>) -> Seq<char> {
    text.map_values(|c: char| lower_char(c))
}

fn lower(text: &str) -> (chars: Vec<char>)
    ensures
        chars@ == lowered(text@),
{
    let chars = chars_of(text);
    let mut lower: Vec<char> = Vec::new();
    let mut i: usize = 0;
    while i < chars.len()
        invariant
            i <= chars@.len(),
            chars@ == text@,
            lower@ == lowered(text@).take(i as int),
        decreases chars@.len() - i,
    {
        let c: char = chars[i];
        let small: char = if 'A' <= c && c <= 'Z' {
            (c as u8 + 32) as char
        } else {
            c
        };
        lower.push(small);
        i += 1;
        assert(lowered(text@).take(i as int) =~= lowered(text@).take(i - 1).push(small));
    }
    assert(lowered(text@).take(text@.len() as int) =~= lowered(text@));
    lower
}

/// A character of a name.
pub open spec fn is_name_char(c: char) -> bool {
    text::is_alnum(c) || c == '_' || c == '-' || c == '.'
}

/// Where the name that begins at `from` ends.
pub open spec fn name_end(text: Seq<char>, from: int) -> int
    decreases text.len() - from,
{
    if 0 <= from < text.len() && is_name_char(text[from]) {
        name_end(text, from + 1)
    } else {
        from
    }
}

fn find_name_end(text: &Vec<char>, from: usize) -> (end: usize)
    requires
        from <= text@.len(),
    ensures
        end == name_end(text@, from as int),
        from <= end <= text@.len(),
        forall|i: int| from <= i < end ==> is_name_char(#[trigger] text@[i]),
{
    let mut end: usize = from;
    while end < text.len() && (ascii_alnum(text[end]) || text[end] == '_' || text[end] == '-'
        || text[end] == '.')
        invariant
            from <= end <= text@.len(),
            name_end(text@, from as int) == name_end(text@, end as int),
            forall|i: int| from <= i < end ==> is_name_char(#[trigger] text@[i]),
        decreases text@.len() - end,
    {
        end += 1;
    }
    end
}

/// The names that are declared from `from` on, each once, behind those that are known.
pub open spec fn names_from(text: Seq<char>, from: int, known: Seq<Seq<char>>) -> Seq<Seq<char>>
    decreases text.len() - from,
{
    match text::find_from(text, "<function="@, from) {
        Some(at) => {
            let start = at + "<function="@.len();
            let end = name_end(text, start);
            let name = text.subrange(start, end);
            let next = if name.len() == 0 || known.contains(name) {
                known
            } else {
                known.push(name)
            };
            if from <= end < text.len() {
                names_from(text, end + 1, next)
            } else {
                next
            }
        },
        None => known,
    }
}

/// The names of the calls that a text declares: only a text with both tags declares any.
pub open spec fn declared_names(text: Seq<char>) -> Seq<Seq<char>> {
    if text::has(lowered(text), "<tool_call"@) {
        names_from(lowered(text), 0, Seq::empty())
    } else {
        Seq::empty()
    }
}

fn holds(texts: &Vec<String>, text: &str) -> (yes: bool)
    ensures
        yes == text::views(texts@).contains(text@),
{
    let mut i: usize = 0;
    while i < texts.len()
        invariant
            i <= texts@.len(),
            forall|j: int| 0 <= j < i ==> text::views(texts@)[j] != text@,
        decreases texts@.len() - i,
    {
        if str_eq(texts[i].as_str(), text) {
            assert(text::views(texts@)[i as int] == text@);
            return true;
        }
        i += 1;
    }
    false
}

proof fn lemma_name_end(text: Seq<char>, from: int)
    requires
        0 <= from <= text.len(),
    ensures
        from <= name_end(text, from) <= text.len(),
    decreases text.len() - from,
{
    if from < text.len() && is_name_char(text[from]) {
        lemma_name_end(text, from + 1);
    }
}

/// The names of the calls that a text declares, in lower case, each once.
pub fn fake_tool_call_names(text: &str) -> (names: Vec<String>)
    ensures
        text::views(names@) == declared_names(text@),
{
    let chars = lower(text);
    let ghost lower = lowered(text@);
    let mut names: Vec<String> = Vec::new();
    assert(text::views(names@) =~= Seq::empty());
    proof {
        text::lemma_find_from(lower, "<tool_call"@, 0);
    }
    if find_chars(&chars, &chars_of("<tool_call"), 0).is_none() {
        return names;
    }
    let tag = chars_of("<function=");
    let total: usize = chars.len();
    let mut from: usize = 0;
    let mut more = true;
    while more
        invariant
            from <= total == chars@.len(),
            chars@ == lower,
            tag@ == "<function="@,
            more ==> names_from(lower, 0, Seq::empty()) == names_from(
                lower,
                from as int,
                text::views(names@),
            ),
            !more ==> names_from(lower, 0, Seq::empty()) == text::views(names@),
        decreases total - from, (if more {
            1int
        } else {
            0int
        }),
    {
        proof {
            text::lemma_find_from(lower, "<function="@, from as int);
        }
        match find_chars(&chars, &tag, from) {
            Some(at) => {
                let start: usize = at + tag.len();
                let end: usize = find_name_end(&chars, start);
                let name = slice_text(&chars, start, end);
                if end > start && !holds(&names, name.as_str()) {
                    assert(text::views(names@.push(name)) =~= text::views(names@).push(name@));
                    names.push(name);
                }
                if end < total {
                    from = end + 1;
                } else {
                    more = false;
                }
            },
            None => {
                more = false;
            },
        }
    }
    names
}

/// The names, each with its brackets.
pub open spec fn bracketed(names: Seq<Seq<char>>) -> Seq<Seq<char>> {
    names.map_values(|name: Seq<char>| name + "()"@)
}

/// What the model is told of calls that it wrote into its text.
pub fn fake_tool_call_feedback(names: &Vec<String>) -> (text: String)
    ensures
        text@
            == "[harness] 你上一条输出把工具调用写成了正文标签(<tool_call>/<function=…>),这些调用没有被执行:"@
            + text::joined(bracketed(text::views(names@)), ", "@)
            + "。\n请改用响应的原生 tool_calls 字段发起工具调用,不要输出 <tool_call> 之类的文本标签;若确实不需要调用工具,直接给出文字回答。"@,
{
    let mut listed: Vec<String> = Vec::new();
    let mut i: usize = 0;
    while i < names.len()
        invariant
            i <= names@.len(),
            listed@.len() == i,
            forall|j: int| 0 <= j < i ==> (#[trigger] listed@[j])@ == names@[j]@ + "()"@,
        decreases names@.len() - i,
    {
        listed.push(cat2(names[i].as_str(), "()"));
        i += 1;
    }
    assert(text::views(listed@) =~= bracketed(text::views(names@)));
    cat3(
        "[harness] 你上一条输出把工具调用写成了正文标签(<tool_call>/<function=…>),这些调用没有被执行:",
        join(&listed, ", ").as_str(),
        "。\n请改用响应的原生 tool_calls 字段发起工具调用,不要输出 <tool_call> 之类的文本标签;若确实不需要调用工具,直接给出文字回答。",
    )
}

/// A call as it stands in a text: its name, and its parameters as texts.
#[derive(Debug, PartialEq)]
pub struct RawCall {
    pub name: String,
    pub parameters: Vec<(String, String)>,
}

pub struct RawCallView {
    pub name: Seq<char>,
    pub parameters: Seq<(Seq<char>, Seq<char>)>,
}

pub open spec fn pair_views(pairs: Seq<(String, String)>) -> Seq<(Seq<char>, Seq<char>)> {
    pairs.map_values(|pair: (String, String)| (pair.0@, pair.1@))
}

impl View for RawCall {
    type V = RawCallView;

    open spec fn view(&self) -> RawCallView {
        RawCallView { name: self.name@, parameters: pair_views(self.parameters@) }
    }
}

pub open spec fn raw_views(calls: Seq<RawCall>) -> Seq<RawCallView> {
    calls.map_values(|call: RawCall| call@)
}

/// The parameters of a call from `from` on, behind those that are known; `None` where one of them
/// cannot be read. `lower` is `body` in lower case.
pub open spec fn parameters_from(
    body: Seq<char>,
    lower: Seq<char>,
    from: int,
    known: Seq<(Seq<char>, Seq<char>)>,
) -> Option<Seq<(Seq<char>, Seq<char>)>>
    decreases lower.len() - from,
{
    match text::find_from(lower, "<parameter="@, from) {
        None => Some(known),
        Some(at) => {
            let key_start = at + "<parameter="@.len();
            let key_end = name_end(lower, key_start);
            match text::char_from(lower, '>', key_end) {
                None => None,
                Some(close) => match text::find_from(lower, "</parameter>"@, close + 1) {
                    None => None,
                    Some(end) => {
                        let next = end + "</parameter>"@.len();
                        if key_end == key_start || !(from < next <= lower.len()) {
                            None
                        } else {
                            parameters_from(
                                body,
                                lower,
                                next,
                                known.push(
                                    (
                                        lower.subrange(key_start, key_end),
                                        text::trimmed(body.subrange(close + 1, end)),
                                    ),
                                ),
                            )
                        }
                    },
                },
            }
        },
    }
}

/// The call that a block holds; `None` where it cannot be read.
pub open spec fn call_in(body: Seq<char>, lower: Seq<char>) -> Option<RawCallView> {
    match text::find_from(lower, "<function="@, 0) {
        None => None,
        Some(at) => {
            let start = at + "<function="@.len();
            let end = name_end(lower, start);
            match parameters_from(body, lower, 0, Seq::empty()) {
                Some(parameters) => if end == start {
                    None
                } else {
                    Some(RawCallView { name: lower.subrange(start, end), parameters })
                },
                None => None,
            }
        },
    }
}

/// The calls in the blocks from `from` on, behind those that are known; `None` where one of the
/// blocks cannot be read.
pub open spec fn calls_from(
    text: Seq<char>,
    lower: Seq<char>,
    from: int,
    known: Seq<RawCallView>,
) -> Option<Seq<RawCallView>>
    decreases lower.len() - from,
{
    match text::find_from(lower, "<tool_call"@, from) {
        None => Some(known),
        Some(start) => match text::find_from(
            lower,
            "</tool_call>"@,
            start + "<tool_call"@.len(),
        ) {
            None => None,
            Some(end) => match call_in(text.subrange(start, end), lower.subrange(start, end)) {
                None => None,
                Some(call) => {
                    let next = end + "</tool_call>"@.len();
                    if from < next <= lower.len() {
                        calls_from(text, lower, next, known.push(call))
                    } else {
                        None
                    }
                },
            },
        },
    }
}

/// The calls that a text holds; `None` where it holds none or one of them cannot be read.
pub open spec fn raw_calls_in(text: Seq<char>) -> Option<Seq<RawCallView>> {
    match calls_from(text, lowered(text), 0, Seq::empty()) {
        Some(calls) => if calls.len() > 0 {
            Some(calls)
        } else {
            None
        },
        None => None,
    }
}

fn read_parameters(body: &Vec<char>, lower: &Vec<char>) -> (parameters: Option<
    Vec<(String, String)>,
>)
    requires
        body@.len() == lower@.len(),
    ensures
        parameters_from(body@, lower@, 0, Seq::empty()) == (match parameters {
            Some(parameters) => Some(pair_views(parameters@)),
            None => None::<Seq<(Seq<char>, Seq<char>)>>,
        }),
{
    let open = chars_of("<parameter=");
    let shut = chars_of("</parameter>");
    let total: usize = lower.len();
    let mut list: Vec<(String, String)> = Vec::new();
    let mut from: usize = 0;
    assert(pair_views(list@) =~= Seq::empty());
    proof {
        reveal_strlit("</parameter>");
    }
    loop
        invariant
            from <= total == lower@.len(),
            body@.len() == lower@.len(),
            open@ == "<parameter="@,
            shut@ == "</parameter>"@,
            shut@.len() == 12,
            parameters_from(body@, lower@, 0, Seq::empty()) == parameters_from(
                body@,
                lower@,
                from as int,
                pair_views(list@),
            ),
        decreases total - from,
    {
        proof {
            text::lemma_find_from(lower@, "<parameter="@, from as int);
        }
        let at: usize = match find_chars(lower, &open, from) {
            Some(at) => at,
            None => {
                return Some(list);
            },
        };
        let key_start: usize = at + open.len();
        let key_end: usize = find_name_end(lower, key_start);
        let close: usize = match find_char(lower, '>', key_end) {
            Some(close) => close,
            None => {
                return None;
            },
        };
        proof {
            text::lemma_find_from(lower@, "</parameter>"@, close + 1);
        }
        let end: usize = match find_chars(lower, &shut, close + 1) {
            Some(end) => end,
            None => {
                return None;
            },
        };
        if key_end == key_start {
            return None;
        }
        let key = slice_text(lower, key_start, key_end);
        let raw = slice_text(body, close + 1, end);
        let pair = (key, trim(raw.as_str()));
        assert(pair_views(list@.push(pair)) =~= pair_views(list@).push((pair.0@, pair.1@)));
        list.push(pair);
        from = end + shut.len();
    }
}

fn read_call(body: &Vec<char>, lower: &Vec<char>) -> (call: Option<RawCall>)
    requires
        body@.len() == lower@.len(),
    ensures
        call_in(body@, lower@) == (match call {
            Some(call) => Some(call@),
            None => None::<RawCallView>,
        }),
{
    let tag = chars_of("<function=");
    let total: usize = lower.len();
    let at: usize = match find_chars(lower, &tag, 0) {
        Some(at) => at,
        None => {
            return None;
        },
    };
    let start: usize = at + tag.len();
    let end: usize = find_name_end(lower, start);
    if end == start {
        return None;
    }
    match read_parameters(body, lower) {
        Some(parameters) => Some(RawCall { name: slice_text(lower, start, end), parameters }),
        None => None,
    }
}

fn part(chars: &Vec<char>, from: usize, to: usize) -> (part: Vec<char>)
    requires
        from <= to <= chars@.len(),
    ensures
        part@ == chars@.subrange(from as int, to as int),
{
    let mut part: Vec<char> = Vec::new();
    let mut i: usize = from;
    while i < to
        invariant
            from <= i <= to <= chars@.len(),
            part@ == chars@.subrange(from as int, i as int),
        decreases to - i,
    {
        part.push(chars[i]);
        i += 1;
        assert(chars@.subrange(from as int, i as int) =~= chars@.subrange(from as int, i - 1).push(
            chars@[i - 1],
        ));
    }
    part
}

/// The calls that a text holds, with their parameters as texts; `None` where it holds none or one
/// of them cannot be read.
pub fn raw_calls(text: &str) -> (calls: Option<Vec<RawCall>>)
    ensures
        raw_calls_in(text@) == (match calls {
            Some(calls) => Some(raw_views(calls@)),
            None => None::<Seq<RawCallView>>,
        }),
{
    let chars = chars_of(text);
    let lower = lower(text);
    let open = chars_of("<tool_call");
    let shut = chars_of("</tool_call>");
    let total: usize = lower.len();
    let mut calls: Vec<RawCall> = Vec::new();
    let mut from: usize = 0;
    assert(raw_views(calls@) =~= Seq::empty());
    proof {
        reveal_strlit("</tool_call>");
    }
    loop
        invariant
            from <= total == lower@.len(),
            chars@ == text@,
            lower@ == lowered(text@),
            open@ == "<tool_call"@,
            shut@ == "</tool_call>"@,
            shut@.len() == 12,
            calls_from(text@, lower@, 0, Seq::empty()) == calls_from(
                text@,
                lower@,
                from as int,
                raw_views(calls@),
            ),
        decreases total - from,
    {
        proof {
            text::lemma_find_from(lower@, "<tool_call"@, from as int);
        }
        let start: usize = match find_chars(&lower, &open, from) {
            Some(start) => start,
            None => {
                return if calls.len() == 0 {
                    None
                } else {
                    Some(calls)
                };
            },
        };
        proof {
            text::lemma_find_from(lower@, "</tool_call>"@, start + open@.len());
        }
        let end: usize = match find_chars(&lower, &shut, start + open.len()) {
            Some(end) => end,
            None => {
                return None;
            },
        };
        match read_call(&part(&chars, start, end), &part(&lower, start, end)) {
            Some(call) => {
                assert(raw_views(calls@.push(call)) =~= raw_views(calls@).push(call@));
                calls.push(call);
            },
            None => {
                return None;
            },
        }
        from = end + shut.len();
    }
}

/// A call that was read from a text.
#[derive(Debug, PartialEq)]
pub struct RescuedCall {
    pub name: String,
    pub arguments: Json,
}

pub struct RescuedView {
    pub name: Seq<char>,
    pub arguments: JsonView,
}

impl View for RescuedCall {
    type V = RescuedView;

    open spec fn view(&self) -> RescuedView {
        RescuedView { name: self.name@, arguments: self.arguments@ }
    }
}

pub open spec fn rescued_views(calls: Seq<RescuedCall>) -> Seq<RescuedView> {
    calls.map_values(|call: RescuedCall| call@)
}

/// A parameter's value: what its text is read as, or else the text itself.
pub open spec fn value_or_text(raw: Seq<char>, value: Option<JsonView>) -> JsonView {
    match value {
        Some(value) => value,
        None => JsonView::Text(raw),
    }
}

/// A parameter's value, given what its text was read as.
pub fn parameter_value(raw: &str, value: Option<Json>) -> (json: Json)
    ensures
        json@ == value_or_text(
            raw@,
            match value {
                Some(value) => Some(value@),
                None => None,
            },
        ),
{
    match value {
        Some(value) => value,
        None => Json::text(raw),
    }
}

/// The arguments of a call: an object of its parameters, the later one of two with the same key.
pub open spec fn arguments_of(parameters: Seq<(Seq<char>, Seq<char>)>) -> Map<Seq<char>, JsonView>
    decreases parameters.len(),
{
    if parameters.len() == 0 {
        Map::empty()
    } else {
        let last = parameters.last();
        arguments_of(parameters.drop_last()).insert(
            last.0,
            value_or_text(last.1, json::parsed(last.1)),
        )
    }
}

/// The call with its arguments read.
pub open spec fn interpreted(call: RawCallView) -> RescuedView {
    RescuedView { name: call.name, arguments: JsonView::Object(arguments_of(call.parameters)) }
}

/// The calls that a text holds; `None` where it holds none or one of them cannot be read.
pub open spec fn rescued(text: Seq<char>) -> Option<Seq<RescuedView>> {
    match raw_calls_in(text) {
        Some(calls) => Some(calls.map_values(|call: RawCallView| interpreted(call))),
        None => None,
    }
}

fn interpret(call: &RawCall) -> (rescued: RescuedCall)
    ensures
        rescued@ == interpreted(call@),
{
    let ghost all = pair_views(call.parameters@);
    let none: Vec<(String, Json)> = Vec::new();
    assert(json::members(none@) == Map::<Seq<char>, JsonView>::empty());
    let mut arguments = Json::Object(none);
    let mut i: usize = 0;
    assert(arguments@ == JsonView::Object(arguments_of(all.take(0))));
    while i < call.parameters.len()
        invariant
            i <= call.parameters@.len(),
            all == pair_views(call.parameters@),
            arguments@ == JsonView::Object(arguments_of(all.take(i as int))),
        decreases call.parameters@.len() - i,
    {
        assert(all.take(i + 1).drop_last() =~= all.take(i as int));
        let raw = call.parameters[i].1.as_str();
        arguments.insert(call.parameters[i].0.as_str(), parameter_value(raw, parse(raw)));
        i += 1;
    }
    assert(all.take(all.len() as int) =~= all);
    RescuedCall { name: call.name.clone(), arguments }
}

/// The calls that a text holds; `None` where it holds none or one of them cannot be read, so that
/// nothing is done by halves.
pub fn rescue_fake_tool_calls(text: &str) -> (calls: Option<Vec<RescuedCall>>)
    ensures
        rescued(text@) == (match calls {
            Some(calls) => Some(rescued_views(calls@)),
            None => None::<Seq<RescuedView>>,
        }),
{
    match raw_calls(text) {
        Some(raw) => {
            let mut calls: Vec<RescuedCall> = Vec::new();
            let mut i: usize = 0;
            while i < raw.len()
                invariant
                    i <= raw@.len(),
                    calls@.len() == i,
                    forall|j: int| 0 <= j < i ==> (#[trigger] calls@[j])@ == interpreted(raw@[j]@),
                decreases raw@.len() - i,
            {
                calls.push(interpret(&raw[i]));
                i += 1;
            }
            assert(rescued_views(calls@) =~= raw_views(raw@).map_values(
                |call: RawCallView| interpreted(call),
            ));
            Some(calls)
        },
        None => None,
    }
}

/// The names that the texts of an answer declare, text by text.
pub open spec fn names_in(blocks: Seq<ContentBlock>) -> Seq<Seq<char>>
    decreases blocks.len(),
{
    if blocks.len() == 0 {
        Seq::empty()
    } else {
        names_in(blocks.drop_last()) + (match blocks.last() {
            ContentBlock::Text { text } => declared_names(text@),
            _ => Seq::empty(),
        })
    }
}

/// The names that the texts of an answer declare.
pub fn detect_fake_names(blocks: &Vec<ContentBlock>) -> (names: Vec<String>)
    ensures
        text::views(names@) == names_in(blocks@),
{
    let mut names: Vec<String> = Vec::new();
    let mut i: usize = 0;
    assert(text::views(names@) =~= Seq::empty());
    while i < blocks.len()
        invariant
            i <= blocks@.len(),
            text::views(names@) == names_in(blocks@.take(i as int)),
        decreases blocks@.len() - i,
    {
        assert(blocks@.take(i + 1).drop_last() =~= blocks@.take(i as int));
        if let ContentBlock::Text { text } = &blocks[i] {
            let mut declared = fake_tool_call_names(text.as_str());
            assert(text::views(names@ + declared@) =~= text::views(names@) + text::views(declared@));
            names.append(&mut declared);
        } else {
            assert(text::views(names@) + Seq::<Seq<char>>::empty() =~= text::views(names@));
        }
        i += 1;
    }
    assert(blocks@.take(blocks@.len() as int) =~= blocks@);
    names
}

/// The calls in all texts of an answer; `None` where one of the texts gives none.
pub open spec fn rescued_all(blocks: Seq<ContentBlock>) -> Option<Seq<RescuedView>>
    decreases blocks.len(),
{
    if blocks.len() == 0 {
        Some(Seq::empty())
    } else {
        match (rescued_all(blocks.drop_last()), blocks.last()) {
            (Some(before), ContentBlock::Text { text }) => match rescued(text@) {
                Some(calls) => Some(before + calls),
                None => None,
            },
            (before, _) => before,
        }
    }
}

/// The calls in the texts of an answer, if each of its texts gives at least one.
pub open spec fn rescued_blocks(blocks: Seq<ContentBlock>) -> Option<Seq<RescuedView>> {
    match rescued_all(blocks) {
        Some(calls) => if calls.len() > 0 {
            Some(calls)
        } else {
            None
        },
        None => None,
    }
}

/// The calls in the texts of an answer, if each of its texts gives at least one.
pub fn rescue_from_blocks(blocks: &Vec<ContentBlock>) -> (calls: Option<Vec<RescuedCall>>)
    ensures
        rescued_blocks(blocks@) == (match calls {
            Some(calls) => Some(rescued_views(calls@)),
            None => None::<Seq<RescuedView>>,
        }),
{
    let mut combined: Vec<RescuedCall> = Vec::new();
    let mut all_read = true;
    let mut i: usize = 0;
    assert(rescued_views(combined@) =~= Seq::empty());
    while i < blocks.len()
        invariant
            i <= blocks@.len(),
            rescued_all(blocks@.take(i as int)) == (if all_read {
                Some(rescued_views(combined@))
            } else {
                None
            }),
        decreases blocks@.len() - i,
    {
        assert(blocks@.take(i + 1).drop_last() =~= blocks@.take(i as int));
        if let ContentBlock::Text { text } = &blocks[i] {
            match rescue_fake_tool_calls(text.as_str()) {
                Some(calls) => {
                    let mut calls = calls;
                    assert(rescued_views(combined@ + calls@) =~= rescued_views(combined@)
                        + rescued_views(calls@));
                    combined.append(&mut calls);
                },
                None => {
                    all_read = false;
                },
            }
        }
        i += 1;
    }
    assert(blocks@.take(blocks@.len() as int) =~= blocks@);
    if all_read && combined.len() > 0 {
        Some(combined)
    } else {
        None
    }
}

} // verus!
