//! Injected messages: what the harness tells the model beside the user's words, and how it knows
//! what it told before.
use vstd::prelude::*;
use vstd::string::*;

use crate::json;
use crate::json::{parse, Json, JsonView};
use crate::paths;
use crate::paths::join_path;
use crate::session::{SessionEnvelope, SessionEvent};
use crate::text;
use crate::text::{ascii_digit, ascii_lower, cat3, cat4, cat5, chars_of, join, lines_of, rest_after, starts_with, str_eq, strip_prefix, strip_suffix, trim};

verus! {

/// How an injected message with workspace instructions begins.
pub const WORKSPACE_PREFIX: &'static str = "<system-reminder>\n工作区指令:";

/// How an injected message with the list of skills begins.
pub const SKILL_CATALOG_PREFIX: &'static str = "<system-reminder>\n技能目录:";

/// How an injected message is marked.
pub const REMINDER_OPEN: &'static str = "<system-reminder>";

/// How the mark of an injected message ends.
pub const REMINDER_CLOSE: &'static str = "</system-reminder>";

/// The text of an event, if it is an injected message that begins with `prefix`.
pub open spec fn injected_text(event: SessionEvent, prefix: Seq<char>) -> Option<Seq<char>> {
    match event {
        SessionEvent::UserMessage { text, injected, .. } => if injected && prefix.is_prefix_of(
            text@,
        ) {
            Some(text@)
        } else {
            None
        },
        _ => None,
    }
}

/// The last injected message that begins with `prefix`.
pub open spec fn last_injected(events: Seq<SessionEnvelope>, prefix: Seq<char>) -> Option<Seq<char>>
    decreases events.len(),
{
    if events.len() == 0 {
        None
    } else {
        match injected_text(events.last().event, prefix) {
            Some(text) => Some(text),
            None => last_injected(events.drop_last(), prefix),
        }
    }
}

/// The last injected message that begins with `prefix`.
pub fn restore_injected_text(events: &[SessionEnvelope], prefix: &str) -> (text: Option<String>)
    ensures
        text::opt_view(text) == last_injected(events@, prefix@),
{
    let mut i: usize = events.len();
    assert(events@.take(i as int) =~= events@);
    while i > 0
        invariant
            i <= events@.len(),
            last_injected(events@, prefix@) == last_injected(events@.take(i as int), prefix@),
        decreases i,
    {
        assert(events@.take(i as int).drop_last() =~= events@.take(i - 1));
        i -= 1;
        if let SessionEvent::UserMessage { text, injected, .. } = &events[i].event {
            if *injected && starts_with(text.as_str(), prefix) {
                return Some(text.clone());
            }
        }
    }
    None
}

/// The body of an injected message: what follows the first blank line between its tags.
pub open spec fn body_of(message: Seq<char>) -> Seq<char> {
    match reminder_inner(message) {
        Some(inner) => match text::after_first(inner, "\n\n"@) {
            Some(body) => body,
            None => Seq::empty(),
        },
        None => Seq::empty(),
    }
}

/// What stands between the tags of an injected message.
pub open spec fn reminder_inner(message: Seq<char>) -> Option<Seq<char>> {
    match text::after_prefix(message, REMINDER_OPEN@) {
        Some(rest) => match text::after_prefix(rest, "\n"@) {
            Some(rest) => match text::before_suffix(rest, REMINDER_CLOSE@) {
                Some(rest) => text::before_suffix(rest, "\n"@),
                None => None,
            },
            None => None,
        },
        None => None,
    }
}

/// What stands between the tags of an injected message.
pub fn reminder_text(message: &str) -> (inner: Option<String>)
    ensures
        text::opt_view(inner) == reminder_inner(message@),
{
    match strip_prefix(message, REMINDER_OPEN) {
        Some(rest) => match strip_prefix(rest.as_str(), "\n") {
            Some(rest) => match strip_suffix(rest.as_str(), REMINDER_CLOSE) {
                Some(rest) => strip_suffix(rest.as_str(), "\n"),
                None => None,
            },
            None => None,
        },
        None => None,
    }
}

/// The body of an injected message.
pub fn extract_body(message: &str) -> (body: String)
    ensures
        body@ == body_of(message@),
{
    match reminder_text(message) {
        Some(inner) => match rest_after(inner.as_str(), "\n\n") {
            Some(body) => body,
            None => String::new(),
        },
        None => String::new(),
    }
}

/// What stands under the list of skills.
pub const SKILL_GUIDANCE: &'static str =
    "技能是可复用的任务指令集。若用户点名某技能，或任务与某技能的描述明确匹配，先调用 skill 工具（action=load）加载其完整指令，再执行任务；可同时加载多个适用技能。目录只含摘要：未加载前不得凭摘要推断或执行技能内容。用户也可能以 /技能名 直接调用技能，其正文会以注入消息出现，此时无需再调 skill 工具。";

/// The heading of the first list.
pub const FIRST_CATALOG: &'static str = "技能目录:本会话可用的技能如下:";

/// The heading of a list that replaces another.
pub const NEXT_CATALOG: &'static str =
    "技能目录:此技能目录取代之前发布的技能目录。本会话可用的技能如下:";

/// The heading of an empty list that replaces another.
pub const EMPTY_CATALOG: &'static str =
    "技能目录:此技能目录取代之前发布的技能目录。当前没有可用的技能。";

/// The views of a list of skills.
pub open spec fn skill_views(entries: Seq<(String, String)>) -> Seq<(Seq<char>, Seq<char>)> {
    entries.map_values(|entry: (String, String)| (entry.0@, entry.1@))
}

/// One line for each skill.
pub open spec fn skill_lines(entries: Seq<(Seq<char>, Seq<char>)>) -> Seq<Seq<char>> {
    entries.map_values(|entry: (Seq<char>, Seq<char>)| "- `"@ + entry.0 + "`: "@ + entry.1)
}

/// The list of skills with its guidance; empty without skills.
pub open spec fn catalog_body(entries: Seq<(Seq<char>, Seq<char>)>) -> Seq<char> {
    if entries.len() == 0 {
        Seq::empty()
    } else {
        "<available_skills>\n"@ + text::joined(skill_lines(entries), "\n"@)
            + "\n</available_skills>\n\n"@ + SKILL_GUIDANCE@
    }
}

/// An injected message with a heading and a body.
pub open spec fn framed(head: Seq<char>, body: Seq<char>) -> Seq<char> {
    if body.len() == 0 {
        REMINDER_OPEN@ + "\n"@ + head + "\n"@ + REMINDER_CLOSE@
    } else {
        REMINDER_OPEN@ + "\n"@ + head + "\n\n"@ + body + ("\n"@ + REMINDER_CLOSE@)
    }
}

/// The message with the list of skills; `None` where nothing is to be said.
pub open spec fn catalog_message(
    entries: Seq<(Seq<char>, Seq<char>)>,
    previous: Option<Seq<char>>,
) -> Option<Seq<char>> {
    let body = catalog_body(entries);
    match previous {
        None => if entries.len() == 0 {
            None
        } else {
            Some(framed(FIRST_CATALOG@, body))
        },
        Some(previous) => if body_of(previous) == body {
            None
        } else if entries.len() == 0 {
            Some(framed(EMPTY_CATALOG@, body))
        } else {
            Some(framed(NEXT_CATALOG@, body))
        },
    }
}

fn frame(head: &str, body: &str) -> (message: String)
    ensures
        message@ == framed(head@, body@),
{
    if body.is_empty() {
        cat5(REMINDER_OPEN, "\n", head, "\n", REMINDER_CLOSE)
    } else {
        let mut message = cat5(REMINDER_OPEN, "\n", head, "\n\n", body);
        message.append(cat3("\n", REMINDER_CLOSE, "").as_str());
        assert("\n"@ + REMINDER_CLOSE@ + ""@ =~= "\n"@ + REMINDER_CLOSE@) by {
            reveal_strlit("");
        }
        message
    }
}

fn render_body(entries: &Vec<(String, String)>) -> (body: String)
    ensures
        body@ == catalog_body(skill_views(entries@)),
{
    if entries.len() == 0 {
        return String::new();
    }
    let mut lines: Vec<String> = Vec::new();
    let mut i: usize = 0;
    while i < entries.len()
        invariant
            i <= entries@.len(),
            lines@.len() == i,
            forall|j: int|
                0 <= j < i ==> (#[trigger] lines@[j])@ == "- `"@ + entries@[j].0@ + "`: "@
                    + entries@[j].1@,
        decreases entries@.len() - i,
    {
        lines.push(cat4("- `", entries[i].0.as_str(), "`: ", entries[i].1.as_str()));
        i += 1;
    }
    assert(text::views(lines@) =~= skill_lines(skill_views(entries@)));
    cat4(
        "<available_skills>\n",
        join(&lines, "\n").as_str(),
        "\n</available_skills>\n\n",
        SKILL_GUIDANCE,
    )
}

/// The message with the list of skills, given the last one; `None` where nothing is to be said.
/// What decides is whether the list changed.
pub fn render_skill_catalog(entries: &Vec<(String, String)>, previous: Option<&str>) -> (message:
    Option<String>)
    ensures
        text::opt_view(message) == catalog_message(
            skill_views(entries@),
            text::opt_str_view(previous),
        ),
{
    let body = render_body(entries);
    match previous {
        None => if entries.len() == 0 {
            None
        } else {
            Some(frame(FIRST_CATALOG, body.as_str()))
        },
        Some(previous) => if str_eq(extract_body(previous).as_str(), body.as_str()) {
            None
        } else if entries.len() == 0 {
            Some(frame(EMPTY_CATALOG, body.as_str()))
        } else {
            Some(frame(NEXT_CATALOG, body.as_str()))
        },
    }
}

/// A heading of one line is told from what follows it.
proof fn lemma_framed_body(head: Seq<char>, body: Seq<char>)
    requires
        forall|i: int| 0 <= i < head.len() ==> head[i] != '\n',
    ensures
        body_of(framed(head, body)) == body,
{
    reveal_strlit("\n");
    reveal_strlit("\n\n");
    let open = REMINDER_OPEN@;
    let close = REMINDER_CLOSE@;
    let message = framed(head, body);
    let inner = if body.len() == 0 {
        head
    } else {
        head + "\n\n"@ + body
    };
    assert(message =~= open + ("\n"@ + (inner + ("\n"@ + close))));
    assert(message.skip(open.len() as int) =~= "\n"@ + (inner + ("\n"@ + close)));
    assert(message.subrange(0, open.len() as int) =~= open);
    assert(text::after_prefix(message, open) == Some("\n"@ + (inner + ("\n"@ + close))));
    let second = "\n"@ + (inner + ("\n"@ + close));
    assert(second.subrange(0, 1) =~= "\n"@);
    assert(second.skip(1) =~= inner + ("\n"@ + close));
    let third = inner + ("\n"@ + close);
    assert(third.take(third.len() - close.len()) =~= inner + "\n"@);
    assert(third.subrange(third.len() - close.len(), third.len() as int) =~= close);
    let fourth = inner + "\n"@;
    assert(fourth.take(fourth.len() - 1) =~= inner);
    assert(fourth.subrange(fourth.len() - 1, fourth.len() as int) =~= "\n"@);
    assert(reminder_inner(message) == Some(inner));
    text::lemma_find_from(inner, "\n\n"@, 0);
    if body.len() == 0 {
        if let Some(at) = text::find_from(inner, "\n\n"@, 0) {
            assert(inner.subrange(at, at + 2)[0] == '\n');
            assert(inner[at] == '\n');
        }
        assert(body =~= Seq::empty());
    } else {
        assert(inner.subrange(head.len() as int, (head.len() + 2) as int) =~= "\n\n"@);
        assert(text::occurs_at(inner, "\n\n"@, head.len() as int));
        let at = text::find_from(inner, "\n\n"@, 0)->0;
        if at < head.len() {
            assert(inner.subrange(at, at + 2)[0] == '\n');
            assert(inner[at] == '\n');
        }
        assert(at == head.len());
        assert(inner.skip((head.len() + 2) as int) =~= body);
    }
}

/// What was said is not said again: a list of skills that was published, and is still the same,
/// is not published once more.
pub proof fn unchanged_catalog_is_not_repeated(
    entries: Seq<(Seq<char>, Seq<char>)>,
    previous: Option<Seq<char>>,
)
    ensures
        catalog_message(entries, previous) matches Some(message) ==> catalog_message(
            entries,
            Some(message),
        ) is None,
{
    let body = catalog_body(entries);
    lemma_headings_are_lines();
    lemma_framed_body(FIRST_CATALOG@, body);
    lemma_framed_body(NEXT_CATALOG@, body);
    lemma_framed_body(EMPTY_CATALOG@, body);
}

proof fn lemma_headings_are_lines()
    ensures
        forall|i: int| 0 <= i < FIRST_CATALOG@.len() ==> FIRST_CATALOG@[i] != '\n',
        forall|i: int| 0 <= i < NEXT_CATALOG@.len() ==> NEXT_CATALOG@[i] != '\n',
        forall|i: int| 0 <= i < EMPTY_CATALOG@.len() ==> EMPTY_CATALOG@[i] != '\n',
{
    assert(forall|i: int| 0 <= i < FIRST_CATALOG@.len() ==> FIRST_CATALOG@[i] != '\n') by {
        reveal_strlit("技能目录:本会话可用的技能如下:");
    }
    assert(forall|i: int| 0 <= i < NEXT_CATALOG@.len() ==> NEXT_CATALOG@[i] != '\n') by {
        reveal_strlit("技能目录:此技能目录取代之前发布的技能目录。本会话可用的技能如下:");
    }
    assert(forall|i: int| 0 <= i < EMPTY_CATALOG@.len() ==> EMPTY_CATALOG@[i] != '\n') by {
        reveal_strlit("技能目录:此技能目录取代之前发布的技能目录。当前没有可用的技能。");
    }
}

/// A name of lower-case letters and digits in parts that are joined by single hyphens.
pub open spec fn kebab(name: Seq<char>) -> bool {
    &&& name.len() > 0
    &&& name[0] != '-'
    &&& name.last() != '-'
    &&& forall|i: int|
        0 <= i < name.len() ==> text::is_lower(#[trigger] name[i]) || text::is_digit(name[i])
            || name[i] == '-'
    &&& forall|i: int| 0 < i < name.len() ==> !(#[trigger] name[i] == '-' && name[i - 1] == '-')
}

/// Whether a text is the name of a skill.
pub fn is_skill_name(name: &str) -> (yes: bool)
    ensures
        yes == kebab(name@),
{
    let chars = chars_of(name);
    if chars.len() == 0 || chars[0] == '-' || chars[chars.len() - 1] == '-' {
        return false;
    }
    let mut i: usize = 0;
    while i < chars.len()
        invariant
            i <= chars@.len(),
            chars@ == name@,
            forall|j: int|
                0 <= j < i ==> text::is_lower(#[trigger] name@[j]) || text::is_digit(name@[j])
                    || name@[j] == '-',
            forall|j: int| 0 < j < i ==> !(#[trigger] name@[j] == '-' && name@[j - 1] == '-'),
        decreases chars@.len() - i,
    {
        if !(ascii_lower(chars[i]) || ascii_digit(chars[i]) || chars[i] == '-') {
            assert(!(text::is_lower(name@[i as int]) || text::is_digit(name@[i as int])
                || name@[i as int] == '-'));
            return false;
        }
        if i > 0 && chars[i] == '-' && chars[i - 1] == '-' {
            assert(name@[i as int] == '-' && name@[i - 1] == '-');
            return false;
        }
        i += 1;
    }
    true
}

/// The skill that a prompt calls: its first line is a slash and the name of a skill.
pub open spec fn called_skill(prompt: Seq<char>) -> Option<Seq<char>> {
    let lines = text::lines(prompt);
    if lines.len() == 0 {
        None
    } else {
        match text::after_prefix(text::trimmed(lines[0]), "/"@) {
            Some(name) => if kebab(name) {
                Some(name)
            } else {
                None
            },
            None => None,
        }
    }
}

/// The skill that a prompt calls.
pub fn skill_gesture(prompt: &str) -> (skill: Option<String>)
    ensures
        text::opt_view(skill) == called_skill(prompt@),
{
    let lines = lines_of(prompt);
    if lines.len() == 0 {
        return None;
    }
    let first = trim(lines[0].as_str());
    assert(first@ == text::trimmed(text::views(lines@)[0]));
    match strip_prefix(first.as_str(), "/") {
        Some(name) => if is_skill_name(name.as_str()) {
            Some(name)
        } else {
            None
        },
        None => None,
    }
}

/// The path that a tool's arguments name.
pub open spec fn path_in(arguments: Option<JsonView>) -> Option<Seq<char>> {
    match arguments {
        Some(value) => match json::member_text(value, "path"@) {
            Some(path) => if text::is_blank(path) {
                None
            } else {
                Some(text::trimmed(path))
            },
            None => None,
        },
        None => None,
    }
}

/// The path that a tool's arguments, once read, name.
pub fn path_argument(arguments: &Option<Json>) -> (path: Option<String>)
    ensures
        text::opt_view(path) == path_in(
            match *arguments {
                Some(value) => Some(value@),
                None => None,
            },
        ),
{
    match arguments {
        Some(value) => match value.get_str("path") {
            Some(path) => {
                let path = trim(path);
                if path.as_str().is_empty() {
                    None
                } else {
                    Some(path)
                }
            },
            None => None,
        },
        None => None,
    }
}

/// The path that a tool's raw arguments name, below `cwd` unless it is absolute. What is absolute
/// depends on the system, so it is said only where no system differs.
pub fn touched_path(cwd: &str, raw_arguments: &str) -> (path: Option<String>)
    ensures
        match path_in(json::parsed(text::trimmed(raw_arguments@))) {
            Some(named) => path matches Some(path) && paths::is_joined(path@, cwd@, named),
            None => path is None,
        },
{
    let arguments = parse(trim(raw_arguments).as_str());
    match path_argument(&arguments) {
        Some(path) => Some(join_path(cwd, path.as_str())),
        None => None,
    }
}

} // verus!
