//! What the model is told around a turn: nothing that matters is left out, and nothing is said
//! without need.
use vstd::prelude::*;
use vstd::string::*;

use crate::agent::injections;
use crate::agent::injections::{
    Background, BaselinesView, InjectionView, CAPABILITY_CHANNEL, GOAL_CHANNEL, GOAL_CLEARED_TEXT,
    SKILL_CHANNEL, WORKSPACE_CHANNEL,
};
use crate::agent::input;
use crate::agent::instructions;
use crate::agent::log;
use crate::agent::log::EventView;
use crate::agent::runtime_context;
use crate::message::ImageView;
use crate::session;
use crate::session::{GoalStatus, GoalView, SessionEnvelope, SessionEvent};
use crate::text;
use crate::text_laws;

verus! {

/// What a channel has to say is sent if and only if it is not what it sent last.
pub open spec fn is_sent(
    list: Seq<InjectionView>,
    channel: Seq<char>,
    last: Option<Seq<char>>,
    now: Option<Seq<char>>,
) -> bool {
    now matches Some(text) ==> (last != Some(text)) == list.contains(InjectionView { channel, text })
}

proof fn lemma_channels()
    ensures
        WORKSPACE_CHANNEL@ != CAPABILITY_CHANNEL@,
        WORKSPACE_CHANNEL@ != SKILL_CHANNEL@,
        WORKSPACE_CHANNEL@ != GOAL_CHANNEL@,
        CAPABILITY_CHANNEL@ != SKILL_CHANNEL@,
        CAPABILITY_CHANNEL@ != GOAL_CHANNEL@,
        SKILL_CHANNEL@ != GOAL_CHANNEL@,
{
    reveal_strlit("workspace-instructions");
    reveal_strlit("capability");
    reveal_strlit("skill-catalog");
    reveal_strlit("goal");
    assert(WORKSPACE_CHANNEL@.len() == 22);
    assert(CAPABILITY_CHANNEL@.len() == 10);
    assert(SKILL_CHANNEL@.len() == 13);
    assert(GOAL_CHANNEL@.len() == 4);
}

proof fn lemma_add_contains<T>(a: Seq<T>, b: Seq<T>, other: T)
    ensures
        (a + b).contains(other) == (a.contains(other) || b.contains(other)),
{
    if a.contains(other) {
        let i = choose|i: int| 0 <= i < a.len() && a[i] == other;
        assert((a + b)[i] == other);
    }
    if b.contains(other) {
        let i = choose|i: int| 0 <= i < b.len() && b[i] == other;
        assert((a + b)[a.len() + i] == other);
    }
    if (a + b).contains(other) {
        let i = choose|i: int| 0 <= i < (a + b).len() && (a + b)[i] == other;
        if i < a.len() {
            assert(a[i] == other);
        } else {
            assert(b[i - a.len()] == other);
        }
    }
}

proof fn lemma_sent(
    channel: Seq<char>,
    last: Option<Seq<char>>,
    now: Option<Seq<char>>,
    item: InjectionView,
)
    ensures
        injections::sent(channel, last, now).contains(item) == (now is Some && last != now && item
            == (InjectionView { channel, text: now->0 })),
{
    let list = injections::sent(channel, last, now);
    if now is Some && last != now {
        assert(list[0] == (InjectionView { channel, text: now->0 }));
    }
}

/// Whatever has changed in the background is told, on its own channel, and what has not is not told
/// again: the workspace's instructions, the capabilities, and the skills and the goal of a session
/// that may use them.
pub proof fn changed_background_is_told(background: Background, last: BaselinesView)
    ensures
        ({
            let list = injections::injected(background, last);
            &&& is_sent(list, WORKSPACE_CHANNEL@, last.workspace, text::opt_view(background.workspace))
            &&& is_sent(
                list,
                CAPABILITY_CHANNEL@,
                last.capability,
                Some(injections::capability_text(background.capabilities)),
            )
            &&& is_sent(list, SKILL_CHANNEL@, last.skills, injections::skill_text(background, last.skills))
            &&& is_sent(
                list,
                GOAL_CHANNEL@,
                last.goal,
                injections::goal_channel_text(background, last.goal),
            )
            &&& list.len() <= 4
        }),
{
    let list = injections::injected(background, last);
    let a = injections::sent(
        WORKSPACE_CHANNEL@,
        last.workspace,
        text::opt_view(background.workspace),
    );
    let b = injections::sent(
        CAPABILITY_CHANNEL@,
        last.capability,
        Some(injections::capability_text(background.capabilities)),
    );
    let c = injections::sent(
        SKILL_CHANNEL@,
        last.skills,
        injections::skill_text(background, last.skills),
    );
    let d = injections::sent(
        GOAL_CHANNEL@,
        last.goal,
        injections::goal_channel_text(background, last.goal),
    );
    assert(list == a + b + c + d);
    lemma_channels();
    assert forall|item: InjectionView| #[trigger]
        list.contains(item) == (a.contains(item) || b.contains(item) || c.contains(item)
            || d.contains(item)) by {
        lemma_add_contains(a + b + c, d, item);
        lemma_add_contains(a + b, c, item);
        lemma_add_contains(a, b, item);
    }
    assert forall|item: InjectionView| #[trigger] list.contains(item) implies {
        ||| a.contains(item) && item.channel == WORKSPACE_CHANNEL@
        ||| b.contains(item) && item.channel == CAPABILITY_CHANNEL@
        ||| c.contains(item) && item.channel == SKILL_CHANNEL@
        ||| d.contains(item) && item.channel == GOAL_CHANNEL@
    } by {
        lemma_sent(
            WORKSPACE_CHANNEL@,
            last.workspace,
            text::opt_view(background.workspace),
            item,
        );
        lemma_sent(
            CAPABILITY_CHANNEL@,
            last.capability,
            Some(injections::capability_text(background.capabilities)),
            item,
        );
        lemma_sent(
            SKILL_CHANNEL@,
            last.skills,
            injections::skill_text(background, last.skills),
            item,
        );
        lemma_sent(
            GOAL_CHANNEL@,
            last.goal,
            injections::goal_channel_text(background, last.goal),
            item,
        );
    }
    if let Some(text) = text::opt_view(background.workspace) {
        let item = InjectionView { channel: WORKSPACE_CHANNEL@, text };
        lemma_sent(
            WORKSPACE_CHANNEL@,
            last.workspace,
            text::opt_view(background.workspace),
            item,
        );
        assert(list.contains(item) == a.contains(item));
    }
    let told = injections::capability_text(background.capabilities);
    let item = InjectionView { channel: CAPABILITY_CHANNEL@, text: told };
    lemma_sent(CAPABILITY_CHANNEL@, last.capability, Some(told), item);
    assert(list.contains(item) == b.contains(item));
    if let Some(text) = injections::skill_text(background, last.skills) {
        let item = InjectionView { channel: SKILL_CHANNEL@, text };
        lemma_sent(
            SKILL_CHANNEL@,
            last.skills,
            injections::skill_text(background, last.skills),
            item,
        );
        assert(list.contains(item) == c.contains(item));
    }
    if let Some(text) = injections::goal_channel_text(background, last.goal) {
        let item = InjectionView { channel: GOAL_CHANNEL@, text };
        lemma_sent(
            GOAL_CHANNEL@,
            last.goal,
            injections::goal_channel_text(background, last.goal),
            item,
        );
        assert(list.contains(item) == d.contains(item));
    }
}

/// A session may use a tool that is on its list, and any where it has none.
pub proof fn listed_tools_are_visible(allowed: Option<Vec<String>>, tool: Seq<char>)
    ensures
        injections::visible(allowed, tool) == match allowed {
            Some(names) => exists|i: int| 0 <= i < names@.len() && (#[trigger] names@[i])@ == tool,
            None => true,
        },
{
    if let Some(names) = allowed {
        let views = text::views(names@);
        if views.contains(tool) {
            let i = choose|i: int| 0 <= i < views.len() && views[i] == tool;
            assert(names@[i]@ == tool);
        }
        if exists|i: int| 0 <= i < names@.len() && (#[trigger] names@[i])@ == tool {
            let i = choose|i: int| 0 <= i < names@.len() && (#[trigger] names@[i])@ == tool;
            assert(views[i] == tool);
        }
    }
}

/// A goal is told as long as there is one. That it is gone is told once, and only where one was told
/// before.
pub proof fn goal_is_told_until_it_is_gone(goal: GoalView, tokens: u64, last: Option<Seq<char>>)
    ensures
        injections::goal_text(Some(goal), tokens, last) is Some,
        injections::goal_text(None, tokens, None) is None,
        last is Some ==> injections::goal_text(None, tokens, last) == Some(GOAL_CLEARED_TEXT@),
        injections::sent(
            GOAL_CHANNEL@,
            Some(GOAL_CLEARED_TEXT@),
            injections::goal_text(None, tokens, Some(GOAL_CLEARED_TEXT@)),
        ).len() == 0,
{
}

/// What is told of a goal holds its text, its state, why it is blocked, its rounds, what it has used
/// and its budget.
pub proof fn goal_is_told_in_full(goal: GoalView, tokens: u64)
    ensures
        ({
            let block = injections::goal_block(goal, tokens);
            &&& text::has(block, goal.objective)
            &&& text::has(block, text::decimal(goal.rounds_started as nat))
            &&& text::has(block, text::decimal(tokens as nat))
            &&& goal.token_budget matches Some(budget) ==> text::has(
                block,
                text::decimal(budget as nat),
            )
            &&& goal.status == GoalStatus::Blocked ==> (goal.blocked_reason matches Some(reason)
                ==> text::has(block, reason))
            &&& !(goal.status == GoalStatus::Blocked && goal.blocked_reason is Some) ==> text::has(
                block,
                session::status_label(goal.status),
            )
        }),
{
    let lines = injections::goal_lines(goal, tokens);
    let none = Seq::<char>::empty();
    lemma_line_part(lines, 1, "目标:"@, goal.objective, none);
    lemma_line_part(lines, 3, "已发起续跑轮数:"@, text::decimal(goal.rounds_started as nat), none);
    let used = text::decimal(tokens as nat);
    match goal.token_budget {
        Some(budget) => {
            let limit = text::decimal(budget as nat);
            lemma_line_part(lines, 4, "预算用量:"@, used, "/"@ + limit + " tokens"@);
            lemma_line_part(lines, 4, "预算用量:"@ + used + "/"@, limit, " tokens"@);
        },
        None => {
            lemma_line_part(lines, 4, "预算用量:"@, used, " tokens(未设预算)"@);
        },
    }
    if goal.status == GoalStatus::Blocked && goal.blocked_reason is Some {
        lemma_line_part(lines, 2, "状态:受阻("@, goal.blocked_reason->0, ")"@);
    } else {
        lemma_line_part(lines, 2, "状态:"@, session::status_label(goal.status), none);
    }
}

proof fn lemma_line_part(
    lines: Seq<Seq<char>>,
    at: int,
    before: Seq<char>,
    part: Seq<char>,
    after: Seq<char>,
)
    requires
        0 <= at < lines.len(),
        lines[at] =~= before + part + after,
    ensures
        text::has(text::joined(lines, "\n"@), part),
{
    text_laws::part_of_a_text_occurs(before, part, after);
    text_laws::joined_text_holds_each(lines, "\n"@, at);
    lemma_has_in(text::joined(lines, "\n"@), lines[at], part);
}

proof fn lemma_has_in(all: Seq<char>, part: Seq<char>, inner: Seq<char>)
    requires
        text::has(all, part),
        text::has(part, inner),
    ensures
        text::has(all, inner),
{
    let at = choose|at: int| text::occurs_at(all, part, at);
    text_laws::inner_part_occurs(all.take(at), part, all.skip(at + part.len()), inner);
    assert(all =~= all.take(at) + part + all.skip(at + part.len())) by {
        assert(all.subrange(at, at + part.len()) == part);
    }
}

/// A list of skills that is told holds each of them, its name and its description. It is told
/// first where there are any, and again whenever it is not the one that was told last.
pub proof fn skills_are_told_in_full(
    entries: Seq<(Seq<char>, Seq<char>)>,
    previous: Option<Seq<char>>,
    i: int,
)
    ensures
        previous is None ==> (instructions::catalog_message(entries, previous) is Some) == (
        entries.len() > 0),
        previous matches Some(last) ==> (instructions::catalog_message(entries, previous) is Some)
            == (instructions::body_of(last) != instructions::catalog_body(entries)),
        0 <= i < entries.len() ==> (instructions::catalog_message(entries, previous) matches Some(
            message,
        ) ==> text::has(message, entries[i].0) && text::has(message, entries[i].1)),
{
    if 0 <= i < entries.len() {
        let body = instructions::catalog_body(entries);
        let lines = instructions::skill_lines(entries);
        let (name, about) = entries[i];
        let none = Seq::<char>::empty();
        assert(lines[i] == "- `"@ + name + "`: "@ + about);
        text_laws::part_of_a_text_occurs("- `"@, name, "`: "@ + about);
        assert("- `"@ + name + ("`: "@ + about) =~= lines[i]);
        text_laws::part_of_a_text_occurs("- `"@ + name + "`: "@, about, none);
        assert("- `"@ + name + "`: "@ + about + none =~= lines[i]);
        text_laws::joined_text_holds_each(lines, "\n"@, i);
        let list = text::joined(lines, "\n"@);
        lemma_has_in(list, lines[i], name);
        lemma_has_in(list, lines[i], about);
        let rest = "\n</available_skills>\n\n"@ + instructions::SKILL_GUIDANCE@;
        assert(body =~= "<available_skills>\n"@ + list + rest);
        text_laws::inner_part_occurs("<available_skills>\n"@, list, rest, name);
        text_laws::inner_part_occurs("<available_skills>\n"@, list, rest, about);
        if let Some(message) = instructions::catalog_message(entries, previous) {
            let head = if previous is None {
                instructions::FIRST_CATALOG@
            } else {
                instructions::NEXT_CATALOG@
            };
            reveal_strlit("<available_skills>\n");
            assert(body.len() > 0);
            let before = instructions::REMINDER_OPEN@ + "\n"@ + head + "\n\n"@;
            let after = "\n"@ + instructions::REMINDER_CLOSE@;
            assert(message =~= before + body + after);
            text_laws::inner_part_occurs(before, body, after, name);
            text_laws::inner_part_occurs(before, body, after, about);
        }
    }
}

/// A prompt that begins with a slash and the name of a skill calls it, whatever comes in the lines
/// below.
pub proof fn slash_calls_a_skill(
    before: Seq<char>,
    name: Seq<char>,
    after: Seq<char>,
    below: Seq<char>,
)
    requires
        instructions::kebab(name),
        forall|i: int|
            0 <= i < before.len() ==> text::is_space(#[trigger] before[i]) && before[i] != '\n',
        forall|i: int|
            0 <= i < after.len() ==> text::is_space(#[trigger] after[i]) && after[i] != '\n',
    ensures
        instructions::called_skill(before + seq!['/'] + name + after) == Some(name),
        instructions::called_skill(before + seq!['/'] + name + after + seq!['\n'] + below) == Some(
            name,
        ),
{
    let line = before + seq!['/'] + name + after;
    reveal_strlit("/");
    assert("/"@ =~= seq!['/']);
    assert(!line.contains('\n')) by {
        if line.contains('\n') {
            let i = choose|i: int| 0 <= i < line.len() && line[i] == '\n';
            if i < before.len() {
                assert(line[i] == before[i]);
            } else if before.len() < i <= before.len() + name.len() {
                assert(line[i] == name[i - before.len() - 1]);
            } else if i > before.len() + name.len() {
                assert(line[i] == after[i - before.len() - 1 - name.len()]);
            }
        }
    }
    text_laws::lines_end_at_line_feeds(line, below);
    lemma_slash(before, name, after, line);
    let short = text::without_return(line);
    if line.len() > 0 && line.last() == '\r' {
        if after.len() > 0 {
            let less = after.drop_last();
            assert(short =~= before + seq!['/'] + name + less);
            lemma_slash(before, name, less, short);
        } else {
            assert(line.last() == name.last());
            assert(text::is_lower(name[name.len() - 1]) || text::is_digit(name[name.len() - 1])
                || name[name.len() - 1] == '-');
        }
    } else {
        assert(short == line);
    }
}

proof fn lemma_slash(before: Seq<char>, name: Seq<char>, after: Seq<char>, line: Seq<char>)
    requires
        instructions::kebab(name),
        line == before + seq!['/'] + name + after,
        forall|i: int| 0 <= i < before.len() ==> text::is_space(#[trigger] before[i]),
        forall|i: int| 0 <= i < after.len() ==> text::is_space(#[trigger] after[i]),
    ensures
        text::after_prefix(text::trimmed(line), seq!['/']) == Some(name),
{
    let (from, to) = text_laws::trimming_takes_the_space_around(line);
    let start = before.len() as int;
    let end = start + 1 + name.len();
    assert(line[start] == '/');
    assert(line[end - 1] == name.last());
    assert(text::is_lower(name[name.len() - 1]) || text::is_digit(name[name.len() - 1])
        || name[name.len() - 1] == '-');
    if from < start {
        assert(line[from] == before[from]);
    }
    assert(from == start);
    if to > end {
        assert(line[to - 1] == after[to - 1 - end]);
    }
    assert(to == end);
    let inner = line.subrange(from, to);
    assert(inner =~= seq!['/'] + name);
    assert(inner.skip(1) =~= name);
    assert(seq!['/'].is_prefix_of(inner));
}

/// What a channel sent last is the text of the last message that was injected on it.
pub proof fn last_of_a_channel_is_found(events: Seq<SessionEnvelope>, channel: Seq<char>, at: int)
    requires
        0 <= at < events.len(),
        is_of(events[at].event, channel),
        forall|j: int| at < j < events.len() ==> !is_of((#[trigger] events[j]).event, channel),
    ensures
        events[at].event matches SessionEvent::UserMessage { text, .. }
            && injections::last_of_channel(events, channel) == Some(text@),
    decreases events.len(),
{
    if at < events.len() - 1 {
        let rest = events.drop_last();
        assert(!is_of(events[events.len() - 1].event, channel));
        assert forall|j: int| at < j < rest.len() implies !is_of((#[trigger] rest[j]).event, channel) by {
            assert(!is_of(events[j].event, channel));
        }
        last_of_a_channel_is_found(rest, channel, at);
    }
}

/// An event is a message that was injected on a channel.
pub open spec fn is_of(event: SessionEvent, channel: Seq<char>) -> bool {
    event matches SessionEvent::UserMessage { injected, channel: Some(name), .. } && injected
        && name@ == channel
}

/// A context that has changed is sent; where it is gone, that is said once; and where there never
/// was one, nothing is.
pub proof fn changed_context_is_sent(
    last: Option<Seq<char>>,
    current: Seq<char>,
    cleared: Seq<char>,
)
    ensures
        current.len() > 0 ==> runtime_context::to_send(last, current, cleared) == (if last == Some(
            current,
        ) {
            None
        } else {
            Some(current)
        }),
        current.len() == 0 && last is None ==> runtime_context::to_send(last, current, cleared)
            is None,
        current.len() == 0 && last is Some ==> runtime_context::to_send(last, current, cleared) == (
        if last == Some(cleared) {
            None
        } else {
            Some(cleared)
        }),
{
}

/// How often a label occurs.
pub open spec fn times(labels: Seq<Seq<char>>, label: Seq<char>) -> nat
    decreases labels.len(),
{
    if labels.len() == 0 {
        0
    } else {
        times(labels.drop_last(), label) + (if labels.last() == label {
            1nat
        } else {
            0
        })
    }
}

/// Each kind of image is counted by itself, as often as it occurs, and is listed once.
pub proof fn kinds_are_counted(labels: Seq<Seq<char>>, label: Seq<char>)
    ensures
        ({
            let tally = input::tally(labels);
            &&& forall|i: int|
                0 <= i < tally.len() ==> (#[trigger] tally[i]).1 == times(labels, tally[i].0)
                    && tally[i].1 > 0
            &&& forall|i: int, j: int|
                0 <= i < j < tally.len() ==> (#[trigger] tally[i]).0 != (#[trigger] tally[j]).0
            &&& times(labels, label) > 0 ==> exists|i: int|
                0 <= i < tally.len() && (#[trigger] tally[i]).0 == label
        }),
    decreases labels.len(),
{
    if labels.len() > 0 {
        let rest = labels.drop_last();
        let before = input::tally(rest);
        let tally = input::tally(labels);
        let last = labels.last();
        kinds_are_counted(rest, label);
        kinds_are_counted(rest, last);
        lemma_tally_at(before, last, 0);
        match input::tally_at(before, last, 0) {
            Some(at) => {
                assert forall|i: int| 0 <= i < tally.len() implies (#[trigger] tally[i]).1 == times(
                    labels,
                    tally[i].0,
                ) && tally[i].1 > 0 by {
                    assert(before[i].0 == tally[i].0);
                    if i != at {
                        if i < at {
                            assert(before[i].0 != before[at].0);
                        } else {
                            assert(before[at].0 != before[i].0);
                        }
                    }
                }
                assert forall|i: int, j: int| 0 <= i < j < tally.len() implies (
                #[trigger] tally[i]).0 != (#[trigger] tally[j]).0 by {
                    assert(before[i].0 != before[j].0);
                }
                if times(labels, label) > 0 {
                    if label == last {
                        assert(tally[at].0 == label);
                    } else {
                        let i = choose|i: int|
                            0 <= i < before.len() && (#[trigger] before[i]).0 == label;
                        assert(tally[i].0 == label);
                    }
                }
            },
            None => {
                assert(times(rest, last) == 0) by {
                    if times(rest, last) > 0 {
                        let i = choose|i: int|
                            0 <= i < before.len() && (#[trigger] before[i]).0 == last;
                        assert(before[i].0 != last);
                    }
                }
                assert forall|i: int| 0 <= i < tally.len() implies (#[trigger] tally[i]).1 == times(
                    labels,
                    tally[i].0,
                ) && tally[i].1 > 0 by {
                    if i < before.len() {
                        assert(before[i] == tally[i]);
                    }
                }
                assert forall|i: int, j: int| 0 <= i < j < tally.len() implies (
                #[trigger] tally[i]).0 != (#[trigger] tally[j]).0 by {
                    if j < before.len() {
                        assert(before[i].0 != before[j].0);
                    } else {
                        assert(before[i].0 != last);
                    }
                }
                if times(labels, label) > 0 {
                    if label == last {
                        assert(tally[before.len() as int].0 == label);
                    } else {
                        let i = choose|i: int|
                            0 <= i < before.len() && (#[trigger] before[i]).0 == label;
                        assert(tally[i].0 == label);
                    }
                }
            },
        }
    }
}

proof fn lemma_tally_at(tally: Seq<(Seq<char>, nat)>, label: Seq<char>, from: int)
    requires
        0 <= from <= tally.len(),
    ensures
        match input::tally_at(tally, label, from) {
            Some(at) => from <= at < tally.len() && tally[at].0 == label,
            None => forall|j: int| from <= j < tally.len() ==> (#[trigger] tally[j]).0 != label,
        },
    decreases tally.len() - from,
{
    if from < tally.len() && tally[from].0 != label {
        lemma_tally_at(tally, label, from + 1);
    }
}

/// Before a turn the model is told of the files, then of the quotes, then of the images, each where
/// there are any; then comes what the user said, if they said or showed anything, and then the turn.
pub proof fn turn_is_opened_in_order(
    turn: u32,
    prompt: Seq<char>,
    images: Seq<ImageView>,
    files: Seq<Seq<char>>,
    quoted: Seq<(Seq<char>, Seq<char>)>,
)
    ensures
        ({
            let events = input::turn_input(turn, prompt, images, files, quoted);
            let f: int = if files.len() > 0 {
                1
            } else {
                0
            };
            let q: int = if quoted.len() > 0 {
                1
            } else {
                0
            };
            let m: int = if images.len() > 0 {
                1
            } else {
                0
            };
            let asked: int = if prompt.len() > 0 || images.len() > 0 {
                1
            } else {
                0
            };
            &&& events.len() == f + q + m + asked + 1
            &&& f == 1 ==> events[0] == log::injection("file-notice"@, input::file_notice(files))
            &&& q == 1 ==> events[f] == log::injection("quote"@, input::quote_notice(quoted))
            &&& m == 1 ==> events[f + q] == log::injection(
                "image-notice"@,
                input::image_notice(images),
            )
            &&& asked == 1 ==> events[f + q + m] == (EventView::Asked {
                text: prompt,
                channel: None,
                images,
            })
            &&& events.last() == (EventView::TurnStart { turn })
        }),
{
}

/// The notices name every file, every quote with where it comes from, and every image that lies on
/// disk.
pub proof fn notices_name_everything(
    files: Seq<Seq<char>>,
    quoted: Seq<(Seq<char>, Seq<char>)>,
    images: Seq<ImageView>,
    i: int,
)
    ensures
        0 <= i < files.len() ==> text::has(input::file_notice(files), files[i]),
        0 <= i < quoted.len() ==> text::has(input::quote_notice(quoted), quoted[i].0) && text::has(
            input::quote_notice(quoted),
            quoted[i].1,
        ),
        0 <= i < images.len() ==> (images[i].path matches Some(path) ==> text::has(
            input::image_notice(images),
            path,
        )),
        text::has(input::image_notice(images), text::decimal(images.len())),
{
    let none = Seq::<char>::empty();
    if 0 <= i < files.len() {
        let lines = files.map_values(|path: Seq<char>| "- "@ + path);
        lemma_line_part(lines, i, "- "@, files[i], none);
        text_laws::inner_part_occurs(
            "[harness] 用户上传了文件:\n"@,
            text::joined(lines, "\n"@),
            "\n这些文件已保存,可随时用工具读取。"@,
            files[i],
        );
    }
    if 0 <= i < quoted.len() {
        let parts = quoted.map_values(
            |entry: (Seq<char>, Seq<char>)| "---\n["@ + entry.0 + "]\n"@ + entry.1 + "\n"@,
        );
        let (from, words) = quoted[i];
        let head = "[harness] 用户从轨迹视图引用了以下记录,请结合这些内容回答:\n\n"@;
        let list = text::joined(parts, "\n"@);
        lemma_line_part(parts, i, "---\n["@, from, "]\n"@ + words + "\n"@);
        lemma_line_part(parts, i, "---\n["@ + from + "]\n"@, words, "\n"@);
        text_laws::inner_part_occurs(head, list, none, from);
        text_laws::inner_part_occurs(head, list, none, words);
        assert(head + list + none =~= input::quote_notice(quoted));
    }
    let notice = input::image_notice(images);
    let count = text::decimal(images.len());
    let kinds = input::label_summary(input::image_labels(images));
    let open = "[harness] 用户上传了 "@;
    let mid = " 张图片("@ + kinds + "),已作为图片附在紧随其后的用户消息中。"@;
    let close =
        "\n若你在该消息里看不到图片内容,请用 read_file 读取上述路径;仍取不到再告知用户\"未收到图片\",不要猜测其内容。"@;
    let paths = input::paths_text(images);
    text_laws::part_of_a_text_occurs(open, count, mid + (paths + close));
    assert(open + count + (mid + (paths + close)) =~= notice);
    if 0 <= i < images.len() {
        if let Some(path) = images[i].path {
            lemma_path_lines(images, i);
            let lines = input::path_lines(images);
            let k = choose|k: int| 0 <= k < lines.len() && lines[k] == "- "@ + path;
            assert(lines[k] =~= "- "@ + path + none);
            lemma_line_part(lines, k, "- "@, path, none);
            let list = text::joined(lines, "\n"@);
            text_laws::inner_part_occurs("\n已同时保存到本地,路径如下:\n"@, list, "\n"@, path);
            text_laws::inner_part_occurs(open + count + mid, paths, close, path);
            assert(open + count + mid + paths + close =~= notice);
        }
    }
}

proof fn lemma_path_lines(images: Seq<ImageView>, i: int)
    requires
        0 <= i < images.len(),
        images[i].path is Some,
    ensures
        input::path_lines(images).contains("- "@ + images[i].path->0),
    decreases images.len(),
{
    let rest = images.drop_last();
    let before = input::path_lines(rest);
    let now = input::path_lines(images);
    let line = "- "@ + images[i].path->0;
    if i < rest.len() {
        lemma_path_lines(rest, i);
        let k = choose|k: int| 0 <= k < before.len() && before[k] == line;
        assert(now[k] == line);
    } else {
        assert(now[before.len() as int] == line);
    }
}

/// The model is told how a goal stands: to go on with it, or that it rests, is blocked, has used up
/// its budget, or is done.
pub proof fn goal_is_told_as_it_stands()
    ensures
        text::has(injections::goal_advice(GoalStatus::Active), "继续朝目标"@),
        text::has(injections::goal_advice(GoalStatus::Paused), "已暂停"@),
        text::has(injections::goal_advice(GoalStatus::Blocked), "受阻"@),
        text::has(injections::goal_advice(GoalStatus::BudgetLimited), "预算已耗尽"@),
        text::has(injections::goal_advice(GoalStatus::Complete), "已完成"@),
{
    assert(text::has(injections::goal_advice(GoalStatus::Active), "继续朝目标"@)) by {
        reveal_strlit("请继续朝目标自主工作:评估当前进展,决定并执行下一步;目标达成时立即用 update_goal 标记 complete,无法推进时用 blocked 标记并说明原因。");
        reveal_strlit("继续朝目标");
        assert(injections::goal_advice(GoalStatus::Active).subrange(1, 6) =~= "继续朝目标"@);
        assert(text::occurs_at(injections::goal_advice(GoalStatus::Active), "继续朝目标"@, 1));
    }
    assert(text::has(injections::goal_advice(GoalStatus::Paused), "已暂停"@)) by {
        reveal_strlit("目标已暂停:自动续跑停止,等待用户恢复后再继续朝目标工作。");
        reveal_strlit("已暂停");
        assert(injections::goal_advice(GoalStatus::Paused).subrange(2, 5) =~= "已暂停"@);
        assert(text::occurs_at(injections::goal_advice(GoalStatus::Paused), "已暂停"@, 2));
    }
    assert(text::has(injections::goal_advice(GoalStatus::Blocked), "受阻"@)) by {
        reveal_strlit("目标受阻:自动续跑停止;阻塞解除或用户给出新指示后继续。");
        reveal_strlit("受阻");
        assert(injections::goal_advice(GoalStatus::Blocked).subrange(2, 4) =~= "受阻"@);
        assert(text::occurs_at(injections::goal_advice(GoalStatus::Blocked), "受阻"@, 2));
    }
    assert(text::has(injections::goal_advice(GoalStatus::BudgetLimited), "预算已耗尽"@)) by {
        reveal_strlit("目标预算已耗尽:本轮请总结进展并收尾,不要开启新的大步骤。");
        reveal_strlit("预算已耗尽");
        assert(injections::goal_advice(GoalStatus::BudgetLimited).subrange(2, 7) =~= "预算已耗尽"@);
        assert(text::occurs_at(injections::goal_advice(GoalStatus::BudgetLimited), "预算已耗尽"@, 2));
    }
    assert(text::has(injections::goal_advice(GoalStatus::Complete), "已完成"@)) by {
        reveal_strlit("目标已完成:无需再为目标做任何工作。");
        reveal_strlit("已完成");
        assert(injections::goal_advice(GoalStatus::Complete).subrange(2, 5) =~= "已完成"@);
        assert(text::occurs_at(injections::goal_advice(GoalStatus::Complete), "已完成"@, 2));
    }
}

} // verus!
