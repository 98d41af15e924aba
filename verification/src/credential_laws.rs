//! What holds of the search for a key, layer by layer, and of the files that it reads.
use vstd::prelude::*;
use vstd::string::*;

use crate::credentials;
use crate::credentials::{DotEnv, ErrorView, ResolvedView};
use crate::text;
use crate::text_laws;

verus! {

/// The process environment has no key: nothing, or an empty text.
pub open spec fn is_unset(env: Option<Seq<char>>) -> bool {
    match env {
        Some(value) => value.len() == 0,
        None => true,
    }
}

/// The document has no key under a name.
pub open spec fn is_missing(doc: Map<Seq<char>, Seq<char>>, reference: Seq<char>) -> bool {
    doc.contains_key(reference) ==> doc[reference].len() == 0
}

/// The first line of a file that has an entry under a name gives it a value.
pub open spec fn gives(contents: Seq<char>, name: Seq<char>, value: Seq<char>) -> bool {
    let lines = text::lines(contents);
    exists|i: int|
        0 <= i < lines.len() && credentials::dotenv_entry(#[trigger] lines[i]) == Some(
            (name, value),
        ) && forall|j: int|
            0 <= j < i ==> !(credentials::dotenv_entry(#[trigger] lines[j]) matches Some(entry)
                && entry.0 == name)
}

/// No line of a file has an entry under a name.
pub open spec fn is_silent(contents: Seq<char>, name: Seq<char>) -> bool {
    let lines = text::lines(contents);
    forall|i: int|
        0 <= i < lines.len() ==> !(credentials::dotenv_entry(#[trigger] lines[i]) matches Some(entry)
            && entry.0 == name)
}

/// A file has a key under a name.
pub open spec fn has_key(file: DotEnv, name: Seq<char>, value: Seq<char>) -> bool {
    file matches Ok(Some(contents)) && value.len() > 0 && gives(contents@, name, value)
}

/// A file that can be read has no key under a name: there is no file, or no entry, or an empty one.
pub open spec fn lacks_key(file: DotEnv, name: Seq<char>) -> bool {
    match file {
        Ok(Some(contents)) => is_silent(contents@, name) || gives(contents@, name, Seq::empty()),
        Ok(None) => true,
        Err(_) => false,
    }
}

proof fn lemma_dotenv_value(lines: Seq<Seq<char>>, key: Seq<char>, from: int)
    requires
        0 <= from,
    ensures
        match credentials::dotenv_value(lines, key, from) {
            Some(value) => exists|i: int|
                from <= i < lines.len() && credentials::dotenv_entry(#[trigger] lines[i]) == Some(
                    (key, value),
                ) && forall|j: int|
                    from <= j < i ==> !(credentials::dotenv_entry(
                        #[trigger] lines[j],
                    ) matches Some(entry) && entry.0 == key),
            None => forall|i: int|
                from <= i < lines.len() ==> !(credentials::dotenv_entry(
                    #[trigger] lines[i],
                ) matches Some(entry) && entry.0 == key),
        },
    decreases lines.len() - from,
{
    if from < lines.len() {
        let here = credentials::dotenv_entry(lines[from]);
        if here matches Some(entry) && entry.0 == key {
            assert(credentials::dotenv_entry(lines[from]) == Some((key, (here->0).1)));
        } else {
            lemma_dotenv_value(lines, key, from + 1);
            if let Some(value) = credentials::dotenv_value(lines, key, from + 1) {
                let i = choose|i: int|
                    from + 1 <= i < lines.len() && credentials::dotenv_entry(#[trigger] lines[i])
                        == Some((key, value)) && forall|j: int|
                        from + 1 <= j < i ==> !(credentials::dotenv_entry(
                            #[trigger] lines[j],
                        ) matches Some(entry) && entry.0 == key);
                assert(credentials::dotenv_entry(lines[i]) == Some((key, value)));
            }
        }
    }
}

/// A file gives the value of the first entry under a name.
pub proof fn first_entry_counts(contents: Seq<char>, name: Seq<char>)
    ensures
        forall|value: Seq<char>| #[trigger]
            gives(contents, name, value) ==> credentials::dotenv_value(
                text::lines(contents),
                name,
                0,
            ) == Some(value),
        is_silent(contents, name) ==> credentials::dotenv_value(text::lines(contents), name, 0)
            is None,
{
    let lines = text::lines(contents);
    lemma_dotenv_value(lines, name, 0);
    assert forall|value: Seq<char>| #[trigger] gives(
        contents,
        name,
        value,
    ) implies credentials::dotenv_value(lines, name, 0) == Some(value) by {
        let i = choose|i: int|
            0 <= i < lines.len() && credentials::dotenv_entry(#[trigger] lines[i]) == Some(
                (name, value),
            ) && forall|j: int|
                0 <= j < i ==> !(credentials::dotenv_entry(#[trigger] lines[j]) matches Some(entry)
                    && entry.0 == name);
        match credentials::dotenv_value(lines, name, 0) {
            Some(found) => {
                let k = choose|k: int|
                    0 <= k < lines.len() && credentials::dotenv_entry(#[trigger] lines[k]) == Some(
                        (name, found),
                    ) && forall|j: int|
                        0 <= j < k ==> !(credentials::dotenv_entry(
                            #[trigger] lines[j],
                        ) matches Some(entry) && entry.0 == name);
                if i < k {
                    assert(credentials::dotenv_entry(lines[i]) == Some((name, value)));
                } else if k < i {
                    assert(credentials::dotenv_entry(lines[k]) == Some((name, found)));
                }
            },
            None => {
                assert(credentials::dotenv_entry(lines[i]) == Some((name, value)));
            },
        }
    }
}

proof fn lemma_layer(file: DotEnv, name: Seq<char>)
    ensures
        forall|value: Seq<char>| #[trigger]
            has_key(file, name, value) ==> credentials::dotenv_layer(file, name) == Ok::<
                _,
                ErrorView,
            >(Some(value)),
        lacks_key(file, name) ==> credentials::dotenv_layer(file, name) == Ok::<_, ErrorView>(
            None::<Seq<char>>,
        ),
{
    if let Ok(Some(contents)) = file {
        first_entry_counts(contents@, name);
    }
}

/// A key is looked for in the process environment, then in the document, then in the project's file
/// and then in the user's: the first of them that has one gives it, under its own name.
pub proof fn layers_are_searched_in_order(
    doc: Map<Seq<char>, Seq<char>>,
    reference: Seq<char>,
    env: Option<Seq<char>>,
    project: DotEnv,
    user: DotEnv,
    value: Seq<char>,
)
    requires
        credentials::is_ref_name(reference),
    ensures
        ({
            let found = credentials::resolution(doc, reference, env, project, user);
            &&& env == Some(value) && value.len() > 0 ==> found == Ok::<_, ErrorView>(
                Some(ResolvedView { value, source: "env"@ }),
            )
            &&& is_unset(env) ==> {
                &&& doc.contains_key(reference) && doc[reference] == value && value.len() > 0
                    ==> found == Ok::<_, ErrorView>(Some(ResolvedView { value, source: "file"@ }))
                &&& is_missing(doc, reference) ==> {
                    &&& has_key(project, reference, value) ==> found == Ok::<_, ErrorView>(
                        Some(ResolvedView { value, source: "project-env"@ }),
                    )
                    &&& lacks_key(project, reference) ==> {
                        &&& has_key(user, reference, value) ==> found == Ok::<_, ErrorView>(
                            Some(ResolvedView { value, source: "user-env"@ }),
                        )
                        &&& lacks_key(user, reference) ==> found == Ok::<_, ErrorView>(
                            None::<ResolvedView>,
                        )
                    }
                }
            }
        }),
{
    lemma_layer(project, reference);
    lemma_layer(user, reference);
}

/// A file that cannot be read fails the search once it is reached, and not before.
pub proof fn unreadable_file_fails_when_reached(
    doc: Map<Seq<char>, Seq<char>>,
    reference: Seq<char>,
    env: Option<Seq<char>>,
    project: DotEnv,
    user: DotEnv,
    why: String,
)
    requires
        credentials::is_ref_name(reference),
        is_unset(env),
        is_missing(doc, reference),
    ensures
        project == Err::<Option<String>, _>(why) ==> credentials::resolution(
            doc,
            reference,
            env,
            project,
            user,
        ) == Err::<Option<ResolvedView>, _>(ErrorView::Io(why@)),
        lacks_key(project, reference) && user == Err::<Option<String>, _>(why)
            ==> credentials::resolution(doc, reference, env, project, user) == Err::<
            Option<ResolvedView>,
            _,
        >(ErrorView::Io(why@)),
{
    lemma_layer(project, reference);
}

/// What is no name for an environment variable is refused, whatever is asked of it.
pub proof fn bad_name_is_refused(
    doc: Map<Seq<char>, Seq<char>>,
    reference: Seq<char>,
    value: Seq<char>,
    env: Option<Seq<char>>,
    project: DotEnv,
    user: DotEnv,
)
    requires
        !credentials::is_ref_name(reference),
    ensures
        credentials::resolution(doc, reference, env, project, user) == Err::<
            Option<ResolvedView>,
            _,
        >(ErrorView::InvalidRefName(reference)),
        credentials::set_error(reference, value, env) == Some(ErrorView::InvalidRefName(reference)),
        credentials::unset_error(reference, env) == Some(ErrorView::InvalidRefName(reference)),
{
}

/// A character of a key: one that can be printed and is no space, of ASCII.
pub open spec fn is_key_char(c: char) -> bool {
    0x21 <= c as u32 <= 0x7E
}

/// A key is stored under a name, or removed, if and only if the process environment has none; what
/// is stored has a key's characters alone, once the white space around it is gone.
pub proof fn sound_key_is_stored(reference: Seq<char>, value: Seq<char>, env: Option<Seq<char>>)
    requires
        credentials::is_ref_name(reference),
    ensures
        (credentials::set_error(reference, value, env) is None) == (is_unset(env) && text::trimmed(
            value,
        ).len() > 0 && forall|i: int|
            0 <= i < text::trimmed(value).len() ==> is_key_char(
                #[trigger] text::trimmed(value)[i],
            )),
        (credentials::unset_error(reference, env) is None) == is_unset(env),
{
    let inner = text::trimmed(value);
    if credentials::value_error(inner) is None {
        assert forall|i: int| 0 <= i < inner.len() implies is_key_char(#[trigger] inner[i]) by {
            assert(0x21 <= inner[i] as u32 <= 0x7E);
        }
    }
}

/// A name holds no white space, no equals sign and no comment mark.
proof fn lemma_name(name: Seq<char>)
    requires
        credentials::is_ref_name(name),
    ensures
        name.len() > 0,
        forall|i: int|
            0 <= i < name.len() ==> !text::is_space(#[trigger] name[i]) && name[i] != '=' && name[i]
                != '#',
{
    assert forall|i: int| 0 <= i < name.len() implies !text::is_space(#[trigger] name[i]) && name[i]
        != '=' && name[i] != '#' by {
        assert(text::is_alnum(name[i]) || name[i] == '_');
    }
}

/// A text that has white space at neither end.
pub open spec fn is_trim(text: Seq<char>) -> bool {
    text.len() > 0 ==> !text::is_space(text[0]) && !text::is_space(text.last())
}

/// White space alone.
pub open spec fn is_space_all(text: Seq<char>) -> bool {
    forall|i: int| 0 <= i < text.len() ==> text::is_space(#[trigger] text[i])
}

proof fn lemma_padded(before: Seq<char>, inner: Seq<char>, after: Seq<char>)
    requires
        is_space_all(before),
        is_space_all(after),
        is_trim(inner),
    ensures
        text::trimmed(before + inner + after) == inner,
{
    let text = before + inner + after;
    let (from, to) = text_laws::trimming_takes_the_space_around(text);
    if inner.len() == 0 {
        if from < to {
            if from < before.len() {
                assert(text[from] == before[from]);
            } else {
                assert(text[from] == after[from - before.len()]);
            }
        }
        assert(text.subrange(from, to) =~= inner);
    } else {
        let start = before.len() as int;
        let end = before.len() + inner.len();
        assert(text[start] == inner[0]);
        assert(text[end - 1] == inner.last());
        if from < start {
            assert(text[from] == before[from]);
        }
        assert(from == start);
        if to > end {
            assert(text[to - 1] == after[to - 1 - end]);
        }
        assert(to == end);
        assert(text.subrange(from, to) =~= inner);
    }
}

/// A line gives a name its value, with or without `export` before it and with any white space
/// around either; quotes around the value are not part of it.
pub proof fn entry_gives_its_value(
    margin: Seq<char>,
    exported: bool,
    name: Seq<char>,
    gap: Seq<char>,
    space: Seq<char>,
    value: Seq<char>,
    rest: Seq<char>,
)
    requires
        credentials::is_ref_name(name),
        is_space_all(margin),
        is_space_all(gap),
        is_space_all(space),
        is_space_all(rest),
        is_trim(value),
    ensures
        ({
            let before = if exported {
                "export "@
            } else {
                Seq::empty()
            };
            credentials::dotenv_entry(
                margin + before + name + gap + seq!['='] + space + value + rest,
            ) == Some((name, credentials::unquoted(value)))
        }),
{
    lemma_name(name);
    reveal_strlit("export ");
    let before = if exported {
        "export "@
    } else {
        Seq::empty()
    };
    let line = margin + before + name + gap + seq!['='] + space + value + rest;
    let left = before + name + gap;
    // A blank value leaves nothing behind the sign once the line is trimmed.
    let right = if value.len() == 0 {
        Seq::empty()
    } else {
        space + value
    };
    let inner = left + seq!['='] + right;
    let tail = if value.len() == 0 {
        space + rest
    } else {
        rest
    };
    assert(inner[0] == (before + name)[0]);
    if exported {
        assert(inner[0] == 'e');
    } else {
        assert(inner[0] == name[0]);
    }
    if value.len() > 0 {
        assert(inner.last() == value.last());
    } else {
        assert(inner.last() == '=');
    }
    assert(line =~= margin + inner + tail);
    assert(is_space_all(tail));
    lemma_padded(margin, inner, tail);
    text::lemma_char_from(inner, '=', 0);
    let at = text::char_from(inner, '=', 0)->0;
    assert(inner[left.len() as int] == '=');
    if at < left.len() {
        assert(inner[at] == left[at]);
        if at < before.len() {
            assert(left[at] == before[at]);
        } else if at < before.len() + name.len() {
            assert(left[at] == name[at - before.len()]);
        } else {
            assert(left[at] == gap[at - before.len() - name.len()]);
        }
    }
    assert(at == left.len());
    assert(inner.take(at) =~= left);
    assert(inner.skip(at + 1) =~= right);
    let bare = before + name;
    assert(bare[0] == inner[0]);
    assert(bare.last() == name.last());
    assert(left =~= Seq::<char>::empty() + bare + gap);
    lemma_padded(Seq::empty(), bare, gap);
    if value.len() > 0 {
        assert(right =~= space + value + Seq::<char>::empty());
        lemma_padded(space, value, Seq::empty());
    } else {
        assert(right =~= Seq::<char>::empty() + value + Seq::<char>::empty());
        lemma_padded(Seq::empty(), value, Seq::empty());
    }
    if exported {
        assert("export "@.is_prefix_of(bare));
        assert(bare.skip(7) =~= name);
    } else {
        assert(bare =~= name);
        if "export "@.is_prefix_of(name) {
            assert(name[6] == "export "@[6]);
            assert(text::is_space(name[6]));
        }
    }
}

/// Quotes of either kind around a value are not part of it; a value without them is as it is.
pub proof fn quotes_are_not_part_of_a_value(inner: Seq<char>)
    ensures
        credentials::unquoted(seq!['"'] + inner + seq!['"']) == inner,
        credentials::unquoted(seq!['\''] + inner + seq!['\'']) == inner,
        inner.len() == 0 || inner[0] != '"' && inner[0] != '\'' ==> credentials::unquoted(inner)
            == inner,
        inner.len() == 0 || inner.last() != inner[0] ==> credentials::unquoted(inner) == inner,
{
    let double = seq!['"'] + inner + seq!['"'];
    let single = seq!['\''] + inner + seq!['\''];
    assert(double.subrange(1, double.len() - 1) =~= inner);
    assert(single.subrange(1, single.len() - 1) =~= inner);
}

/// A comment, a blank line and a line without an equals sign give nothing.
pub proof fn other_lines_give_nothing(margin: Seq<char>, rest: Seq<char>, line: Seq<char>)
    requires
        is_space_all(margin),
    ensures
        credentials::dotenv_entry(margin + seq!['#'] + rest) is None,
        credentials::dotenv_entry(margin) is None,
        !line.contains('=') ==> credentials::dotenv_entry(line) is None,
{
    let comment = margin + seq!['#'] + rest;
    let (from, to) = text_laws::trimming_takes_the_space_around(comment);
    assert(comment[margin.len() as int] == '#');
    if from < margin.len() {
        assert(comment[from] == margin[from]);
    }
    assert(from == margin.len() && from < to);
    assert(text::trimmed(comment)[0] == '#');
    text_laws::blank_text_is_white_space(margin);
    if !line.contains('=') {
        let (from, to) = text_laws::trimming_takes_the_space_around(line);
        let inner = text::trimmed(line);
        text::lemma_char_from(inner, '=', 0);
        if let Some(at) = text::char_from(inner, '=', 0) {
            assert(line[from + at] == '=');
        }
    }
}

/// A document is sound if and only if it has the right version, and a name and a key in each entry;
/// otherwise its version or its first faulty entry is told.
pub proof fn first_fault_is_told(version: u32, refs: Seq<(String, String)>)
    ensures
        version != 1 ==> credentials::document_error(version, refs) == Some(
            ErrorView::Version(version),
        ),
        version == 1 ==> match credentials::document_error(version, refs) {
            None => forall|i: int|
                0 <= i < refs.len() ==> credentials::is_ref_name((#[trigger] refs[i]).0@)
                    && refs[i].1@.len() > 0,
            Some(error) => exists|i: int|
                0 <= i < refs.len() && (if credentials::is_ref_name((#[trigger] refs[i]).0@) {
                    refs[i].1@.len() == 0 && error is Parse
                } else {
                    error == ErrorView::InvalidRefName(refs[i].0@)
                }) && forall|j: int|
                    0 <= j < i ==> credentials::is_ref_name((#[trigger] refs[j]).0@)
                        && refs[j].1@.len() > 0,
        },
    decreases refs.len(),
{
    if version == 1 && refs.len() > 0 {
        let rest = refs.drop_last();
        first_fault_is_told(version, rest);
        match credentials::entries_error(rest) {
            Some(error) => {
                let i = choose|i: int|
                    0 <= i < rest.len() && (if credentials::is_ref_name((#[trigger] rest[i]).0@) {
                        rest[i].1@.len() == 0 && error is Parse
                    } else {
                        error == ErrorView::InvalidRefName(rest[i].0@)
                    }) && forall|j: int|
                        0 <= j < i ==> credentials::is_ref_name((#[trigger] rest[j]).0@)
                            && rest[j].1@.len() > 0;
                assert(refs[i] == rest[i]);
                assert forall|j: int| 0 <= j < i implies credentials::is_ref_name(
                    (#[trigger] refs[j]).0@,
                ) && refs[j].1@.len() > 0 by {
                    assert(refs[j] == rest[j]);
                }
            },
            None => {
                assert forall|j: int| 0 <= j < rest.len() implies credentials::is_ref_name(
                    (#[trigger] refs[j]).0@,
                ) && refs[j].1@.len() > 0 by {
                    assert(refs[j] == rest[j]);
                }
                assert(refs[refs.len() - 1] == refs.last());
            },
        }
    }
}

/// A document gives each name the last value that is entered under it.
pub proof fn last_value_is_stored(refs: Seq<(String, String)>, name: Seq<char>, at: int)
    requires
        0 <= at < refs.len(),
        refs[at].0@ == name,
        forall|j: int| at < j < refs.len() ==> (#[trigger] refs[j]).0@ != name,
    ensures
        credentials::stored(refs).contains_key(name),
        credentials::stored(refs)[name] == refs[at].1@,
    decreases refs.len(),
{
    if at < refs.len() - 1 {
        let rest = refs.drop_last();
        assert forall|j: int| at < j < rest.len() implies (#[trigger] rest[j]).0@ != name by {
            assert(refs[j].0@ != name);
        }
        last_value_is_stored(rest, name, at);
        assert(refs[refs.len() - 1].0@ != name);
    }
}

/// A document has nothing under a name that is not entered.
pub proof fn nothing_else_is_stored(refs: Seq<(String, String)>, name: Seq<char>)
    requires
        forall|j: int| 0 <= j < refs.len() ==> (#[trigger] refs[j]).0@ != name,
    ensures
        !credentials::stored(refs).contains_key(name),
    decreases refs.len(),
{
    if refs.len() > 0 {
        let rest = refs.drop_last();
        assert forall|j: int| 0 <= j < rest.len() implies (#[trigger] rest[j]).0@ != name by {
            assert(refs[j].0@ != name);
        }
        nothing_else_is_stored(rest, name);
        assert(refs[refs.len() - 1].0@ != name);
    }
}

} // verus!
