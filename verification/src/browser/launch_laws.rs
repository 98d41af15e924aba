//! What holds of finding a browser on the machine and the address that it listens on.
use vstd::prelude::*;

use crate::browser::launch;
use crate::browser::launch::Place;
use crate::text;
use crate::text_laws;

verus! {

/// The first place that holds a file is taken.
pub proof fn first_file_is_taken(places: Seq<Place>, at: int)
    requires
        0 <= at <= places.len(),
        forall|i: int| 0 <= i < at ==> !(#[trigger] places[i]).is_file,
        at < places.len() ==> places[at].is_file,
    ensures
        launch::first_file(places, 0) == if at < places.len() {
            Some(places[at].path@)
        } else {
            None
        },
{
    lemma_first(places, at, 0);
}

proof fn lemma_first(places: Seq<Place>, at: int, from: int)
    requires
        0 <= from <= at <= places.len(),
        forall|i: int| from <= i < at ==> !(#[trigger] places[i]).is_file,
        at < places.len() ==> places[at].is_file,
    ensures
        launch::first_file(places, from) == if at < places.len() {
            Some(places[at].path@)
        } else {
            None
        },
    decreases at - from,
{
    if from < at {
        lemma_first(places, at, from + 1);
    }
}

/// The registered Chrome goes before the usual places, and these before the registered Edge. What
/// is registered but not there does not count.
pub proof fn chrome_goes_first(chrome: Place, edge: Place, usual: Seq<Place>, at: int)
    requires
        0 <= at <= usual.len(),
        forall|i: int| 0 <= i < at ==> !(#[trigger] usual[i]).is_file,
        at < usual.len() ==> usual[at].is_file,
    ensures
        chrome.is_file ==> launch::browser_path(Some(chrome), Some(edge), usual) == Some(chrome.path@),
        !chrome.is_file && at < usual.len() ==> launch::browser_path(
            Some(chrome),
            Some(edge),
            usual,
        ) == Some(usual[at].path@),
        !chrome.is_file && at == usual.len() && edge.is_file ==> launch::browser_path(
            Some(chrome),
            Some(edge),
            usual,
        ) == Some(edge.path@),
        at < usual.len() ==> launch::browser_path(None, Some(edge), usual) == Some(usual[at].path@),
        at < usual.len() ==> launch::browser_path(None, None, usual) == Some(usual[at].path@),
        at == usual.len() && edge.is_file ==> launch::browser_path(None, Some(edge), usual) == Some(
            edge.path@,
        ),
        at == usual.len() ==> launch::browser_path(None, None, usual) is None,
{
    first_file_is_taken(usual, at);
}

/// What the registry holds is read behind the mark of its kind, and the first line that says
/// something counts.
pub proof fn registered_value_is_read(
    before: Seq<Seq<char>>,
    name: Seq<char>,
    value: Seq<char>,
    after: Seq<Seq<char>>,
)
    requires
        forall|i: int| 0 <= i < before.len() ==> !text::has(#[trigger] before[i], "REG_SZ"@),
        !text::has(name + "REG_SZ"@.drop_last(), "REG_SZ"@),
    ensures
        ({
            let lines = before + seq![name + "REG_SZ"@ + value] + after;
            text::trimmed(value).len() > 0 ==> launch::registry_value(lines, 0) == Some(
                text::trimmed(value),
            )
        }),
{
    let lines = before + seq![name + "REG_SZ"@ + value] + after;
    let line = name + "REG_SZ"@ + value;
    reveal_strlit("REG_SZ");
    text::lemma_find_from(line, "REG_SZ"@, 0);
    let at = name.len() as int;
    assert(line.subrange(at, at + 6) =~= "REG_SZ"@);
    assert(text::occurs_at(line, "REG_SZ"@, at));
    let found = text::find_from(line, "REG_SZ"@, 0)->0;
    if found < at {
        let head = name + "REG_SZ"@.drop_last();
        assert(head.subrange(found, found + 6) =~= line.subrange(found, found + 6));
        assert(text::occurs_at(head, "REG_SZ"@, found));
    }
    assert(line.skip(at + 6) =~= value);
    assert(lines[before.len() as int] == line);
    assert forall|i: int| 0 <= i < before.len() implies !text::has(#[trigger] lines[i], "REG_SZ"@) by {
        assert(lines[i] == before[i]);
    }
    if text::trimmed(value).len() > 0 {
        lemma_registry(lines, before.len() as int, 0);
    }
}

proof fn lemma_registry(lines: Seq<Seq<char>>, at: int, from: int)
    requires
        0 <= from <= at < lines.len(),
        forall|i: int| from <= i < at ==> !text::has(#[trigger] lines[i], "REG_SZ"@),
        launch::registry_line(lines[at]) is Some,
    ensures
        launch::registry_value(lines, from) == launch::registry_line(lines[at]),
    decreases at - from,
{
    if from < at {
        text::lemma_find_from(lines[from], "REG_SZ"@, 0);
        assert(!text::has(lines[from], "REG_SZ"@));
        lemma_registry(lines, at, from + 1);
    }
}

/// The browser says on which port it listens, and under which path. Without a path the usual one is
/// meant, and without a port there is no address yet.
pub proof fn browser_says_where_it_listens(port: Seq<char>, path: Seq<char>, rest: Seq<Seq<char>>)
    ensures
        !text::is_blank(port) && !text::is_blank(path) ==> launch::address(seq![port, path] + rest)
            == Some("ws://127.0.0.1:"@ + text::trimmed(port) + text::trimmed(path)),
        !text::is_blank(port) ==> launch::address(seq![port]) == Some(
            "ws://127.0.0.1:"@ + text::trimmed(port) + "/devtools/browser"@,
        ),
        text::is_blank(port) ==> launch::address(seq![port, path] + rest) is None,
        launch::address(Seq::empty()) is None,
{
    let lines = seq![port, path] + rest;
    assert(lines[0] == port && lines[1] == path);
}

/// Every backslash is doubled, and nothing else changes.
pub proof fn backslashes_are_doubled(a: Seq<char>, b: Seq<char>, c: char)
    ensures
        launch::doubled(a + b) == launch::doubled(a) + launch::doubled(b),
        launch::doubled(seq!['\\']) == seq!['\\', '\\'],
        c != '\\' ==> launch::doubled(seq![c]) == seq![c],
        launch::doubled(Seq::empty()) == Seq::<char>::empty(),
    decreases b.len(),
{
    if b.len() > 0 {
        assert((a + b).drop_last() =~= a + b.drop_last());
        backslashes_are_doubled(a, b.drop_last(), c);
        assert(launch::doubled(a + b) =~= launch::doubled(a) + launch::doubled(b));
    } else {
        assert(a + b =~= a);
        assert(launch::doubled(a + b) =~= launch::doubled(a) + launch::doubled(b));
    }
    assert(launch::doubled(Seq::<char>::empty()) =~= Seq::<char>::empty());
    assert(seq!['\\'].drop_last() =~= Seq::<char>::empty());
    assert(seq![c].drop_last() =~= Seq::<char>::empty());
    assert(launch::doubled(seq!['\\']) =~= seq!['\\', '\\']);
}

/// A browser is started with a profile of its own and shows the blank page.
pub proof fn browser_starts_with_its_profile(profile: Seq<char>)
    ensures
        launch::launch_words(profile).contains("--user-data-dir="@ + profile),
        launch::launch_words(profile).contains("--remote-debugging-port=0"@),
        launch::launch_words(profile).last() == "about:blank"@,
{
    let words = launch::launch_words(profile);
    assert(words[2] == "--user-data-dir="@ + profile);
    assert(words[0] == "--remote-debugging-port=0"@);
}

/// The port is read out of the file that the browser writes, line by line.
pub proof fn port_is_read_out_of_the_file(port: Seq<char>, path: Seq<char>, contents: &str)
    requires
        !port.contains('\n'),
        !path.contains('\n'),
        path.len() > 0,
        port.len() > 0,
        port.last() != '\r',
        !text::is_blank(port),
        !text::is_blank(path),
        contents@ == port + seq!['\n'] + path,
    ensures
        launch::port_of(Some(contents)) == Some(
            "ws://127.0.0.1:"@ + text::trimmed(port) + text::trimmed(path),
        ),
        launch::port_of(None) is None,
{
    text_laws::lines_end_at_line_feeds(port, path);
    text_laws::lines_end_at_line_feeds(path, port);
    assert(text::lines(contents@) =~= seq![port, path] + Seq::<Seq<char>>::empty());
    browser_says_where_it_listens(port, path, Seq::empty());
}

} // verus!
