//! What stands before a turn: the notices of what the user handed in, and the user's message.
use vstd::prelude::*;
use vstd::string::*;

use crate::agent::log;
use crate::agent::log::{injected_message, none, note, EventView};
use crate::message;
use crate::message::{ImageData, ImageView};
use crate::session::SessionEvent;
use crate::text;
use crate::text::{cat2, cat3, cat5, decimal_text, join, push_text, str_eq, strip_prefix};

verus! {

/// A text in upper case, as `str::to_uppercase` writes it.
pub uninterp spec fn uppercased(text: Seq<char>) -> Seq<char>;

/// `str::to_uppercase` of the standard library: a text in upper case. What it does to each letter
/// is not stated, only that it depends on the text alone.
#[verifier::external_body]
fn to_uppercase(text: &str) -> (upper: String)
    ensures
        upper@ == uppercased(text@),
{
    text.to_uppercase()
}

/// The label of an image type: the usual name, or else what stands behind `image/`, in upper case.
pub open spec fn kind_label(mime: Seq<char>) -> Seq<char> {
    if mime == "image/png"@ {
        "PNG"@
    } else if mime == "image/jpeg"@ {
        "JPEG"@
    } else if mime == "image/gif"@ {
        "GIF"@
    } else if mime == "image/webp"@ {
        "WEBP"@
    } else if mime == "image/bmp"@ {
        "BMP"@
    } else {
        match text::after_prefix(mime, "image/"@) {
            Some(rest) => uppercased(rest),
            None => uppercased(mime),
        }
    }
}

/// The label of an image type.
pub fn image_kind_label(mime: &str) -> (label: String)
    ensures
        label@ == kind_label(mime@),
{
    if str_eq(mime, "image/png") {
        "PNG".to_owned()
    } else if str_eq(mime, "image/jpeg") {
        "JPEG".to_owned()
    } else if str_eq(mime, "image/gif") {
        "GIF".to_owned()
    } else if str_eq(mime, "image/webp") {
        "WEBP".to_owned()
    } else if str_eq(mime, "image/bmp") {
        "BMP".to_owned()
    } else {
        match strip_prefix(mime, "image/") {
            Some(rest) => to_uppercase(rest.as_str()),
            None => to_uppercase(mime),
        }
    }
}

/// Where a label stands in a tally.
pub open spec fn tally_at(tally: Seq<(Seq<char>, nat)>, label: Seq<char>, from: int) -> Option<int>
    decreases tally.len() - from,
{
    if from < 0 || from >= tally.len() {
        None
    } else if tally[from].0 == label {
        Some(from)
    } else {
        tally_at(tally, label, from + 1)
    }
}

/// How often each label occurs, in the order in which they first occur.
pub open spec fn tally(labels: Seq<Seq<char>>) -> Seq<(Seq<char>, nat)>
    decreases labels.len(),
{
    if labels.len() == 0 {
        Seq::empty()
    } else {
        let before = tally(labels.drop_last());
        let label = labels.last();
        match tally_at(before, label, 0) {
            Some(at) => before.update(at, (label, before[at].1 + 1)),
            None => before.push((label, 1)),
        }
    }
}

/// A label with its count, where that is not one.
pub open spec fn counted(entry: (Seq<char>, nat)) -> Seq<char> {
    if entry.1 > 1 {
        entry.0 + "×"@ + text::decimal(entry.1)
    } else {
        entry.0
    }
}

/// The labels with their counts, as in `PNG×2、JPEG`.
pub open spec fn label_summary(labels: Seq<Seq<char>>) -> Seq<char> {
    text::joined(tally(labels).map_values(|entry: (Seq<char>, nat)| counted(entry)), "、"@)
}

pub open spec fn tally_views(entries: Seq<(String, u64)>) -> Seq<(Seq<char>, nat)> {
    entries.map_values(|entry: (String, u64)| (entry.0@, entry.1 as nat))
}

proof fn lemma_tally_at(tally: Seq<(Seq<char>, nat)>, label: Seq<char>, from: int)
    requires
        0 <= from <= tally.len(),
    ensures
        match tally_at(tally, label, from) {
            Some(at) => from <= at < tally.len() && tally[at].0 == label,
            None => forall|j: int| from <= j < tally.len() ==> tally[j].0 != label,
        },
    decreases tally.len() - from,
{
    if from < tally.len() && tally[from].0 != label {
        lemma_tally_at(tally, label, from + 1);
    }
}

fn find_label(entries: &Vec<(String, u64)>, label: &str) -> (at: Option<usize>)
    ensures
        tally_at(tally_views(entries@), label@, 0) == (match at {
            Some(at) => Some(at as int),
            None => None::<int>,
        }),
        at matches Some(at) ==> at < entries@.len() && entries@[at as int].0@ == label@,
{
    let ghost all = tally_views(entries@);
    let mut i: usize = 0;
    while i < entries.len()
        invariant
            i <= entries@.len(),
            all == tally_views(entries@),
            tally_at(all, label@, 0) == tally_at(all, label@, i as int),
        decreases entries@.len() - i,
    {
        if str_eq(entries[i].0.as_str(), label) {
            return Some(i);
        }
        i += 1;
    }
    None
}

/// How many labels were counted.
pub open spec fn total(tally: Seq<(Seq<char>, nat)>) -> nat
    decreases tally.len(),
{
    if tally.len() == 0 {
        0
    } else {
        total(tally.drop_last()) + tally.last().1
    }
}

proof fn lemma_total_update(tally: Seq<(Seq<char>, nat)>, at: int, entry: (Seq<char>, nat))
    requires
        0 <= at < tally.len(),
    ensures
        total(tally.update(at, entry)) == total(tally) - tally[at].1 + entry.1,
        tally[at].1 <= total(tally),
    decreases tally.len(),
{
    let next = tally.update(at, entry);
    if at == tally.len() - 1 {
        assert(next.drop_last() =~= tally.drop_last());
    } else {
        assert(next.drop_last() =~= tally.drop_last().update(at, entry));
        lemma_total_update(tally.drop_last(), at, entry);
    }
}

/// Every label is counted once: the counts add up to the number of labels.
pub proof fn every_image_is_counted(labels: Seq<Seq<char>>)
    ensures
        total(tally(labels)) == labels.len(),
    decreases labels.len(),
{
    if labels.len() > 0 {
        every_image_is_counted(labels.drop_last());
        let before = tally(labels.drop_last());
        let label = labels.last();
        lemma_tally_at(before, label, 0);
        match tally_at(before, label, 0) {
            Some(at) => {
                lemma_total_update(before, at, (label, before[at].1 + 1));
            },
            None => {
                assert(before.push((label, 1nat)).drop_last() =~= before);
            },
        }
    }
}

/// The labels with their counts.
pub fn summarize_labels(labels: &Vec<String>) -> (summary: String)
    ensures
        summary@ == label_summary(text::views(labels@)),
{
    let ghost all = text::views(labels@);
    let mut entries: Vec<(String, u64)> = Vec::new();
    let mut i: usize = 0;
    assert(tally_views(entries@) =~= Seq::empty());
    while i < labels.len()
        invariant
            i <= labels@.len(),
            all == text::views(labels@),
            tally_views(entries@) == tally(all.take(i as int)),
        decreases labels@.len() - i,
    {
        let ghost seen = all.take(i as int);
        assert(all.take(i + 1).drop_last() =~= seen);
        proof {
            every_image_is_counted(seen);
        }
        let ghost before = tally_views(entries@);
        match find_label(&entries, labels[i].as_str()) {
            Some(at) => {
                let count: u64 = entries[at].1;
                proof {
                    lemma_total_update(before, at as int, before[at as int]);
                }
                assert(count < u64::MAX);
                let label = labels[i].clone();
                entries.set(at, (label, count + 1));
                assert(tally_views(entries@) =~= before.update(
                    at as int,
                    (labels@[i as int]@, (count + 1) as nat),
                ));
            },
            None => {
                entries.push((labels[i].clone(), 1));
                assert(tally_views(entries@) =~= before.push((labels@[i as int]@, 1nat)));
            },
        }
        i += 1;
    }
    assert(all.take(all.len() as int) =~= all);
    let ghost tallied = tally(all);
    let mut parts: Vec<String> = Vec::new();
    let mut i: usize = 0;
    assert(text::views(parts@) =~= tallied.take(0).map_values(
        |entry: (Seq<char>, nat)| counted(entry),
    ));
    while i < entries.len()
        invariant
            i <= entries@.len(),
            tallied == tally_views(entries@),
            text::views(parts@) == tallied.take(i as int).map_values(
                |entry: (Seq<char>, nat)| counted(entry),
            ),
        decreases entries@.len() - i,
    {
        let part = if entries[i].1 > 1 {
            cat3(entries[i].0.as_str(), "×", decimal_text(entries[i].1).as_str())
        } else {
            entries[i].0.clone()
        };
        assert(part@ == counted(tallied[i as int]));
        push_text(&mut parts, part);
        assert(text::views(parts@) =~= tallied.take(i + 1).map_values(
            |entry: (Seq<char>, nat)| counted(entry),
        ));
        i += 1;
    }
    assert(tallied.take(tallied.len() as int) =~= tallied);
    join(&parts, "、")
}

/// The labels of a list of images.
pub open spec fn image_labels(images: Seq<ImageView>) -> Seq<Seq<char>> {
    images.map_values(|image: ImageView| kind_label(image.mime))
}

/// The types of the images with their counts, as in `PNG×2、JPEG`.
pub fn image_kind_summary(images: &[ImageData]) -> (summary: String)
    ensures
        summary@ == label_summary(image_labels(message::image_views(images@))),
{
    let ghost wanted = image_labels(message::image_views(images@));
    let mut labels: Vec<String> = Vec::new();
    let mut i: usize = 0;
    while i < images.len()
        invariant
            i <= images@.len(),
            wanted == image_labels(message::image_views(images@)),
            text::views(labels@) =~= wanted.take(i as int),
        decreases images@.len() - i,
    {
        let label = image_kind_label(images[i].mime.as_str());
        push_text(&mut labels, label);
        assert(wanted.take(i + 1) =~= wanted.take(i as int).push(wanted[i as int]));
        i += 1;
    }
    assert(wanted.take(wanted.len() as int) =~= wanted);
    summarize_labels(&labels)
}

/// The lines of the images that lie on disk.
pub open spec fn path_lines(images: Seq<ImageView>) -> Seq<Seq<char>>
    decreases images.len(),
{
    if images.len() == 0 {
        Seq::empty()
    } else {
        match images.last().path {
            Some(path) => path_lines(images.drop_last()).push("- "@ + path),
            None => path_lines(images.drop_last()),
        }
    }
}

/// Where the images lie; empty where none lies on disk.
pub open spec fn paths_text(images: Seq<ImageView>) -> Seq<char> {
    if path_lines(images).len() == 0 {
        Seq::empty()
    } else {
        "\n已同时保存到本地,路径如下:\n"@ + text::joined(path_lines(images), "\n"@) + "\n"@
    }
}

/// Where the images lie; empty where none lies on disk.
pub fn image_paths_list(images: &[ImageData]) -> (list: String)
    ensures
        list@ == paths_text(message::image_views(images@)),
{
    let ghost all = message::image_views(images@);
    let mut lines: Vec<String> = Vec::new();
    let mut i: usize = 0;
    assert(text::views(lines@) =~= Seq::empty());
    while i < images.len()
        invariant
            i <= images@.len(),
            all == message::image_views(images@),
            text::views(lines@) == path_lines(all.take(i as int)),
        decreases images@.len() - i,
    {
        assert(all.take(i + 1).drop_last() =~= all.take(i as int));
        if let Some(path) = &images[i].path {
            let line = cat2("- ", path.as_str());
            push_text(&mut lines, line);
        }
        i += 1;
    }
    assert(all.take(all.len() as int) =~= all);
    if lines.len() == 0 {
        let empty = "".to_owned();
        proof {
            reveal_strlit("");
        }
        assert(empty@ =~= Seq::empty());
        return empty;
    }
    cat3(
        "\n已同时保存到本地,路径如下:\n",
        join(&lines, "\n").as_str(),
        "\n",
    )
}

/// What the model is told of uploaded files.
pub open spec fn file_notice(files: Seq<Seq<char>>) -> Seq<char> {
    "[harness] 用户上传了文件:\n"@ + text::joined(
        files.map_values(|path: Seq<char>| "- "@ + path),
        "\n"@,
    ) + "\n这些文件已保存,可随时用工具读取。"@
}

/// What the model is told of quoted records.
pub open spec fn quote_notice(quoted: Seq<(Seq<char>, Seq<char>)>) -> Seq<char> {
    "[harness] 用户从轨迹视图引用了以下记录,请结合这些内容回答:\n\n"@ + text::joined(
        quoted.map_values(
            |entry: (Seq<char>, Seq<char>)| "---\n["@ + entry.0 + "]\n"@ + entry.1 + "\n"@,
        ),
        "\n"@,
    )
}

/// What the model is told of uploaded images.
pub open spec fn image_notice(images: Seq<ImageView>) -> Seq<char> {
    "[harness] 用户上传了 "@ + text::decimal(images.len()) + " 张图片("@ + label_summary(
        image_labels(images),
    ) + "),已作为图片附在紧随其后的用户消息中。"@ + (paths_text(images)
        + "\n若你在该消息里看不到图片内容,请用 read_file 读取上述路径;仍取不到再告知用户\"未收到图片\",不要猜测其内容。"@)
}

pub open spec fn quote_views(quoted: Seq<(String, String)>) -> Seq<(Seq<char>, Seq<char>)> {
    quoted.map_values(|entry: (String, String)| (entry.0@, entry.1@))
}

/// An event, if it is called for.
pub open spec fn if_called(called: bool, event: EventView) -> Seq<EventView> {
    if called {
        seq![event]
    } else {
        Seq::empty()
    }
}

/// What stands before a turn: the notices of files, quotes and images, the user's message, and the
/// start of the turn. The model sees them in this order.
pub open spec fn turn_input(
    turn: u32,
    prompt: Seq<char>,
    images: Seq<ImageView>,
    files: Seq<Seq<char>>,
    quoted: Seq<(Seq<char>, Seq<char>)>,
) -> Seq<EventView> {
    if_called(files.len() > 0, log::injection("file-notice"@, file_notice(files))) + if_called(
        quoted.len() > 0,
        log::injection("quote"@, quote_notice(quoted)),
    ) + if_called(images.len() > 0, log::injection("image-notice"@, image_notice(images)))
        + if_called(
        prompt.len() > 0 || images.len() > 0,
        EventView::Asked { text: prompt, channel: None, images },
    ) + seq![EventView::TurnStart { turn }]
}

fn file_notice_text(files: &Vec<String>) -> (notice: String)
    ensures
        notice@ == file_notice(text::views(files@)),
{
    let ghost wanted = text::views(files@).map_values(|path: Seq<char>| "- "@ + path);
    let mut lines: Vec<String> = Vec::new();
    let mut i: usize = 0;
    while i < files.len()
        invariant
            i <= files@.len(),
            wanted == text::views(files@).map_values(|path: Seq<char>| "- "@ + path),
            text::views(lines@) =~= wanted.take(i as int),
        decreases files@.len() - i,
    {
        let line = cat2("- ", files[i].as_str());
        push_text(&mut lines, line);
        assert(wanted.take(i + 1) =~= wanted.take(i as int).push(wanted[i as int]));
        i += 1;
    }
    assert(wanted.take(wanted.len() as int) =~= wanted);
    cat3(
        "[harness] 用户上传了文件:\n",
        join(&lines, "\n").as_str(),
        "\n这些文件已保存,可随时用工具读取。",
    )
}

fn quote_notice_text(quoted: &Vec<(String, String)>) -> (notice: String)
    ensures
        notice@ == quote_notice(quote_views(quoted@)),
{
    let ghost wanted = quote_views(quoted@).map_values(
        |entry: (Seq<char>, Seq<char>)| "---\n["@ + entry.0 + "]\n"@ + entry.1 + "\n"@,
    );
    let mut parts: Vec<String> = Vec::new();
    let mut i: usize = 0;
    while i < quoted.len()
        invariant
            i <= quoted@.len(),
            wanted == quote_views(quoted@).map_values(
                |entry: (Seq<char>, Seq<char>)| "---\n["@ + entry.0 + "]\n"@ + entry.1 + "\n"@,
            ),
            text::views(parts@) =~= wanted.take(i as int),
        decreases quoted@.len() - i,
    {
        let part = cat5("---\n[", quoted[i].0.as_str(), "]\n", quoted[i].1.as_str(), "\n");
        assert(part@ == wanted[i as int]);
        push_text(&mut parts, part);
        assert(wanted.take(i + 1) =~= wanted.take(i as int).push(wanted[i as int]));
        i += 1;
    }
    assert(wanted.take(wanted.len() as int) =~= wanted);
    cat2(
        "[harness] 用户从轨迹视图引用了以下记录,请结合这些内容回答:\n\n",
        join(&parts, "\n").as_str(),
    )
}

fn image_notice_text(images: &Vec<ImageData>) -> (notice: String)
    ensures
        notice@ == image_notice(message::image_views(images@)),
{
    let kinds = image_kind_summary(images.as_slice());
    let paths = image_paths_list(images.as_slice());
    let count = decimal_text(images.len() as u64);
    let head = cat5(
        "[harness] 用户上传了 ",
        count.as_str(),
        " 张图片(",
        kinds.as_str(),
        "),已作为图片附在紧随其后的用户消息中。",
    );
    let tail = cat2(
        paths.as_str(),
        "\n若你在该消息里看不到图片内容,请用 read_file 读取上述路径;仍取不到再告知用户\"未收到图片\",不要猜测其内容。",
    );
    cat2(head.as_str(), tail.as_str())
}

/// What is logged before a turn. A user who sends images and writes nothing still gets a message,
/// for the images go with it.
pub fn prepare_turn_input(
    turn: u32,
    prompt: &str,
    images: Vec<ImageData>,
    files: &Vec<String>,
    quoted: &Vec<(String, String)>,
) -> (events: Vec<SessionEvent>)
    ensures
        log::event_views(events@) == turn_input(
            turn,
            prompt@,
            message::image_views(images@),
            text::views(files@),
            quote_views(quoted@),
        ),
{
    let ghost pictures = message::image_views(images@);
    let mut events = none();
    if files.len() > 0 {
        note(&mut events, injected_message("file-notice", file_notice_text(files)));
    }
    if quoted.len() > 0 {
        note(&mut events, injected_message("quote", quote_notice_text(quoted)));
    }
    if images.len() > 0 {
        note(&mut events, injected_message("image-notice", image_notice_text(&images)));
    }
    if !prompt.is_empty() || images.len() > 0 {
        let message = SessionEvent::UserMessage {
            text: prompt.to_owned(),
            injected: false,
            channel: None,
            images,
        };
        note(&mut events, message);
    }
    note(&mut events, SessionEvent::TurnStart { turn });
    assert(log::event_views(events@) =~= turn_input(
        turn,
        prompt@,
        pictures,
        text::views(files@),
        quote_views(quoted@),
    ));
    events
}

/// The user's own message is never lost: whatever is handed in, it stands right before the turn's
/// start, unless there is neither a text nor an image.
pub proof fn users_message_opens_the_turn(
    turn: u32,
    prompt: Seq<char>,
    images: Seq<ImageView>,
    files: Seq<Seq<char>>,
    quoted: Seq<(Seq<char>, Seq<char>)>,
)
    requires
        prompt.len() > 0 || images.len() > 0,
    ensures
        ({
            let input = turn_input(turn, prompt, images, files, quoted);
            &&& input.len() >= 2
            &&& input[input.len() - 1] == (EventView::TurnStart { turn })
            &&& input[input.len() - 2] == (EventView::Asked { text: prompt, channel: None, images })
        }),
{
}

} // verus!
