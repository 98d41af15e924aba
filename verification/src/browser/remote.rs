//! Values of a page as they are told: for reading, and for use.
use vstd::prelude::*;
use vstd::string::*;

use crate::json;
use crate::json::{object, object_of, Json, JsonView};
use crate::text;
use crate::text::{cat3, join, push_text, str_eq};

verus! {

/// A member of a member.
pub open spec fn inner_member(value: JsonView, first: Seq<char>, second: Seq<char>) -> Option<JsonView> {
    match json::member(value, first) {
        Some(inner) => json::member(inner, second),
        None => None,
    }
}

pub(crate) fn get_inner<'a>(value: &'a Json, first: &str, second: &str) -> (member: Option<&'a Json>)
    ensures
        match member {
            Some(member) => inner_member(value@, first@, second@) == Some(member@),
            None => inner_member(value@, first@, second@) is None,
        },
{
    match value.get(first) {
        Some(inner) => inner.get(second),
        None => None,
    }
}

/// A member that is a text; empty where there is none.
pub open spec fn text_at(value: JsonView, key: Seq<char>) -> Seq<char> {
    json::text_or(value, key, Seq::empty())
}

pub(crate) fn read_text(value: &Json, key: &str) -> (text: String)
    ensures
        text@ == text_at(value@, key@),
{
    proof {
        reveal_strlit("");
        assert(""@ =~= Seq::empty());
    }
    value.str_or(key, "")
}

/// The texts among some values.
pub open spec fn texts_in(items: Seq<JsonView>) -> Seq<Seq<char>>
    decreases items.len(),
{
    if items.len() == 0 {
        Seq::empty()
    } else {
        match json::text_of(items.last()) {
            Some(text) => texts_in(items.drop_last()).push(text),
            None => texts_in(items.drop_last()),
        }
    }
}

/// The texts that some values have under a key.
pub open spec fn texts_under(items: Seq<JsonView>, key: Seq<char>) -> Seq<Seq<char>>
    decreases items.len(),
{
    if items.len() == 0 {
        Seq::empty()
    } else {
        match json::member_text(items.last(), key) {
            Some(text) => texts_under(items.drop_last(), key).push(text),
            None => texts_under(items.drop_last(), key),
        }
    }
}

pub(crate) fn read_texts(value: &Json, key: &str) -> (texts: Vec<String>)
    ensures
        text::views(texts@) == texts_in(json::items_or_empty(value@, key@)),
{
    let mut texts: Vec<String> = Vec::new();
    assert(text::views(texts@) =~= Seq::empty());
    let items = match value.get(key) {
        Some(member) => match member.as_array() {
            Some(items) => items,
            None => {
                return texts;
            },
        },
        None => {
            return texts;
        },
    };
    let ghost all = json::trees(items@);
    let mut i: usize = 0;
    assert(all.take(0) =~= Seq::empty());
    while i < items.len()
        invariant
            i <= items@.len(),
            all == json::trees(items@),
            all == json::items_or_empty(value@, key@),
            text::views(texts@) == texts_in(all.take(i as int)),
        decreases items@.len() - i,
    {
        assert(all.take(i + 1).drop_last() =~= all.take(i as int));
        assert(all[i as int] == items@[i as int]@);
        if let Some(text) = items[i].as_str() {
            push_text(&mut texts, text.to_owned());
        }
        i += 1;
    }
    assert(all.take(all.len() as int) =~= all);
    texts
}

pub(crate) fn read_texts_under(value: &Json, key: &str, inner: &str) -> (texts: Vec<String>)
    ensures
        text::views(texts@) == texts_under(json::items_or_empty(value@, key@), inner@),
{
    let mut texts: Vec<String> = Vec::new();
    assert(text::views(texts@) =~= Seq::empty());
    let items = match value.get(key) {
        Some(member) => match member.as_array() {
            Some(items) => items,
            None => {
                return texts;
            },
        },
        None => {
            return texts;
        },
    };
    let ghost all = json::trees(items@);
    let mut i: usize = 0;
    assert(all.take(0) =~= Seq::empty());
    while i < items.len()
        invariant
            i <= items@.len(),
            all == json::trees(items@),
            all == json::items_or_empty(value@, key@),
            text::views(texts@) == texts_under(all.take(i as int), inner@),
        decreases items@.len() - i,
    {
        assert(all.take(i + 1).drop_last() =~= all.take(i as int));
        assert(all[i as int] == items@[i as int]@);
        if let Some(text) = items[i].get_str(inner) {
            push_text(&mut texts, text.to_owned());
        }
        i += 1;
    }
    assert(all.take(all.len() as int) =~= all);
    texts
}

/// The properties of a value that have a name, each with what it is.
pub open spec fn properties(items: Seq<JsonView>) -> Seq<Seq<char>>
    decreases items.len(),
{
    if items.len() == 0 {
        Seq::empty()
    } else {
        let rest = properties(items.drop_last());
        match json::member_text(items.last(), "name"@) {
            Some(name) => rest.push(name + ": "@ + json::text_or(items.last(), "value"@, "?"@)),
            None => rest,
        }
    }
}

/// What a value looks like, by its properties.
pub open spec fn preview_text(value: JsonView) -> Seq<char> {
    "{"@ + text::joined(
        properties(
            match inner_member(value, "preview"@, "properties"@) {
                Some(list) => match json::items_of(list) {
                    Some(items) => items,
                    None => Seq::empty(),
                },
                None => Seq::empty(),
            },
        ),
        ", "@,
    ) + "}"@
}

fn list_properties(items: &Vec<Json>) -> (texts: Vec<String>)
    ensures
        text::views(texts@) == properties(json::trees(items@)),
{
    let ghost all = json::trees(items@);
    let mut texts: Vec<String> = Vec::new();
    let mut i: usize = 0;
    assert(all.take(0) =~= Seq::empty());
    assert(text::views(texts@) =~= Seq::empty());
    while i < items.len()
        invariant
            i <= items@.len(),
            all == json::trees(items@),
            text::views(texts@) == properties(all.take(i as int)),
        decreases items@.len() - i,
    {
        assert(all.take(i + 1).drop_last() =~= all.take(i as int));
        assert(all[i as int] == items@[i as int]@);
        let item = &items[i];
        if let Some(name) = item.get_str("name") {
            push_text(&mut texts, cat3(name, ": ", item.str_or("value", "?").as_str()));
        }
        i += 1;
    }
    assert(all.take(all.len() as int) =~= all);
    texts
}

fn show_preview(value: &Json) -> (text: String)
    ensures
        text@ == preview_text(value@),
{
    let mut texts: Vec<String> = Vec::new();
    assert(text::views(texts@) =~= Seq::empty());
    if let Some(list) = get_inner(value, "preview", "properties") {
        if let Some(items) = list.as_array() {
            texts = list_properties(items);
        }
    }
    cat3("{", join(&texts, ", ").as_str(), "}")
}

/// Whether a kind of value has parts that can be told.
pub open spec fn has_parts(kind: Seq<char>) -> bool {
    kind == "array"@ || kind == "object"@ || kind == "map"@ || kind == "set"@ || kind == "regexp"@
        || kind == "date"@ || kind == "node"@
}

fn kind_has_parts(kind: &str) -> (yes: bool)
    ensures
        yes == has_parts(kind@),
{
    str_eq(kind, "array") || str_eq(kind, "object") || str_eq(kind, "map") || str_eq(kind, "set")
        || str_eq(kind, "regexp") || str_eq(kind, "date") || str_eq(kind, "node")
}

/// A value as it is read: a text is itself, and anything else is its description, or else what can be
/// said of it.
pub open spec fn remote_text(value: JsonView) -> Seq<char> {
    let inner = json::member(value, "value"@);
    let description = text_at(value, "description"@);
    let kind = json::member_text(value, "subtype"@);
    if inner matches Some(JsonView::Text(_)) {
        inner->0->Text_0
    } else if inner == Some(JsonView::Null) {
        "null"@
    } else if kind == Some("error"@) {
        json::text_or(value, "description"@, "[Error]"@)
    } else if kind is Some && has_parts(kind->0) && description.len() == 0 {
        preview_text(value)
    } else if description.len() == 0 {
        "[值]"@
    } else {
        description
    }
}

/// A value as it is read.
pub fn remote_object_text(value: &Json) -> (text: String)
    ensures
        text@ == remote_text(value@),
{
    if let Some(inner) = value.get("value") {
        if let Some(text) = inner.as_str() {
            return text.to_owned();
        }
        if inner.is_null() {
            return "null".to_owned();
        }
    }
    let description = read_text(value, "description");
    if let Some(kind) = value.get_str("subtype") {
        if str_eq(kind, "error") {
            return value.str_or("description", "[Error]");
        }
        if kind_has_parts(kind) && description.as_str().is_empty() {
            return show_preview(value);
        }
    }
    if description.as_str().is_empty() {
        "[值]".to_owned()
    } else {
        description
    }
}

/// A value as it is used: itself, where it can be told, and else what is known of it.
pub open spec fn remote_value(value: JsonView) -> JsonView {
    let inner = json::member(value, "value"@);
    let kind = text_at(value, "type"@);
    let subtype = text_at(value, "subtype"@);
    let description = JsonView::Text(text_at(value, "description"@));
    if inner is Some && inner->0 != JsonView::Null {
        inner->0
    } else if kind == "undefined"@ {
        JsonView::Object(map!["kind"@ => JsonView::Text("undefined"@)])
    } else if kind == "function"@ {
        JsonView::Object(
            map!["kind"@ => JsonView::Text("function"@), "description"@ => description],
        )
    } else if subtype == "error"@ {
        JsonView::Object(map!["kind"@ => JsonView::Text("error"@), "description"@ => description])
    } else {
        JsonView::Object(
            map![
                "kind"@ => JsonView::Text(subtype),
                "description"@ => description,
                "preview"@ => match json::member(value, "preview"@) {
                    Some(preview) => preview,
                    None => JsonView::Null,
                },
            ],
        )
    }
}

/// A value as it is used.
pub fn remote_object_value(value: &Json) -> (told: Json)
    ensures
        told@ == remote_value(value@),
{
    if let Some(inner) = value.get("value") {
        if !inner.is_null() {
            return inner.clone();
        }
    }
    let kind = read_text(value, "type");
    let subtype = read_text(value, "subtype");
    if str_eq(kind.as_str(), "undefined") {
        return object_of("kind", Json::text("undefined"));
    }
    let description = Json::Text(read_text(value, "description"));
    let mut told = object();
    if str_eq(kind.as_str(), "function") {
        told.insert("kind", Json::text("function"));
        told.insert("description", description);
        return told;
    }
    if str_eq(subtype.as_str(), "error") {
        told.insert("kind", Json::text("error"));
        told.insert("description", description);
        return told;
    }
    told.insert("kind", Json::Text(subtype));
    told.insert("description", description);
    told.insert(
        "preview",
        match value.get("preview") {
            Some(preview) => preview.clone(),
            None => Json::Null,
        },
    );
    told
}

/// Where a stack begins: an address and a line.
pub open spec fn stack_place(stack: Option<JsonView>) -> (Seq<char>, i64) {
    match stack {
        Some(stack) => {
            let frames = json::items_or_empty(stack, "callFrames"@);
            if frames.len() > 0 {
                (text_at(frames[0], "url"@), json::i64_or_zero(frames[0], "lineNumber"@))
            } else {
                (Seq::empty(), 0)
            }
        },
        None => (Seq::empty(), 0),
    }
}

/// Where a stack begins.
pub fn stack_location(stack: Option<&Json>) -> (place: (String, i64))
    ensures
        (place.0@, place.1) == stack_place(
            match stack {
                Some(stack) => Some(stack@),
                None => None,
            },
        ),
{
    let nowhere = String::new();
    assert(nowhere@ =~= Seq::empty());
    match stack {
        Some(stack) => match stack.get("callFrames") {
            Some(frames) => match frames.as_array() {
                Some(list) => if list.len() > 0 {
                    assert(json::trees(list@)[0] == list@[0]@);
                    (read_text(&list[0], "url"), list[0].i64_or_zero("lineNumber"))
                } else {
                    (nowhere, 0)
                },
                None => (nowhere, 0),
            },
            None => (nowhere, 0),
        },
        None => (nowhere, 0),
    }
}

} // verus!
