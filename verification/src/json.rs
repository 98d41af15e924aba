//! JSON values: the library's own tree, read from text by `serde_json` and printed in a form
//! that depends on nothing but the value.
use vstd::prelude::*;
use vstd::string::*;

use crate::text;
use crate::text::{cat3, decimal_text, insert_in_order, join, signed_text, str_eq};

verus! {

/// A JSON number. An integer is held as such; any other number by its text.
#[derive(Debug, PartialEq)]
pub enum JsonNumber {
    Unsigned(u64),
    /// Below zero.
    Negative(i64),
    Float(String),
}

/// A JSON value. An object is a list of members; where a key stands twice, the later one counts.
#[derive(Debug)]
pub enum Json {
    Null,
    Bool(bool),
    Number(JsonNumber),
    Text(String),
    Array(Vec<Json>),
    Object(Vec<(String, Json)>),
}

/// What a JSON number says.
pub enum NumberView {
    Unsigned(u64),
    Negative(i64),
    Float(Seq<char>),
}

/// What a JSON value says: an object is a map from its keys.
pub enum JsonView {
    Null,
    Bool(bool),
    Number(NumberView),
    Text(Seq<char>),
    Array(Seq<JsonView>),
    Object(Map<Seq<char>, JsonView>),
}

impl View for JsonNumber {
    type V = NumberView;

    open spec fn view(&self) -> NumberView {
        match *self {
            JsonNumber::Unsigned(n) => NumberView::Unsigned(n),
            JsonNumber::Negative(n) => NumberView::Negative(n),
            JsonNumber::Float(text) => NumberView::Float(text@),
        }
    }
}

/// The map that a list of members stands for.
pub open spec fn members(pairs: Seq<(String, Json)>) -> Map<Seq<char>, JsonView>
    decreases pairs,
{
    if pairs.len() == 0 {
        Map::empty()
    } else {
        members(pairs.drop_last()).insert(pairs.last().0@, tree(pairs.last().1))
    }
}

/// What a value says.
pub open spec fn tree(json: Json) -> JsonView
    decreases json,
{
    match json {
        Json::Null => JsonView::Null,
        Json::Bool(b) => JsonView::Bool(b),
        Json::Number(n) => JsonView::Number(n@),
        Json::Text(text) => JsonView::Text(text@),
        Json::Array(items) => JsonView::Array(
            Seq::new(
                items@.len(),
                |i: int|
                    if 0 <= i < items@.len() {
                        tree(items@[i])
                    } else {
                        JsonView::Null
                    },
            ),
        ),
        Json::Object(pairs) => JsonView::Object(members(pairs@)),
    }
}

impl View for Json {
    type V = JsonView;

    open spec fn view(&self) -> JsonView {
        tree(*self)
    }
}

pub proof fn lemma_members_push(pairs: Seq<(String, Json)>, pair: (String, Json))
    ensures
        members(pairs.push(pair)) == members(pairs).insert(pair.0@, tree(pair.1)),
{
    assert(pairs.push(pair).drop_last() =~= pairs);
}

/// The key of the last member counts: where `at` is its position, the map has its value there.
pub proof fn lemma_members_at(pairs: Seq<(String, Json)>, at: int)
    requires
        0 <= at < pairs.len(),
        forall|i: int| at < i < pairs.len() ==> pairs[i].0@ != pairs[at].0@,
    ensures
        members(pairs).dom().contains(pairs[at].0@),
        members(pairs)[pairs[at].0@] == tree(pairs[at].1),
    decreases pairs.len(),
{
    if at < pairs.len() - 1 {
        lemma_members_at(pairs.drop_last(), at);
    }
}

pub proof fn lemma_members_absent(pairs: Seq<(String, Json)>, key: Seq<char>)
    requires
        forall|i: int| 0 <= i < pairs.len() ==> pairs[i].0@ != key,
    ensures
        !members(pairs).dom().contains(key),
    decreases pairs.len(),
{
    if pairs.len() > 0 {
        assert forall|i: int| 0 <= i < pairs.drop_last().len() implies pairs.drop_last()[i].0@
            != key by {
            assert(pairs[i].0@ != key);
        }
        lemma_members_absent(pairs.drop_last(), key);
    }
}

/// Replacing the value of the last member with a key is an insertion in the map.
pub proof fn lemma_members_update(pairs: Seq<(String, Json)>, at: int, value: Json)
    requires
        0 <= at < pairs.len(),
        forall|i: int| at < i < pairs.len() ==> pairs[i].0@ != pairs[at].0@,
    ensures
        members(pairs.update(at, (pairs[at].0, value))) == members(pairs).insert(
            pairs[at].0@,
            tree(value),
        ),
    decreases pairs.len(),
{
    let updated = pairs.update(at, (pairs[at].0, value));
    if at == pairs.len() - 1 {
        assert(updated.drop_last() =~= pairs.drop_last());
        assert(members(updated) =~= members(pairs).insert(pairs[at].0@, tree(value)));
    } else {
        assert(updated.drop_last() =~= pairs.drop_last().update(
            at,
            (pairs.drop_last()[at].0, value),
        ));
        lemma_members_update(pairs.drop_last(), at, value);
        assert(pairs.last().0@ != pairs[at].0@);
        assert(members(updated) =~= members(pairs).insert(pairs[at].0@, tree(value)));
    }
}

/// The value of an object's member.
pub open spec fn member(json: JsonView, key: Seq<char>) -> Option<JsonView> {
    match json {
        JsonView::Object(map) => if map.dom().contains(key) {
            Some(map[key])
        } else {
            None
        },
        _ => None,
    }
}

/// The text that a value is.
pub open spec fn text_of(json: JsonView) -> Option<Seq<char>> {
    match json {
        JsonView::Text(text) => Some(text),
        _ => None,
    }
}

/// The truth value that a value is.
pub open spec fn bool_of(json: JsonView) -> Option<bool> {
    match json {
        JsonView::Bool(b) => Some(b),
        _ => None,
    }
}

/// The items of the array that a value is.
pub open spec fn items_of(json: JsonView) -> Option<Seq<JsonView>> {
    match json {
        JsonView::Array(items) => Some(items),
        _ => None,
    }
}

/// The integer that a value is, if it fits in `i64`.
pub open spec fn i64_of(json: JsonView) -> Option<i64> {
    match json {
        JsonView::Number(NumberView::Unsigned(n)) => if n <= i64::MAX {
            Some(n as i64)
        } else {
            None
        },
        JsonView::Number(NumberView::Negative(n)) => Some(n),
        _ => None,
    }
}

/// The integer that a value is, if it is not below zero.
pub open spec fn u64_of(json: JsonView) -> Option<u64> {
    match json {
        JsonView::Number(NumberView::Unsigned(n)) => Some(n),
        _ => None,
    }
}

/// The text of a member, if the member is there and is a text.
pub open spec fn member_text(json: JsonView, key: Seq<char>) -> Option<Seq<char>> {
    match member(json, key) {
        Some(value) => text_of(value),
        None => None,
    }
}

/// The text of a member, or `default`.
pub open spec fn text_or(json: JsonView, key: Seq<char>, default: Seq<char>) -> Seq<char> {
    match member_text(json, key) {
        Some(text) => text,
        None => default,
    }
}

/// The truth value of a member, if it is one.
pub open spec fn member_bool(json: JsonView, key: Seq<char>) -> Option<bool> {
    match member(json, key) {
        Some(value) => bool_of(value),
        None => None,
    }
}

/// The items of a member, or none.
pub open spec fn items_or_empty(json: JsonView, key: Seq<char>) -> Seq<JsonView> {
    match member(json, key) {
        Some(JsonView::Array(items)) => items,
        _ => Seq::empty(),
    }
}

/// The integer of a member, or zero.
pub open spec fn i64_or_zero(json: JsonView, key: Seq<char>) -> i64 {
    match member(json, key) {
        Some(value) => match i64_of(value) {
            Some(n) => n,
            None => 0,
        },
        None => 0,
    }
}

/// The views of a list of values.
pub open spec fn trees(items: Seq<Json>) -> Seq<JsonView> {
    items.map_values(|item: Json| tree(item))
}

/// The position of the last member with a key.
fn last_with_key(pairs: &Vec<(String, Json)>, key: &str) -> (at: Option<usize>)
    ensures
        match at {
            Some(at) => {
                &&& at < pairs@.len()
                &&& pairs@[at as int].0@ == key@
                &&& forall|j: int| at < j < pairs@.len() ==> pairs@[j].0@ != key@
            },
            None => forall|j: int| 0 <= j < pairs@.len() ==> pairs@[j].0@ != key@,
        },
{
    let mut i: usize = pairs.len();
    while i > 0
        invariant
            i <= pairs@.len(),
            forall|j: int| i <= j < pairs@.len() ==> pairs@[j].0@ != key@,
        decreases i,
    {
        i -= 1;
        if str_eq(pairs[i].0.as_str(), key) {
            return Some(i);
        }
    }
    None
}

/// An integer.
pub open spec fn integer_view(n: i64) -> JsonView {
    if n < 0 {
        JsonView::Number(NumberView::Negative(n))
    } else {
        JsonView::Number(NumberView::Unsigned(n as u64))
    }
}

impl Json {
    /// A text value.
    pub fn text(text: &str) -> (json: Json)
        ensures
            json@ == JsonView::Text(text@),
    {
        Json::Text(text.to_owned())
    }

    /// An integer value.
    pub fn integer(n: i64) -> (json: Json)
        ensures
            json@ == integer_view(n),
            i64_of(json@) == Some(n),
    {
        if n < 0 {
            Json::Number(JsonNumber::Negative(n))
        } else {
            Json::Number(JsonNumber::Unsigned(n as u64))
        }
    }

    /// The value of a member of an object.
    pub fn get(&self, key: &str) -> (value: Option<&Json>)
        ensures
            match value {
                Some(value) => member(self@, key@) == Some(value@),
                None => member(self@, key@) is None,
            },
    {
        match self {
            Json::Object(pairs) => {
                match last_with_key(pairs, key) {
                    Some(i) => {
                        proof {
                            lemma_members_at(pairs@, i as int);
                        }
                        Some(&pairs[i].1)
                    },
                    None => {
                        proof {
                            lemma_members_absent(pairs@, key@);
                        }
                        None
                    },
                }
            },
            _ => None,
        }
    }

    /// Sets a member of an object. A value that is no object stays as it is.
    pub fn insert(&mut self, key: &str, value: Json)
        ensures
            final(self)@ == (match old(self)@ {
                JsonView::Object(map) => JsonView::Object(map.insert(key@, value@)),
                other => other,
            }),
    {
        match self {
            Json::Object(pairs) => {
                let ghost before = pairs@;
                match last_with_key(pairs, key) {
                    Some(i) => {
                        let name = pairs[i].0.clone();
                        proof {
                            lemma_members_update(before, i as int, value);
                        }
                        pairs.set(i, (name, value));
                    },
                    None => {
                        let pair = (key.to_owned(), value);
                        proof {
                            lemma_members_push(before, pair);
                        }
                        pairs.push(pair);
                    },
                }
            },
            _ => {},
        }
    }

    /// The text that this value is.
    pub fn as_str(&self) -> (text: Option<&str>)
        ensures
            match text {
                Some(text) => text_of(self@) == Some(text@),
                None => text_of(self@) is None,
            },
    {
        match self {
            Json::Text(text) => Some(text.as_str()),
            _ => None,
        }
    }

    /// The truth value that this value is.
    pub fn as_bool(&self) -> (b: Option<bool>)
        ensures
            b == bool_of(self@),
    {
        match self {
            Json::Bool(b) => Some(*b),
            _ => None,
        }
    }

    /// The items of the array that this value is.
    pub fn as_array(&self) -> (items: Option<&Vec<Json>>)
        ensures
            match items {
                Some(items) => items_of(self@) == Some(trees(items@)),
                None => items_of(self@) is None,
            },
    {
        match self {
            Json::Array(items) => {
                assert(tree(*self)->Array_0 =~= trees(items@));
                Some(items)
            },
            _ => None,
        }
    }

    /// The integer that this value is, if it fits in `i64`.
    pub fn as_i64(&self) -> (n: Option<i64>)
        ensures
            n == i64_of(self@),
    {
        match self {
            Json::Number(JsonNumber::Unsigned(n)) => if *n <= 0x7fff_ffff_ffff_ffff {
                Some(*n as i64)
            } else {
                None
            },
            Json::Number(JsonNumber::Negative(n)) => Some(*n),
            _ => None,
        }
    }

    /// The integer that this value is, if it is not below zero.
    pub fn as_u64(&self) -> (n: Option<u64>)
        ensures
            n == u64_of(self@),
    {
        match self {
            Json::Number(JsonNumber::Unsigned(n)) => Some(*n),
            _ => None,
        }
    }

    /// Whether this value is null.
    pub fn is_null(&self) -> (yes: bool)
        ensures
            yes == (self@ is Null),
    {
        match self {
            Json::Null => true,
            _ => false,
        }
    }

    /// The text of a member, if the member is there and is a text.
    pub fn get_str(&self, key: &str) -> (text: Option<&str>)
        ensures
            match text {
                Some(text) => member_text(self@, key@) == Some(text@),
                None => member_text(self@, key@) is None,
            },
    {
        match self.get(key) {
            Some(value) => value.as_str(),
            None => None,
        }
    }

    /// The text of a member, or `default`.
    pub fn str_or(&self, key: &str, default: &str) -> (text: String)
        ensures
            text@ == text_or(self@, key@, default@),
    {
        match self.get_str(key) {
            Some(text) => text.to_owned(),
            None => default.to_owned(),
        }
    }

    /// The truth value of a member, if it is one.
    pub fn get_bool(&self, key: &str) -> (b: Option<bool>)
        ensures
            b == member_bool(self@, key@),
    {
        match self.get(key) {
            Some(value) => value.as_bool(),
            None => None,
        }
    }

    /// The integer of a member, or zero.
    pub fn i64_or_zero(&self, key: &str) -> (n: i64)
        ensures
            n == i64_or_zero(self@, key@),
    {
        match self.get(key) {
            Some(value) => match value.as_i64() {
                Some(n) => n,
                None => 0,
            },
            None => 0,
        }
    }
}

impl Clone for Json {
    fn clone(&self) -> (copy: Json)
        ensures
            copy@ == self@,
        decreases self,
    {
        match self {
            Json::Null => Json::Null,
            Json::Bool(b) => Json::Bool(*b),
            Json::Number(JsonNumber::Unsigned(n)) => Json::Number(JsonNumber::Unsigned(*n)),
            Json::Number(JsonNumber::Negative(n)) => Json::Number(JsonNumber::Negative(*n)),
            Json::Number(JsonNumber::Float(text)) => Json::Number(JsonNumber::Float(text.clone())),
            Json::Text(text) => Json::Text(text.clone()),
            Json::Array(items) => {
                let mut copies: Vec<Json> = Vec::new();
                let mut i: usize = 0;
                while i < items.len()
                    invariant
                        i <= items@.len(),
                        *self == Json::Array(*items),
                        copies@.len() == i,
                        forall|j: int| 0 <= j < i ==> tree(copies@[j]) == tree(items@[j]),
                    decreases items@.len() - i,
                {
                    assert(decreases_to!(*self => self->Array_0));
                    assert(decreases_to!(self->Array_0 => self->Array_0[i as int]));
                    copies.push(items[i].clone());
                    i += 1;
                }
                let copy = Json::Array(copies);
                assert(tree(copy)->Array_0 =~= tree(*self)->Array_0);
                copy
            },
            Json::Object(pairs) => {
                let mut copies: Vec<(String, Json)> = Vec::new();
                let mut i: usize = 0;
                while i < pairs.len()
                    invariant
                        i <= pairs@.len(),
                        *self == Json::Object(*pairs),
                        members(copies@) == members(pairs@.take(i as int)),
                    decreases pairs@.len() - i,
                {
                    assert(decreases_to!(*self => self->Object_0));
                    assert(decreases_to!(self->Object_0 => self->Object_0[i as int]));
                    assert(decreases_to!(self->Object_0[i as int] => self->Object_0[i as int].1));
                    let pair = (pairs[i].0.clone(), pairs[i].1.clone());
                    proof {
                        lemma_members_push(copies@, pair);
                        assert(pairs@.take(i + 1) =~= pairs@.take(i as int).push(pairs@[i as int]));
                        lemma_members_push(pairs@.take(i as int), pairs@[i as int]);
                    }
                    copies.push(pair);
                    i += 1;
                }
                assert(pairs@.take(pairs@.len() as int) =~= pairs@);
                Json::Object(copies)
            },
        }
    }
}


/// `serde_json::Value`, as it comes from the parser.
#[verifier::external_type_specification]
#[verifier::external_body]
pub struct ExValue(serde_json::Value);

/// What a `serde_json::Value` holds.
pub uninterp spec fn value_view(value: serde_json::Value) -> JsonView;

/// What `serde_json::from_str` makes of a text as a value; `None` where it reports an error.
pub uninterp spec fn parsed(text: Seq<char>) -> Option<JsonView>;

/// The text that `serde_json` prints for a whole number in floating point.
pub uninterp spec fn float_text(n: u64) -> Seq<char>;

/// `serde_json::Value::as_f64` of a whole number, and the text that `serde_json` prints for the
/// result: the nearest number in floating point, as `n as f64` gives it, which is never infinite.
/// The text is named, not described.
#[verifier::external_body]
pub(crate) fn print_float(n: u64) -> (text: String)
    ensures
        text@ == float_text(n),
{
    serde_json::Value::from(serde_json::Value::from(n).as_f64()).to_string()
}

/// One level of a parsed value.
enum Layer {
    Null,
    Bool(bool),
    Unsigned(u64),
    Negative(i64),
    Float(String),
    Text(String),
    Array(Vec<serde_json::Value>),
    Object(Vec<(String, serde_json::Value)>),
}

/// The map that the members of a parsed object stand for.
spec fn value_members(pairs: Seq<(String, serde_json::Value)>) -> Map<Seq<char>, JsonView>
    decreases pairs.len(),
{
    if pairs.len() == 0 {
        Map::empty()
    } else {
        value_members(pairs.drop_last()).insert(pairs.last().0@, value_view(pairs.last().1))
    }
}

/// No key stands twice.
spec fn distinct_keys(pairs: Seq<(String, serde_json::Value)>) -> bool {
    forall|i: int, j: int| 0 <= i < j < pairs.len() ==> pairs[i].0@ != pairs[j].0@
}

/// What one level holds.
spec fn layer_view(layer: Layer) -> JsonView {
    match layer {
        Layer::Null => JsonView::Null,
        Layer::Bool(b) => JsonView::Bool(b),
        Layer::Unsigned(n) => JsonView::Number(NumberView::Unsigned(n)),
        Layer::Negative(n) => JsonView::Number(NumberView::Negative(n)),
        Layer::Float(text) => JsonView::Number(NumberView::Float(text@)),
        Layer::Text(text) => JsonView::Text(text@),
        Layer::Array(items) => JsonView::Array(
            items@.map_values(|item: serde_json::Value| value_view(item)),
        ),
        Layer::Object(pairs) => JsonView::Object(value_members(pairs@)),
    }
}

/// `serde_json::from_str` with `serde_json::Value` as the target: the value it gives, or `None`
/// for an error. What it gives is named, not described.
#[verifier::external_body]
fn parse_value(text: &str) -> (value: Option<serde_json::Value>)
    ensures
        parsed(text@) == (match value {
            Some(value) => Some(value_view(value)),
            None => None::<JsonView>,
        }),
{
    serde_json::from_str(text).ok()
}

/// Takes one level of a `serde_json::Value` apart: its variant, with the variant's own content.
/// A number is an integer that fits in `u64`, an integer below zero that fits in `i64`, or else is
/// given by the text that `serde_json` prints for it. The keys of an object are pairwise distinct,
/// so the order in which its members are listed does not matter.
#[verifier::external_body]
fn open_value(value: serde_json::Value) -> (layer: Layer)
    ensures
        value_view(value) == layer_view(layer),
        layer matches Layer::Object(pairs) ==> distinct_keys(pairs@),
{
    match value {
        serde_json::Value::Null => Layer::Null,
        serde_json::Value::Bool(b) => Layer::Bool(b),
        serde_json::Value::Number(n) => match (n.as_u64(), n.as_i64()) {
            (Some(n), _) => Layer::Unsigned(n),
            (None, Some(n)) => Layer::Negative(n),
            (None, None) => Layer::Float(n.to_string()),
        },
        serde_json::Value::String(text) => Layer::Text(text),
        serde_json::Value::Array(items) => Layer::Array(items),
        serde_json::Value::Object(map) => Layer::Object(map.into_iter().collect()),
    }
}

proof fn lemma_value_members_push(
    pairs: Seq<(String, serde_json::Value)>,
    pair: (String, serde_json::Value),
)
    ensures
        value_members(pairs.push(pair)) == value_members(pairs).insert(pair.0@, value_view(pair.1)),
{
    assert(pairs.push(pair).drop_last() =~= pairs);
}

/// Each member of a parsed object is found in its map.
proof fn lemma_value_members_at(pairs: Seq<(String, serde_json::Value)>, at: int)
    requires
        0 <= at < pairs.len(),
        distinct_keys(pairs),
    ensures
        value_members(pairs).dom().contains(pairs[at].0@),
        value_members(pairs)[pairs[at].0@] == value_view(pairs[at].1),
    decreases pairs.len(),
{
    if at < pairs.len() - 1 {
        lemma_value_members_at(pairs.drop_last(), at);
        assert(pairs[at].0@ != pairs.last().0@);
    }
}

proof fn lemma_value_members_finite(pairs: Seq<(String, serde_json::Value)>)
    ensures
        value_members(pairs).dom().finite(),
    decreases pairs.len(),
{
    if pairs.len() > 0 {
        lemma_value_members_finite(pairs.drop_last());
    }
}

/// The library's tree for a parsed value.
fn from_value(value: serde_json::Value) -> (json: Json)
    ensures
        json@ == value_view(value),
    decreases value_view(value),
{
    let ghost whole = value_view(value);
    match open_value(value) {
        Layer::Null => Json::Null,
        Layer::Bool(b) => Json::Bool(b),
        Layer::Unsigned(n) => Json::Number(JsonNumber::Unsigned(n)),
        Layer::Negative(n) => Json::Number(JsonNumber::Negative(n)),
        Layer::Float(text) => Json::Number(JsonNumber::Float(text)),
        Layer::Text(text) => Json::Text(text),
        Layer::Array(items) => {
            let ghost views = items@.map_values(|item: serde_json::Value| value_view(item));
            let mut list: Vec<Json> = Vec::new();
            for item in iter: items
                invariant
                    iter.seq() == items@,
                    whole == JsonView::Array(views),
                    whole == value_view(value),
                    views == items@.map_values(|item: serde_json::Value| value_view(item)),
                    list@.len() == iter.index(),
                    forall|i: int| 0 <= i < list@.len() ==> tree(list@[i]) == views[i],
            {
                assert(decreases_to!(whole => whole->Array_0));
                assert(decreases_to!(whole->Array_0 => whole->Array_0[iter.index() as int]));
                list.push(from_value(item));
            }
            let json = Json::Array(list);
            assert(tree(json)->Array_0 =~= views);
            json
        },
        Layer::Object(pairs) => {
            let mut list: Vec<(String, Json)> = Vec::new();
            for pair in iter: pairs
                invariant
                    iter.seq() == pairs@,
                    whole == JsonView::Object(value_members(pairs@)),
                    whole == value_view(value),
                    distinct_keys(pairs@),
                    members(list@) == value_members(pairs@.take(iter.index() as int)),
            {
                let (key, inner) = pair;
                proof {
                    lemma_value_members_finite(pairs@);
                    lemma_value_members_at(pairs@, iter.index() as int);
                    assert(decreases_to!(whole => whole->Object_0));
                    assert(decreases_to!(whole->Object_0 => whole->Object_0[key@]));
                    assert(pairs@.take(iter.index() + 1) =~= pairs@.take(iter.index() as int).push(
                        pair,
                    ));
                    lemma_value_members_push(pairs@.take(iter.index() as int), pair);
                }
                let entry = (key, from_value(inner));
                proof {
                    lemma_members_push(list@, entry);
                }
                list.push(entry);
            }
            assert(pairs@.take(pairs@.len() as int) =~= pairs@);
            Json::Object(list)
        },
    }
}

/// Reads a JSON text.
pub fn parse(text: &str) -> (json: Option<Json>)
    ensures
        parsed(text@) == (match json {
            Some(json) => Some(json@),
            None => None::<JsonView>,
        }),
{
    match parse_value(text) {
        Some(value) => Some(from_value(value)),
        None => None,
    }
}


/// A hexadecimal digit.
pub open spec fn hex_digit(n: int) -> char {
    if n < 10 {
        (('0' as int) + n) as char
    } else {
        (('a' as int) + n - 10) as char
    }
}

/// A character as it stands in a JSON text between quotation marks.
pub open spec fn escaped(c: char) -> Seq<char> {
    if c == '"' {
        seq!['\\', '"']
    } else if c == '\\' {
        seq!['\\', '\\']
    } else if c == '\u{8}' {
        seq!['\\', 'b']
    } else if c == '\u{c}' {
        seq!['\\', 'f']
    } else if c == '\n' {
        seq!['\\', 'n']
    } else if c == '\r' {
        seq!['\\', 'r']
    } else if c == '\t' {
        seq!['\\', 't']
    } else if (c as int) < 0x20 {
        seq!['\\', 'u', '0', '0', hex_digit(c as int / 16), hex_digit(c as int % 16)]
    } else {
        seq![c]
    }
}

/// The escaped characters in a row.
pub open spec fn escaped_all(text: Seq<char>) -> Seq<char>
    decreases text.len(),
{
    if text.len() == 0 {
        Seq::empty()
    } else {
        escaped_all(text.drop_last()) + escaped(text.last())
    }
}

/// A text in quotation marks.
pub open spec fn quoted(text: Seq<char>) -> Seq<char> {
    seq!['"'] + escaped_all(text) + seq!['"']
}

/// `serde_json::to_string` on a string: the string in quotation marks, with quotation marks,
/// backslashes and the control characters below U+0020 escaped and nothing else changed.
#[verifier::external_body]
pub(crate) fn quote(text: &str) -> (json: String)
    ensures
        json@ == quoted(text@),
{
    serde_json::to_string(text).unwrap_or_default()
}

/// A number as JSON text.
pub open spec fn number_text(n: NumberView) -> Seq<char> {
    match n {
        NumberView::Unsigned(n) => text::decimal(n as nat),
        NumberView::Negative(n) => text::signed_decimal(n as int),
        NumberView::Float(text) => text,
    }
}

/// A value as JSON text without white space, the members of an object in the order of their keys.
pub open spec fn compact(json: JsonView) -> Seq<char>
    decreases json, 0nat,
{
    match json {
        JsonView::Null => "null"@,
        JsonView::Bool(b) => if b {
            "true"@
        } else {
            "false"@
        },
        JsonView::Number(n) => number_text(n),
        JsonView::Text(text) => quoted(text),
        JsonView::Array(items) => "["@ + text::joined(compact_items(items), ","@) + "]"@,
        JsonView::Object(map) => "{"@ + text::joined(
            compact_members(map, text::in_order(map.dom())),
            ","@,
        ) + "}"@,
    }
}

/// The items of an array as JSON texts.
pub open spec fn compact_items(items: Seq<JsonView>) -> Seq<Seq<char>>
    decreases items, items.len(),
{
    if items.len() == 0 {
        Seq::empty()
    } else {
        compact_items(items.drop_last()).push(compact(items.last()))
    }
}

/// The members of an object with the given keys, each as `"key":value`.
pub open spec fn compact_members(
    map: Map<Seq<char>, JsonView>,
    keys: Seq<Seq<char>>,
) -> Seq<Seq<char>>
    decreases map, keys.len(),
{
    if keys.len() == 0 {
        Seq::empty()
    } else {
        compact_members(map, keys.drop_last()).push(
            quoted(keys.last()) + ":"@ + (if map.dom().finite() && map.dom().contains(
                keys.last(),
            ) {
                compact(map[keys.last()])
            } else {
                Seq::empty()
            }),
        )
    }
}

pub proof fn lemma_members_finite(pairs: Seq<(String, Json)>)
    ensures
        members(pairs).dom().finite(),
    decreases pairs.len(),
{
    if pairs.len() > 0 {
        lemma_members_finite(pairs.drop_last());
    }
}

/// The keys of an object, in order.
fn ordered_keys(pairs: &Vec<(String, Json)>) -> (keys: Vec<String>)
    ensures
        text::views(keys@) == text::in_order(members(pairs@).dom()),
        forall|i: int|
            0 <= i < keys@.len() ==> members(pairs@).dom().contains(#[trigger] text::views(keys@)[i]),
        text::views(keys@).to_set() == members(pairs@).dom(),
{
    let mut keys: Vec<String> = Vec::new();
    let mut i: usize = 0;
    assert(text::views(keys@).to_set() =~= members(pairs@.take(0)).dom());
    while i < pairs.len()
        invariant
            i <= pairs@.len(),
            text::increasing(text::views(keys@)),
            text::views(keys@).to_set() == members(pairs@.take(i as int)).dom(),
        decreases pairs@.len() - i,
    {
        insert_in_order(&mut keys, pairs[i].0.as_str());
        proof {
            assert(pairs@.take(i + 1) =~= pairs@.take(i as int).push(pairs@[i as int]));
            lemma_members_push(pairs@.take(i as int), pairs@[i as int]);
            assert(members(pairs@.take(i + 1)).dom() =~= members(pairs@.take(i as int)).dom().insert(
                pairs@[i as int].0@,
            ));
        }
        i += 1;
    }
    assert(pairs@.take(pairs@.len() as int) =~= pairs@);
    proof {
        text::lemma_in_order(text::views(keys@));
        assert forall|i: int| 0 <= i < keys@.len() implies members(pairs@).dom().contains(
            #[trigger] text::views(keys@)[i],
        ) by {
            assert(text::views(keys@).to_set().contains(text::views(keys@)[i]));
        }
    }
    keys
}

impl Json {
    /// This value as JSON text without white space, the members of an object in the order of
    /// their keys.
    pub fn to_text(&self) -> (text: String)
        ensures
            text@ == compact(self@),
        decreases self@,
    {
        match self {
            Json::Null => "null".to_owned(),
            Json::Bool(b) => if *b {
                "true".to_owned()
            } else {
                "false".to_owned()
            },
            Json::Number(JsonNumber::Unsigned(n)) => decimal_text(*n),
            Json::Number(JsonNumber::Negative(n)) => signed_text(*n),
            Json::Number(JsonNumber::Float(text)) => text.clone(),
            Json::Text(text) => quote(text.as_str()),
            Json::Array(items) => {
                let ghost all = self@->Array_0;
                let mut parts: Vec<String> = Vec::new();
                let mut i: usize = 0;
                while i < items.len()
                    invariant
                        i <= items@.len(),
                        *self == Json::Array(*items),
                        all == self@->Array_0,
                        text::views(parts@) == compact_items(all.take(i as int)),
                    decreases items@.len() - i,
                {
                    assert(decreases_to!(self@ => self@->Array_0));
                    assert(decreases_to!(self@->Array_0 => self@->Array_0[i as int]));
                    let part = items[i].to_text();
                    assert(all.take(i + 1).drop_last() =~= all.take(i as int));
                    assert(text::views(parts@.push(part)) =~= text::views(parts@).push(part@));
                    parts.push(part);
                    i += 1;
                }
                assert(all.take(all.len() as int) =~= all);
                cat3("[", join(&parts, ",").as_str(), "]")
            },
            Json::Object(pairs) => {
                let ghost map = members(pairs@);
                let keys = ordered_keys(pairs);
                let ghost order = text::views(keys@);
                let mut parts: Vec<String> = Vec::new();
                let mut i: usize = 0;
                while i < keys.len()
                    invariant
                        i <= keys@.len(),
                        *self == Json::Object(*pairs),
                        self@ == JsonView::Object(map),
                        map == members(pairs@),
                        order == text::views(keys@),
                        forall|j: int|
                            0 <= j < keys@.len() ==> map.dom().contains(#[trigger] order[j]),
                        text::views(parts@) == compact_members(map, order.take(i as int)),
                    decreases keys@.len() - i,
                {
                    proof {
                        assert(map.dom().contains(order[i as int]));
                        lemma_members_finite(pairs@);
                        assert(decreases_to!(self@ => self@->Object_0));
                        assert(decreases_to!(self@->Object_0 => self@->Object_0[keys@[i as int]@]));
                        assert(order.take(i + 1).drop_last() =~= order.take(i as int));
                    }
                    let value = match self.get(keys[i].as_str()) {
                        Some(value) => value.to_text(),
                        None => String::new(),
                    };
                    let part = cat3(quote(keys[i].as_str()).as_str(), ":", value.as_str());
                    assert(text::views(parts@.push(part)) =~= text::views(parts@).push(part@));
                    parts.push(part);
                    i += 1;
                }
                assert(order.take(order.len() as int) =~= order);
                cat3("{", join(&parts, ",").as_str(), "}")
            },
        }
    }
}


proof fn lemma_members_remove(pairs: Seq<(String, Json)>, key: Seq<char>)
    ensures
        pairs.len() > 0 ==> members(pairs).remove(key) == (if pairs.last().0@ == key {
            members(pairs.drop_last()).remove(key)
        } else {
            members(pairs.drop_last()).remove(key).insert(pairs.last().0@, tree(pairs.last().1))
        }),
{
    if pairs.len() > 0 {
        let rest = members(pairs.drop_last());
        if pairs.last().0@ == key {
            assert(members(pairs).remove(key) =~= rest.remove(key));
        } else {
            assert(members(pairs).remove(key) =~= rest.remove(key).insert(
                pairs.last().0@,
                tree(pairs.last().1),
            ));
        }
    }
}

/// A value without one member.
pub open spec fn without_member(json: JsonView, key: Seq<char>) -> JsonView {
    match json {
        JsonView::Object(map) => JsonView::Object(map.remove(key)),
        other => other,
    }
}

/// A list of values without those that are the text `gone`.
pub open spec fn without_text(items: Seq<JsonView>, gone: Seq<char>) -> Seq<JsonView>
    decreases items.len(),
{
    if items.len() == 0 {
        Seq::empty()
    } else if text_of(items.last()) == Some(gone) {
        without_text(items.drop_last(), gone)
    } else {
        without_text(items.drop_last(), gone).push(items.last())
    }
}

impl Json {
    /// This value without one member. A value that is no object is given as it is.
    pub fn without_member(&self, key: &str) -> (json: Json)
        ensures
            json@ == without_member(self@, key@),
    {
        match self {
            Json::Object(pairs) => {
                let mut kept: Vec<(String, Json)> = Vec::new();
                let mut i: usize = 0;
                assert(members(kept@) =~= members(pairs@.take(0)).remove(key@));
                while i < pairs.len()
                    invariant
                        i <= pairs@.len(),
                        members(kept@) == members(pairs@.take(i as int)).remove(key@),
                    decreases pairs@.len() - i,
                {
                    proof {
                        assert(pairs@.take(i + 1).drop_last() =~= pairs@.take(i as int));
                        lemma_members_remove(pairs@.take(i + 1), key@);
                    }
                    if !str_eq(pairs[i].0.as_str(), key) {
                        let pair = (pairs[i].0.clone(), pairs[i].1.clone());
                        proof {
                            lemma_members_push(kept@, pair);
                        }
                        kept.push(pair);
                    }
                    i += 1;
                }
                assert(pairs@.take(pairs@.len() as int) =~= pairs@);
                Json::Object(kept)
            },
            _ => self.clone(),
        }
    }

    /// The array of the given items.
    pub fn array(items: Vec<Json>) -> (json: Json)
        ensures
            json@ == JsonView::Array(trees(items@)),
    {
        let json = Json::Array(items);
        assert(tree(json)->Array_0 =~= trees(items@));
        json
    }
}

/// The items that are not the text `gone`.
pub fn drop_text(items: &Vec<Json>, gone: &str) -> (kept: Vec<Json>)
    ensures
        trees(kept@) == without_text(trees(items@), gone@),
{
    let ghost all = trees(items@);
    let mut kept: Vec<Json> = Vec::new();
    let mut i: usize = 0;
    assert(trees(kept@) =~= Seq::empty());
    while i < items.len()
        invariant
            i <= items@.len(),
            all == trees(items@),
            trees(kept@) == without_text(all.take(i as int), gone@),
        decreases items@.len() - i,
    {
        assert(all.take(i + 1).drop_last() =~= all.take(i as int));
        let is_gone = match items[i].as_str() {
            Some(text) => str_eq(text, gone),
            None => false,
        };
        if !is_gone {
            let item = items[i].clone();
            assert(trees(kept@.push(item)) =~= trees(kept@).push(item@));
            kept.push(item);
        }
        i += 1;
    }
    assert(all.take(all.len() as int) =~= all);
    kept
}

fn same_number(a: &JsonNumber, b: &JsonNumber) -> (yes: bool)
    ensures
        yes == (a@ == b@),
{
    match (a, b) {
        (JsonNumber::Unsigned(a), JsonNumber::Unsigned(b)) => *a == *b,
        (JsonNumber::Negative(a), JsonNumber::Negative(b)) => *a == *b,
        (JsonNumber::Float(a), JsonNumber::Float(b)) => str_eq(a.as_str(), b.as_str()),
        _ => false,
    }
}

impl Json {
    /// Whether two values say the same: the order of an object's members does not count.
    pub fn same(&self, other: &Json) -> (yes: bool)
        ensures
            yes == (self@ == other@),
        decreases self@,
    {
        match (self, other) {
            (Json::Null, Json::Null) => true,
            (Json::Bool(a), Json::Bool(b)) => *a == *b,
            (Json::Number(a), Json::Number(b)) => same_number(a, b),
            (Json::Text(a), Json::Text(b)) => str_eq(a.as_str(), b.as_str()),
            (Json::Array(a), Json::Array(b)) => {
                if a.len() != b.len() {
                    assert(self@->Array_0.len() != other@->Array_0.len());
                    return false;
                }
                let mut i: usize = 0;
                while i < a.len()
                    invariant
                        i <= a@.len() == b@.len(),
                        *self == Json::Array(*a),
                        *other == Json::Array(*b),
                        forall|j: int| 0 <= j < i ==> self@->Array_0[j] == other@->Array_0[j],
                    decreases a@.len() - i,
                {
                    assert(decreases_to!(self@ => self@->Array_0));
                    assert(decreases_to!(self@->Array_0 => self@->Array_0[i as int]));
                    if !a[i].same(&b[i]) {
                        assert(self@->Array_0[i as int] != other@->Array_0[i as int]);
                        return false;
                    }
                    i += 1;
                }
                assert(self@->Array_0 =~= other@->Array_0);
                true
            },
            (Json::Object(a), Json::Object(b)) => {
                let ghost (left, right) = (members(a@), members(b@));
                let keys = ordered_keys(a);
                let ghost order = text::views(keys@);
                let mut i: usize = 0;
                while i < keys.len()
                    invariant
                        i <= keys@.len(),
                        *self == Json::Object(*a),
                        self@ == JsonView::Object(left),
                        other@ == JsonView::Object(right),
                        left == members(a@),
                        order == text::views(keys@),
                        forall|j: int|
                            0 <= j < keys@.len() ==> left.dom().contains(#[trigger] order[j]),
                        forall|j: int|
                            0 <= j < i ==> right.dom().contains(#[trigger] order[j])
                                && left[order[j]] == right[order[j]],
                    decreases keys@.len() - i,
                {
                    proof {
                        assert(left.dom().contains(order[i as int]));
                        lemma_members_finite(a@);
                        assert(decreases_to!(self@ => self@->Object_0));
                        assert(decreases_to!(self@->Object_0 => self@->Object_0[keys@[i as int]@]));
                    }
                    let equal = match (self.get(keys[i].as_str()), other.get(keys[i].as_str())) {
                        (Some(mine), Some(theirs)) => mine.same(theirs),
                        _ => false,
                    };
                    if !equal {
                        assert(left != right);
                        return false;
                    }
                    i += 1;
                }
                let theirs = ordered_keys(b);
                let ghost other_order = text::views(theirs@);
                let mut i: usize = 0;
                while i < theirs.len()
                    invariant
                        i <= theirs@.len(),
                        self@ == JsonView::Object(left),
                        other@ == JsonView::Object(right),
                        other_order == text::views(theirs@),
                        forall|j: int|
                            0 <= j < theirs@.len() ==> right.dom().contains(#[trigger] other_order[j]),
                        forall|j: int|
                            0 <= j < i ==> left.dom().contains(#[trigger] other_order[j]),
                    decreases theirs@.len() - i,
                {
                    if self.get(theirs[i].as_str()).is_none() {
                        assert(right.dom().contains(other_order[i as int]));
                        assert(left != right);
                        return false;
                    }
                    i += 1;
                }
                assert(left =~= right) by {
                    assert forall|key: Seq<char>| left.dom().contains(key) implies
                        right.dom().contains(key) && left[key] == right[key] by {
                        assert(order.to_set().contains(key));
                        let j = choose|j: int| 0 <= j < order.len() && order[j] == key;
                        assert(order[j] == key);
                    }
                    assert forall|key: Seq<char>| right.dom().contains(key) implies
                        left.dom().contains(key) by {
                        assert(other_order.to_set().contains(key));
                        let j = choose|j: int| 0 <= j < other_order.len() && other_order[j] == key;
                        assert(other_order[j] == key);
                    }
                }
                true
            },
            _ => false,
        }
    }
}

impl vstd::std_specs::cmp::PartialEqSpecImpl for Json {
    open spec fn obeys_eq_spec() -> bool {
        true
    }

    open spec fn eq_spec(&self, other: &Json) -> bool {
        self@ == other@
    }
}

impl PartialEq for Json {
    fn eq(&self, other: &Json) -> (yes: bool) {
        self.same(other)
    }
}

/// Members with those of another object put over them, where they are not null.
pub open spec fn merged(
    known: Map<Seq<char>, JsonView>,
    event: Map<Seq<char>, JsonView>,
) -> Map<Seq<char>, JsonView> {
    Map::new(
        |key: Seq<char>| known.contains_key(key) || (event.contains_key(key) && !(event[key] is Null)),
        |key: Seq<char>|
            if event.contains_key(key) && !(event[key] is Null) {
                event[key]
            } else {
                known[key]
            },
    )
}

/// Whether a key stands among the first members.
spec fn seen(pairs: Seq<(String, Json)>, upto: int, key: Seq<char>) -> bool {
    exists|j: int| 0 <= j < upto && (#[trigger] pairs[j]).0@ == key
}

proof fn lemma_members_seen(pairs: Seq<(String, Json)>, key: Seq<char>)
    ensures
        members(pairs).contains_key(key) <==> seen(pairs, pairs.len() as int, key),
    decreases pairs.len(),
{
    if pairs.len() > 0 {
        let rest = pairs.drop_last();
        lemma_members_seen(rest, key);
        if seen(rest, rest.len() as int, key) {
            let j = choose|j: int| 0 <= j < rest.len() && (#[trigger] rest[j]).0@ == key;
            assert(pairs[j].0@ == key);
        }
        if seen(pairs, pairs.len() as int, key) && pairs.last().0@ != key {
            let j = choose|j: int| 0 <= j < pairs.len() && (#[trigger] pairs[j]).0@ == key;
            assert(rest[j].0@ == key);
        }
        if pairs.last().0@ == key {
            assert(pairs[pairs.len() - 1].0@ == key);
        }
    }
}

impl Json {
    /// Puts the members of another object over those of this one, where they are not null. A value
    /// that is no object changes nothing, and is not changed.
    pub fn merge(&mut self, event: &Json)
        ensures
            final(self)@ == (match (old(self)@, event@) {
                (JsonView::Object(known), JsonView::Object(event)) => JsonView::Object(
                    merged(known, event),
                ),
                (known, _) => known,
            }),
    {
        if let Json::Object(_) = self {
            if let Json::Object(pairs) = event {
                let ghost known = self@->Object_0;
                let ghost news = event@->Object_0;
                let mut i: usize = 0;
                while i < pairs.len()
                    invariant
                        i <= pairs@.len(),
                        *event == Json::Object(*pairs),
                        news == members(pairs@),
                        event@ == JsonView::Object(news),
                        self@ is Object,
                        forall|key: Seq<char>|
                            #![trigger self@->Object_0.contains_key(key)]
                            self@->Object_0.contains_key(key) <==> known.contains_key(key) || (seen(
                                pairs@,
                                i as int,
                                key,
                            ) && !(news[key] is Null)),
                        forall|key: Seq<char>|
                            #![trigger self@->Object_0[key]]
                            self@->Object_0[key] == (if seen(pairs@, i as int, key) && !(news[key] is Null) {
                                news[key]
                            } else {
                                known[key]
                            }) || !self@->Object_0.contains_key(key),
                    decreases pairs@.len() - i,
                {
                    let ghost before = self@->Object_0;
                    let ghost name = pairs@[i as int].0@;
                    assert(seen(pairs@, i + 1, name)) by {
                        assert(pairs@[i as int].0@ == name);
                    }
                    proof {
                        lemma_members_seen(pairs@, name);
                        assert(seen(pairs@, pairs@.len() as int, name)) by {
                            assert(pairs@[i as int].0@ == name);
                        }
                    }
                    assert forall|key: Seq<char>| key != name implies #[trigger] seen(pairs@, i + 1, key)
                        == seen(pairs@, i as int, key) by {
                        if seen(pairs@, i as int, key) {
                            let j = choose|j: int| 0 <= j < i && (#[trigger] pairs@[j]).0@ == key;
                            assert(pairs@[j].0@ == key);
                        }
                        if seen(pairs@, i + 1, key) {
                            let j = choose|j: int| 0 <= j < i + 1 && (#[trigger] pairs@[j]).0@ == key;
                            assert(pairs@[j].0@ == key);
                        }
                    }
                    if let Some(value) = event.get(pairs[i].0.as_str()) {
                        if !value.is_null() {
                            let copy = value.clone();
                            self.insert(pairs[i].0.as_str(), copy);
                        }
                    }
                    i += 1;
                }
                proof {
                    let after = self@->Object_0;
                    assert forall|key: Seq<char>| news.contains_key(key) == seen(
                        pairs@,
                        pairs@.len() as int,
                        key,
                    ) by {
                        lemma_members_seen(pairs@, key);
                    }
                    assert(after =~= merged(known, news));
                }
            }
        }
    }
}

/// An object without members.
pub fn object() -> (json: Json)
    ensures
        json@ == JsonView::Object(Map::empty()),
{
    let json = Json::Object(Vec::new());
    assert(json->Object_0@ =~= Seq::empty());
    assert(tree(json) == JsonView::Object(members(Seq::empty())));
    json
}

/// A whole number.
pub open spec fn whole(n: u64) -> JsonView {
    JsonView::Number(NumberView::Unsigned(n))
}

/// An object with one member.
pub fn object_of(key: &str, value: Json) -> (json: Json)
    ensures
        json@ == JsonView::Object(map![key@ => value@]),
{
    let mut json = object();
    json.insert(key, value);
    json
}

} // verus!
