//! What holds of values and of their text in JSON.
use vstd::prelude::*;

use crate::json;
use crate::json::{Json, JsonView, NumberView};
use crate::text;
use crate::text_laws;

verus! {

/// The number that a row of digits stands for.
pub open spec fn number_of(digits: Seq<char>) -> int
    decreases digits.len(),
{
    if digits.len() == 0 {
        0
    } else {
        number_of(digits.drop_last()) * 10 + (digits.last() as int - '0' as int)
    }
}

/// A number is written in digits that stand for it, without a zero before others.
pub proof fn digits_stand_for_the_number(n: nat)
    ensures
        number_of(text::decimal(n)) == n,
        text::decimal(n).len() > 0,
        forall|i: int| 0 <= i < text::decimal(n).len() ==> '0' <= #[trigger] text::decimal(n)[i] <= '9',
        n > 0 ==> text::decimal(n)[0] != '0',
    decreases n,
{
    if n < 10 {
        assert(text::decimal(n).drop_last() =~= Seq::<char>::empty());
        assert(number_of(Seq::<char>::empty()) == 0);
    } else {
        digits_stand_for_the_number(n / 10);
        assert(text::decimal(n).drop_last() =~= text::decimal(n / 10));
        assert forall|i: int| 0 <= i < text::decimal(n).len() implies '0' <= #[trigger] text::decimal(
            n,
        )[i] <= '9' by {
            if i < text::decimal(n / 10).len() {
                assert(text::decimal(n)[i] == text::decimal(n / 10)[i]);
            }
        }
        assert(text::decimal(n)[0] == text::decimal(n / 10)[0]);
    }
}

/// A negative number is written with a sign before its digits, and no other is.
pub proof fn sign_stands_before_the_digits(n: nat)
    ensures
        n > 0 ==> text::signed_decimal(-(n as int)) == seq!['-'] + text::decimal(n),
        text::signed_decimal(n as int) == text::decimal(n),
{
}

/// The number of two hexadecimal digits.
pub open spec fn hex_value(c: char) -> int {
    if '0' <= c <= '9' {
        c as int - '0' as int
    } else {
        c as int - 'a' as int + 10
    }
}

/// A text stands in quotation marks with its letters in their order. A mark, a backslash and the
/// signs that do not show are escaped, and nothing else is.
pub proof fn quoted_text_keeps_its_letters(a: Seq<char>, b: Seq<char>, c: char)
    ensures
        json::escaped_all(a + b) == json::escaped_all(a) + json::escaped_all(b),
        json::escaped_all(Seq::empty()) == Seq::<char>::empty(),
        json::escaped_all(seq!['"']) == seq!['\\', '"'],
        json::escaped_all(seq!['\\']) == seq!['\\', '\\'],
        json::escaped_all(seq!['\n']) == seq!['\\', 'n'],
        json::escaped_all(seq!['\r']) == seq!['\\', 'r'],
        json::escaped_all(seq!['\t']) == seq!['\\', 't'],
        c as int >= 0x20 && c != '"' && c != '\\' ==> json::escaped_all(seq![c]) == seq![c],
        json::quoted(a) == seq!['"'] + json::escaped_all(a) + seq!['"'],
    decreases b.len(),
{
    if b.len() > 0 {
        assert((a + b).drop_last() =~= a + b.drop_last());
        quoted_text_keeps_its_letters(a, b.drop_last(), c);
        assert(json::escaped_all(a + b) =~= json::escaped_all(a) + json::escaped_all(b));
    } else {
        assert(a + b =~= a);
        assert(json::escaped_all(a + b) =~= json::escaped_all(a) + json::escaped_all(b));
    }
    assert(json::escaped_all(Seq::<char>::empty()) =~= Seq::<char>::empty());
    lemma_one('"');
    lemma_one('\\');
    lemma_one('\n');
    lemma_one('\r');
    lemma_one('\t');
    lemma_one(c);
}

proof fn lemma_one(c: char)
    ensures
        json::escaped_all(seq![c]) == json::escaped(c),
{
    assert(seq![c].drop_last() =~= Seq::<char>::empty());
    assert(json::escaped_all(Seq::<char>::empty()) =~= Seq::<char>::empty());
    assert(json::escaped_all(seq![c]) =~= json::escaped(c));
}

/// A sign that does not show and has no short form is written by its number.
pub proof fn hidden_sign_is_written_by_its_number(c: char)
    requires
        (c as int) < 0x20,
        c != '\u{8}' && c != '\u{c}' && c != '\n' && c != '\r' && c != '\t',
    ensures
        ({
            let told = json::escaped(c);
            &&& told.len() == 6
            &&& told.take(4) == seq!['\\', 'u', '0', '0']
            &&& hex_value(told[4]) * 16 + hex_value(told[5]) == c as int
        }),
{
    let told = json::escaped(c);
    assert(told.take(4) =~= seq!['\\', 'u', '0', '0']);
}

/// The simple values are written as JSON has them.
pub proof fn simple_values_are_written(n: u64, text: Seq<char>)
    ensures
        json::compact(JsonView::Null) == "null"@,
        json::compact(JsonView::Bool(true)) == "true"@,
        json::compact(JsonView::Bool(false)) == "false"@,
        json::compact(JsonView::Number(NumberView::Unsigned(n))) == text::decimal(n as nat),
        json::compact(JsonView::Text(text)) == json::quoted(text),
        json::compact(JsonView::Number(NumberView::Float(text))) == text,
{
}

/// The items of an array are written in their order with a comma between them.
pub proof fn items_are_written_in_order(a: Seq<JsonView>, b: Seq<JsonView>, item: JsonView)
    ensures
        json::compact_items(a + b) == json::compact_items(a) + json::compact_items(b),
        json::compact_items(seq![item]) == seq![json::compact(item)],
        json::compact(JsonView::Array(a)) == "["@ + text::joined(json::compact_items(a), ","@) + "]"@,
        json::compact(JsonView::Array(seq![item])) == "["@ + json::compact(item) + "]"@,
    decreases b.len(),
{
    if b.len() > 0 {
        assert((a + b).drop_last() =~= a + b.drop_last());
        items_are_written_in_order(a, b.drop_last(), item);
        assert(json::compact_items(a + b) =~= json::compact_items(a) + json::compact_items(b));
    } else {
        assert(a + b =~= a);
        assert(json::compact_items(a + b) =~= json::compact_items(a) + json::compact_items(b));
    }
    assert(seq![item].drop_last() =~= Seq::<JsonView>::empty());
    assert(json::compact_items(Seq::<JsonView>::empty()) =~= Seq::<Seq<char>>::empty());
    assert(json::compact_items(seq![item]) =~= seq![json::compact(item)]);
    let one = json::compact_items(seq![item]);
    text_laws::joined_texts_follow_each_other(one, one, ","@);
}

/// A member of an object is written with its key and its value.
pub proof fn member_is_written(key: Seq<char>, value: JsonView)
    ensures
        json::compact(JsonView::Object(map![key => value])) == "{"@ + (json::quoted(key) + ":"@
            + json::compact(value)) + "}"@,
{
    let members = map![key => value];
    let keys = seq![key];
    assert(keys.to_set() =~= members.dom()) by {
        assert(keys[0] == key);
    }
    text::lemma_in_order(keys);
    assert(text::in_order(members.dom()) == keys);
    assert(keys.drop_last() =~= Seq::<Seq<char>>::empty());
    assert(json::compact_members(members, Seq::<Seq<char>>::empty()) =~= Seq::<Seq<char>>::empty());
    let told = json::quoted(key) + ":"@ + json::compact(value);
    assert(members.dom().finite() && members.dom().contains(key));
    assert(json::compact_members(members, keys) =~= seq![told]);
    text_laws::joined_texts_follow_each_other(seq![told], seq![told], ","@);
}

/// An object holds its members, and the later of two with one key counts.
pub proof fn later_member_counts(pairs: Seq<(String, Json)>, pair: (String, Json), other: Seq<char>)
    requires
        other != pair.0@,
    ensures
        json::members(pairs.push(pair)).contains_key(pair.0@),
        json::members(pairs.push(pair))[pair.0@] == pair.1@,
        json::members(pairs.push(pair)).contains_key(other) == json::members(pairs).contains_key(
            other,
        ),
        json::members(pairs).contains_key(other) ==> json::members(pairs.push(pair))[other]
            == json::members(pairs)[other],
        json::members(Seq::empty()) == Map::<Seq<char>, JsonView>::empty(),
{
    assert(pairs.push(pair).drop_last() =~= pairs);
}

/// A member is read by its key, as what it is.
pub proof fn member_is_read(members: Map<Seq<char>, JsonView>, key: Seq<char>, n: u64, said: Seq<char>, yes: bool)
    ensures
        json::member(JsonView::Object(members), key) == (if members.contains_key(key) {
            Some(members[key])
        } else {
            None
        }),
        json::member(JsonView::Text(said), key) is None,
        json::text_of(JsonView::Text(said)) == Some(said),
        json::text_of(JsonView::Bool(yes)) is None,
        json::bool_of(JsonView::Bool(yes)) == Some(yes),
        json::bool_of(JsonView::Text(said)) is None,
        json::u64_of(JsonView::Number(NumberView::Unsigned(n))) == Some(n),
        json::u64_of(JsonView::Text(said)) is None,
        n <= i64::MAX ==> json::i64_of(JsonView::Number(NumberView::Unsigned(n))) == Some(n as i64),
        n > i64::MAX ==> json::i64_of(JsonView::Number(NumberView::Unsigned(n))) is None,
        json::without_member(JsonView::Object(members), key) matches JsonView::Object(rest)
            && !rest.contains_key(key),
{
}

} // verus!
