//! Text as a sequence of characters: the string operations that the rest of the library is
//! written with, each with an exact meaning on the characters.
use vstd::prelude::*;
use vstd::string::*;

verus! {

/// Whether two texts have the same characters. Their bytes are compared, which tell the characters.
pub(crate) fn str_eq(a: &str, b: &str) -> (same: bool)
    ensures
        same == (a@ == b@),
{
    let first = a.as_bytes();
    let second = b.as_bytes();
    if first.len() != second.len() {
        return false;
    }
    let mut i: usize = 0;
    while i < first.len()
        invariant
            i <= first@.len(),
            first@.len() == second@.len(),
            first@ == a.spec_bytes(),
            second@ == b.spec_bytes(),
            forall|j: int| 0 <= j < i ==> first@[j] == second@[j],
        decreases first@.len() - i,
    {
        if first[i] != second[i] {
            return false;
        }
        i += 1;
    }
    proof {
        assert(first@ =~= second@);
        vstd::utf8::encode_utf8_decode_utf8(a@);
        vstd::utf8::encode_utf8_decode_utf8(b@);
    }
    true
}

/// `String::push` appends one character.
pub assume_specification[ std::string::String::push ](string: &mut String, ch: char)
    ensures
        final(string)@ == old(string)@.push(ch),
;

/// The characters with the Unicode property White_Space.
pub open spec fn is_space(c: char) -> bool {
    ||| '\u{9}' <= c <= '\u{d}'
    ||| c == ' '
    ||| c == '\u{85}'
    ||| c == '\u{a0}'
    ||| c == '\u{1680}'
    ||| '\u{2000}' <= c <= '\u{200a}'
    ||| c == '\u{2028}'
    ||| c == '\u{2029}'
    ||| c == '\u{202f}'
    ||| c == '\u{205f}'
    ||| c == '\u{3000}'
}

/// Whether a character is white space.
pub fn whitespace(c: char) -> (yes: bool)
    ensures
        yes == is_space(c),
{
    ('\u{9}' <= c && c <= '\u{d}') || c == ' ' || c == '\u{85}' || c == '\u{a0}' || c == '\u{1680}'
        || ('\u{2000}' <= c && c <= '\u{200a}') || c == '\u{2028}' || c == '\u{2029}' || c
        == '\u{202f}' || c == '\u{205f}' || c == '\u{3000}'
}

pub open spec fn is_lower(c: char) -> bool {
    'a' <= c <= 'z'
}

pub open spec fn is_alpha(c: char) -> bool {
    is_lower(c) || 'A' <= c <= 'Z'
}

pub open spec fn is_digit(c: char) -> bool {
    '0' <= c <= '9'
}

pub open spec fn is_alnum(c: char) -> bool {
    is_alpha(c) || is_digit(c)
}

pub fn ascii_lower(c: char) -> (yes: bool)
    ensures
        yes == is_lower(c),
{
    'a' <= c && c <= 'z'
}

pub fn ascii_alpha(c: char) -> (yes: bool)
    ensures
        yes == is_alpha(c),
{
    ascii_lower(c) || ('A' <= c && c <= 'Z')
}

pub fn ascii_digit(c: char) -> (yes: bool)
    ensures
        yes == is_digit(c),
{
    '0' <= c && c <= '9'
}

pub fn ascii_alnum(c: char) -> (yes: bool)
    ensures
        yes == is_alnum(c),
{
    ascii_alpha(c) || ascii_digit(c)
}

/// The characters of a string, in order.
pub fn chars_of(text: &str) -> (chars: Vec<char>)
    ensures
        chars@ == text@,
{
    let mut chars: Vec<char> = Vec::new();
    for c in iter: text.chars()
        invariant
            chars@ == iter.seq().take(iter.index() as int),
            iter.seq() == text@,
    {
        chars.push(c);
        assert(iter.seq().take(iter.index() + 1) =~= iter.seq().take(iter.index() as int).push(c));
    }
    assert(text@.take(text@.len() as int) =~= text@);
    chars
}

/// The string made of the characters `from..to`.
pub fn slice_text(chars: &Vec<char>, from: usize, to: usize) -> (text: String)
    requires
        from <= to <= chars@.len(),
    ensures
        text@ == chars@.subrange(from as int, to as int),
{
    let mut text = String::new();
    let mut i: usize = from;
    while i < to
        invariant
            from <= i <= to <= chars@.len(),
            text@ == chars@.subrange(from as int, i as int),
        decreases to - i,
    {
        text.push(chars[i]);
        i += 1;
        assert(chars@.subrange(from as int, i as int) =~= chars@.subrange(
            from as int,
            i - 1,
        ).push(chars@[i - 1]));
    }
    text
}

/// Two strings joined.
pub fn cat2(a: &str, b: &str) -> (text: String)
    ensures
        text@ == a@ + b@,
{
    let mut text = a.to_owned();
    text.append(b);
    text
}

/// Three strings joined.
pub fn cat3(a: &str, b: &str, c: &str) -> (text: String)
    ensures
        text@ == a@ + b@ + c@,
{
    let mut text = cat2(a, b);
    text.append(c);
    text
}

/// Four strings joined.
pub fn cat4(a: &str, b: &str, c: &str, d: &str) -> (text: String)
    ensures
        text@ == a@ + b@ + c@ + d@,
{
    let mut text = cat3(a, b, c);
    text.append(d);
    text
}

/// Five strings joined.
pub fn cat5(a: &str, b: &str, c: &str, d: &str, e: &str) -> (text: String)
    ensures
        text@ == a@ + b@ + c@ + d@ + e@,
{
    let mut text = cat4(a, b, c, d);
    text.append(e);
    text
}

/// `text` without its leading white space.
pub open spec fn trim_front(text: Seq<char>) -> Seq<char>
    decreases text.len(),
{
    if text.len() > 0 && is_space(text[0]) {
        trim_front(text.skip(1))
    } else {
        text
    }
}

/// `text` without its trailing white space.
pub open spec fn trim_back(text: Seq<char>) -> Seq<char>
    decreases text.len(),
{
    if text.len() > 0 && is_space(text.last()) {
        trim_back(text.drop_last())
    } else {
        text
    }
}

/// `text` without white space at either end.
pub open spec fn trimmed(text: Seq<char>) -> Seq<char> {
    trim_back(trim_front(text))
}

/// Leading and trailing white space removed.
pub fn trim(text: &str) -> (inner: String)
    ensures
        inner@ == trimmed(text@),
{
    let chars = chars_of(text);
    let mut from: usize = 0;
    assert(text@.skip(0) =~= text@);
    while from < chars.len() && whitespace(chars[from])
        invariant
            from <= chars@.len(),
            chars@ == text@,
            trim_front(text@) == trim_front(text@.skip(from as int)),
        decreases chars@.len() - from,
    {
        assert(text@.skip(from as int).skip(1) =~= text@.skip(from + 1));
        from += 1;
    }
    let mut to: usize = chars.len();
    assert(trim_front(text@) == text@.skip(from as int));
    assert(text@.skip(from as int) =~= text@.subrange(from as int, to as int));
    while from < to && whitespace(chars[to - 1])
        invariant
            from <= to <= chars@.len(),
            chars@ == text@,
            trimmed(text@) == trim_back(text@.subrange(from as int, to as int)),
        decreases to,
    {
        assert(text@.subrange(from as int, to as int).drop_last() =~= text@.subrange(
            from as int,
            to - 1,
        ));
        to -= 1;
    }
    slice_text(&chars, from, to)
}

/// Whether all characters of `text` are white space.
pub open spec fn is_blank(text: Seq<char>) -> bool {
    trimmed(text).len() == 0
}

/// `pattern` stands in `text` at position `at`.
pub open spec fn occurs_at(text: Seq<char>, pattern: Seq<char>, at: int) -> bool {
    &&& 0 <= at
    &&& at + pattern.len() <= text.len()
    &&& text.subrange(at, at + pattern.len()) == pattern
}

/// The first position from `from` on at which `pattern` stands in `text`.
pub open spec fn find_from(text: Seq<char>, pattern: Seq<char>, from: int) -> Option<int>
    decreases text.len() + 1 - from,
{
    if from < 0 || from + pattern.len() > text.len() {
        None
    } else if occurs_at(text, pattern, from) {
        Some(from)
    } else {
        find_from(text, pattern, from + 1)
    }
}

/// `pattern` stands somewhere in `text`.
pub open spec fn has(text: Seq<char>, pattern: Seq<char>) -> bool {
    exists|at: int| occurs_at(text, pattern, at)
}

pub proof fn lemma_find_from(text: Seq<char>, pattern: Seq<char>, from: int)
    requires
        0 <= from,
    ensures
        match find_from(text, pattern, from) {
            Some(at) => {
                &&& from <= at
                &&& occurs_at(text, pattern, at)
                &&& forall|i: int| from <= i < at ==> !occurs_at(text, pattern, i)
            },
            None => forall|i: int| from <= i ==> !occurs_at(text, pattern, i),
        },
    decreases text.len() + 1 - from,
{
    if from + pattern.len() <= text.len() && !occurs_at(text, pattern, from) {
        lemma_find_from(text, pattern, from + 1);
    }
}

/// Whether `pattern` stands at position `at`.
pub fn matches_at(text: &Vec<char>, pattern: &Vec<char>, at: usize) -> (yes: bool)
    requires
        at <= text@.len(),
    ensures
        yes == occurs_at(text@, pattern@, at as int),
{
    if pattern.len() > text.len() - at {
        return false;
    }
    let mut i: usize = 0;
    while i < pattern.len()
        invariant
            i <= pattern@.len(),
            at + pattern@.len() <= text.len(),
            text@.subrange(at as int, at + i) == pattern@.subrange(0, i as int),
        decreases pattern@.len() - i,
    {
        if text[at + i] != pattern[i] {
            assert(text@.subrange(at as int, at + pattern@.len())[i as int] != pattern@[i as int]);
            return false;
        }
        assert(text@.subrange(at as int, at + i + 1) =~= text@.subrange(at as int, at + i).push(
            text@[at + i],
        ));
        assert(pattern@.subrange(0, i + 1) =~= pattern@.subrange(0, i as int).push(
            pattern@[i as int],
        ));
        i += 1;
    }
    assert(pattern@.subrange(0, pattern@.len() as int) =~= pattern@);
    true
}

/// The first position from `from` on at which `pattern` stands.
pub fn find_chars(text: &Vec<char>, pattern: &Vec<char>, from: usize) -> (at: Option<usize>)
    requires
        from <= text@.len(),
    ensures
        find_from(text@, pattern@, from as int) == (match at {
            Some(i) => Some(i as int),
            None => None::<int>,
        }),
        at matches Some(i) ==> i + pattern@.len() <= text@.len(),
{
    let mut i: usize = from;
    while pattern.len() <= text.len() - i
        invariant
            from <= i <= text@.len(),
            find_from(text@, pattern@, from as int) == find_from(text@, pattern@, i as int),
        decreases text@.len() - i,
    {
        if matches_at(text, pattern, i) {
            return Some(i);
        }
        if i == text.len() {
            assert(pattern@.len() == 0);
            assert(text@.subrange(i as int, i as int) =~= pattern@);
            return None;
        }
        i += 1;
    }
    None
}

/// Whether `pattern` stands somewhere in `text`.
pub fn contains(text: &str, pattern: &str) -> (yes: bool)
    ensures
        yes == has(text@, pattern@),
{
    let found = find_chars(&chars_of(text), &chars_of(pattern), 0);
    proof {
        lemma_find_from(text@, pattern@, 0);
    }
    found.is_some()
}

/// Whether `text` begins with `prefix`.
pub fn starts_with(text: &str, prefix: &str) -> (yes: bool)
    ensures
        yes == prefix@.is_prefix_of(text@),
{
    matches_at(&chars_of(text), &chars_of(prefix), 0)
}

/// Whether `text` ends with `suffix`.
pub fn ends_with(text: &str, suffix: &str) -> (yes: bool)
    ensures
        yes == suffix@.is_suffix_of(text@),
{
    let chars = chars_of(text);
    let tail = chars_of(suffix);
    if tail.len() > chars.len() {
        return false;
    }
    matches_at(&chars, &tail, chars.len() - tail.len())
}

/// What follows `prefix` in `text`, if `text` begins with it.
pub open spec fn after_prefix(text: Seq<char>, prefix: Seq<char>) -> Option<Seq<char>> {
    if prefix.is_prefix_of(text) {
        Some(text.skip(prefix.len() as int))
    } else {
        None
    }
}

/// The view of an optional string.
pub open spec fn opt_view(text: Option<String>) -> Option<Seq<char>> {
    match text {
        Some(text) => Some(text@),
        None => None,
    }
}

/// The view of an optional borrowed string.
pub open spec fn opt_str_view(text: Option<&str>) -> Option<Seq<char>> {
    match text {
        Some(text) => Some(text@),
        None => None,
    }
}

/// The views of a sequence of strings.
pub open spec fn views(texts: Seq<String>) -> Seq<Seq<char>> {
    texts.map_values(|text: String| text@)
}

/// Adds a text to a list.
pub fn push_text(texts: &mut Vec<String>, text: String)
    ensures
        views(final(texts)@) == views(old(texts)@).push(text@),
{
    assert(views(texts@.push(text)) =~= views(texts@).push(text@));
    texts.push(text);
}

/// What follows `prefix` in `text`, if `text` begins with it.
pub fn strip_prefix(text: &str, prefix: &str) -> (rest: Option<String>)
    ensures
        opt_view(rest) == after_prefix(text@, prefix@),
{
    let chars = chars_of(text);
    let head = chars_of(prefix);
    if matches_at(&chars, &head, 0) {
        let rest = slice_text(&chars, head.len(), chars.len());
        assert(rest@ =~= text@.skip(prefix@.len() as int));
        Some(rest)
    } else {
        None
    }
}

/// The texts in a row, with `separator` between neighbours.
pub open spec fn joined(texts: Seq<Seq<char>>, separator: Seq<char>) -> Seq<char>
    decreases texts.len(),
{
    if texts.len() == 0 {
        Seq::empty()
    } else if texts.len() == 1 {
        texts[0]
    } else {
        joined(texts.drop_last(), separator) + separator + texts.last()
    }
}

/// The texts in a row, with `separator` between neighbours.
pub fn join(texts: &Vec<String>, separator: &str) -> (text: String)
    ensures
        text@ == joined(views(texts@), separator@),
{
    let mut text = String::new();
    let mut i: usize = 0;
    while i < texts.len()
        invariant
            i <= texts@.len(),
            text@ == joined(views(texts@).take(i as int), separator@),
        decreases texts@.len() - i,
    {
        if i > 0 {
            text.append(separator);
        }
        text.append(texts[i].as_str());
        assert(views(texts@).take(i + 1).drop_last() =~= views(texts@).take(i as int));
        assert(views(texts@).take(i + 1).last() == texts@[i as int]@);
        assert(Seq::<char>::empty() + texts@[i as int]@ =~= texts@[i as int]@);
        i += 1;
    }
    assert(views(texts@).take(texts@.len() as int) =~= views(texts@));
    text
}

/// The decimal digit of `n`.
pub open spec fn digit_char(n: nat) -> char {
    (('0' as int) + n) as char
}

/// `n` in decimal.
pub open spec fn decimal(n: nat) -> Seq<char>
    decreases n,
{
    if n < 10 {
        seq![digit_char(n)]
    } else {
        decimal(n / 10).push(digit_char(n % 10))
    }
}

fn digit(n: u64) -> (c: char)
    requires
        n < 10,
    ensures
        c == digit_char(n as nat),
{
    (48 + n as u8) as char
}

/// `n` in decimal.
pub fn decimal_text(n: u64) -> (text: String)
    ensures
        text@ == decimal(n as nat),
    decreases n,
{
    if n < 10 {
        let mut text = String::new();
        text.push(digit(n));
        assert(text@ =~= seq![digit_char(n as nat)]);
        text
    } else {
        let mut text = decimal_text(n / 10);
        text.push(digit(n % 10));
        text
    }
}

/// Different numbers have different decimals.
pub proof fn lemma_decimal_injective(m: nat, n: nat)
    requires
        decimal(m) == decimal(n),
    ensures
        m == n,
    decreases m,
{
    assert(decimal(m).last() == digit_char(m % 10));
    assert(decimal(n).last() == digit_char(n % 10));
    lemma_decimal_len(m);
    lemma_decimal_len(n);
    assert(m % 10 == n % 10);
    if m >= 10 && n >= 10 {
        assert(decimal(m).drop_last() =~= decimal(m / 10));
        assert(decimal(n).drop_last() =~= decimal(n / 10));
        lemma_decimal_injective(m / 10, n / 10);
    }
}

/// A decimal is made of digits.
pub proof fn lemma_decimal_digits(n: nat)
    ensures
        forall|i: int| 0 <= i < decimal(n).len() ==> is_digit(#[trigger] decimal(n)[i]),
    decreases n,
{
    assert(is_digit(digit_char(n % 10)));
    if n >= 10 {
        lemma_decimal_digits(n / 10);
        assert forall|i: int| 0 <= i < decimal(n).len() implies is_digit(
            #[trigger] decimal(n)[i],
        ) by {
            if i < decimal(n / 10).len() {
                assert(is_digit(decimal(n / 10)[i]));
            }
        }
    }
}

proof fn lemma_decimal_len(n: nat)
    ensures
        decimal(n).len() >= 1,
        n >= 10 ==> decimal(n).len() >= 2,
    decreases n,
{
    if n >= 10 {
        lemma_decimal_len(n / 10);
    }
}

/// `n` in decimal, with a sign where it is negative.
pub open spec fn signed_decimal(n: int) -> Seq<char> {
    if n < 0 {
        seq!['-'] + decimal((-n) as nat)
    } else {
        decimal(n as nat)
    }
}

/// `n` in decimal, with a sign where it is negative.
pub fn signed_text(n: i64) -> (text: String)
    ensures
        text@ == signed_decimal(n as int),
{
    if n < 0 {
        let positive: u64 = if n == i64::MIN {
            0x8000_0000_0000_0000
        } else {
            (-n) as u64
        };
        let mut text = String::new();
        text.push('-');
        text.append(decimal_text(positive).as_str());
        assert(text@ =~= seq!['-'] + decimal(positive as nat));
        text
    } else {
        decimal_text(n as u64)
    }
}


/// `a` comes before `b` in the order of strings: at the first difference, by the character.
pub open spec fn before(a: Seq<char>, b: Seq<char>) -> bool
    decreases a.len(),
{
    if b.len() == 0 {
        false
    } else if a.len() == 0 {
        true
    } else if a[0] != b[0] {
        a[0] < b[0]
    } else {
        before(a.skip(1), b.skip(1))
    }
}

pub proof fn lemma_before_irreflexive(a: Seq<char>)
    ensures
        !before(a, a),
    decreases a.len(),
{
    if a.len() > 0 {
        lemma_before_irreflexive(a.skip(1));
    }
}

pub proof fn lemma_before_transitive(a: Seq<char>, b: Seq<char>, c: Seq<char>)
    requires
        before(a, b),
        before(b, c),
    ensures
        before(a, c),
    decreases a.len(),
{
    if a.len() > 0 && b.len() > 0 && c.len() > 0 && a[0] == b[0] && b[0] == c[0] {
        lemma_before_transitive(a.skip(1), b.skip(1), c.skip(1));
    }
}

pub proof fn lemma_before_total(a: Seq<char>, b: Seq<char>)
    ensures
        before(a, b) || before(b, a) || a == b,
    decreases a.len(),
{
    if a.len() > 0 && b.len() > 0 {
        if a[0] == b[0] {
            lemma_before_total(a.skip(1), b.skip(1));
            if a.skip(1) == b.skip(1) {
                assert(a.skip(1).len() == b.skip(1).len());
                assert forall|i: int| 0 <= i < a.len() implies a[i] == b[i] by {
                    if i > 0 {
                        assert(a[i] == a.skip(1)[i - 1]);
                        assert(b[i] == b.skip(1)[i - 1]);
                    }
                }
                assert(a =~= b);
            }
        }
    } else if a.len() == 0 && b.len() == 0 {
        assert(a =~= b);
    }
}

/// Whether `a` comes before `b`.
pub fn comes_before(a: &str, b: &str) -> (yes: bool)
    ensures
        yes == before(a@, b@),
{
    let left = chars_of(a);
    let right = chars_of(b);
    let mut i: usize = 0;
    assert(a@.skip(0) =~= a@);
    assert(b@.skip(0) =~= b@);
    while i < left.len() && i < right.len() && left[i] == right[i]
        invariant
            i <= left@.len(),
            i <= right@.len(),
            left@ == a@,
            right@ == b@,
            before(a@, b@) == before(a@.skip(i as int), b@.skip(i as int)),
        decreases left@.len() - i,
    {
        assert(a@.skip(i as int).skip(1) =~= a@.skip(i + 1));
        assert(b@.skip(i as int).skip(1) =~= b@.skip(i + 1));
        i += 1;
    }
    if i >= right.len() {
        false
    } else if i >= left.len() {
        true
    } else {
        left[i] < right[i]
    }
}

/// Strictly increasing.
pub open spec fn increasing(texts: Seq<Seq<char>>) -> bool {
    forall|i: int, j: int| 0 <= i < j < texts.len() ==> before(texts[i], texts[j])
}

/// The members of a set of texts, in increasing order.
pub open spec fn in_order(texts: Set<Seq<char>>) -> Seq<Seq<char>> {
    choose|list: Seq<Seq<char>>| #[trigger] increasing(list) && list.to_set() == texts
}

/// There is one increasing list of a set's members.
pub proof fn lemma_increasing_unique(a: Seq<Seq<char>>, b: Seq<Seq<char>>)
    requires
        increasing(a),
        increasing(b),
        a.to_set() == b.to_set(),
    ensures
        a == b,
    decreases a.len(),
{
    if a.len() == 0 {
        if b.len() > 0 {
            assert(b.to_set().contains(b[0]));
            assert(a.to_set().contains(b[0]));
        }
        assert(a =~= b);
    } else {
        assert(a.to_set().contains(a.last()));
        assert(b.to_set().contains(a.last()));
        assert(b.len() > 0);
        assert(b.to_set().contains(b.last()));
        assert(a.to_set().contains(b.last()));
        let i = choose|i: int| 0 <= i < a.len() && a[i] == b.last();
        let j = choose|j: int| 0 <= j < b.len() && b[j] == a.last();
        if a.last() != b.last() {
            assert(before(a[i], a.last()));
            assert(before(b[j], b.last()));
            lemma_before_transitive(a.last(), b.last(), a.last());
            lemma_before_irreflexive(a.last());
        }
        assert forall|t: Seq<char>| a.drop_last().to_set().contains(t)
            == b.drop_last().to_set().contains(t) by {
            lemma_drop_last_set(a, t);
            lemma_drop_last_set(b, t);
        }
        assert(a.drop_last().to_set() =~= b.drop_last().to_set());
        lemma_increasing_unique(a.drop_last(), b.drop_last());
        assert(a =~= a.drop_last().push(a.last()));
        assert(b =~= b.drop_last().push(b.last()));
    }
}

proof fn lemma_drop_last_set(a: Seq<Seq<char>>, t: Seq<char>)
    requires
        increasing(a),
        a.len() > 0,
    ensures
        a.drop_last().to_set().contains(t) == (a.to_set().contains(t) && t != a.last()),
{
    if a.drop_last().to_set().contains(t) {
        let i = choose|i: int| 0 <= i < a.drop_last().len() && a.drop_last()[i] == t;
        assert(a[i] == t);
        assert(before(a[i], a.last()));
        lemma_before_irreflexive(t);
    }
    if a.to_set().contains(t) && t != a.last() {
        let i = choose|i: int| 0 <= i < a.len() && a[i] == t;
        assert(a.drop_last()[i] == t);
    }
}

/// An increasing list is the ordered list of its own members.
pub proof fn lemma_in_order(list: Seq<Seq<char>>)
    requires
        increasing(list),
    ensures
        in_order(list.to_set()) == list,
{
    lemma_increasing_unique(in_order(list.to_set()), list);
}


/// Adds a text to an increasing list.
pub fn insert_in_order(texts: &mut Vec<String>, text: &str)
    requires
        increasing(views(old(texts)@)),
    ensures
        increasing(views(final(texts)@)),
        views(final(texts)@).to_set() == views(old(texts)@).to_set().insert(text@),
{
    let ghost list = views(texts@);
    let mut at: usize = 0;
    while at < texts.len() && comes_before(texts[at].as_str(), text)
        invariant
            at <= texts@.len(),
            list == views(texts@),
            forall|i: int| 0 <= i < at ==> before(list[i], text@),
        decreases texts@.len() - at,
    {
        assert(before(list[at as int], text@));
        at += 1;
    }
    if at < texts.len() && str_eq(texts[at].as_str(), text) {
        assert(list[at as int] == text@);
        assert(list.to_set() =~= list.to_set().insert(text@));
        return ;
    }
    proof {
        if at < texts@.len() {
            lemma_before_total(list[at as int], text@);
            assert(before(text@, list[at as int]));
            assert forall|i: int| at <= i < list.len() implies before(text@, list[i]) by {
                if i > at {
                    assert(before(list[at as int], list[i]));
                    lemma_before_transitive(text@, list[at as int], list[i]);
                }
            }
        }
    }
    texts.insert(at, text.to_owned());
    let ghost added = views(texts@);
    assert(added =~= list.insert(at as int, text@));
    assert forall|t: Seq<char>| added.to_set().contains(t) == list.to_set().insert(
        text@,
    ).contains(t) by {
        if added.contains(t) {
            let i = choose|i: int| 0 <= i < added.len() && added[i] == t;
            if i < at {
                assert(list[i] == t);
            } else if i > at {
                assert(list[i - 1] == t);
            }
        }
        if list.contains(t) {
            let i = choose|i: int| 0 <= i < list.len() && list[i] == t;
            if i < at {
                assert(added[i] == t);
            } else {
                assert(added[i + 1] == t);
            }
        }
        assert(added[at as int] == text@);
    }
    assert(added.to_set() =~= list.to_set().insert(text@));
}


/// The first position from `from` on that holds `c`.
pub open spec fn char_from(text: Seq<char>, c: char, from: int) -> Option<int>
    decreases text.len() - from,
{
    if from < 0 || from >= text.len() {
        None
    } else if text[from] == c {
        Some(from)
    } else {
        char_from(text, c, from + 1)
    }
}

pub proof fn lemma_char_from(text: Seq<char>, c: char, from: int)
    requires
        0 <= from,
    ensures
        match char_from(text, c, from) {
            Some(at) => from <= at < text.len() && text[at] == c && forall|i: int|
                from <= i < at ==> text[i] != c,
            None => forall|i: int| from <= i < text.len() ==> text[i] != c,
        },
    decreases text.len() - from,
{
    if from < text.len() && text[from] != c {
        lemma_char_from(text, c, from + 1);
    }
}

/// The first position from `from` on that holds `c`.
pub fn find_char(text: &Vec<char>, c: char, from: usize) -> (at: Option<usize>)
    requires
        from <= text@.len(),
    ensures
        char_from(text@, c, from as int) == (match at {
            Some(at) => Some(at as int),
            None => None::<int>,
        }),
        at matches Some(at) ==> from <= at < text@.len(),
{
    let mut i: usize = from;
    while i < text.len()
        invariant
            from <= i <= text@.len(),
            char_from(text@, c, from as int) == char_from(text@, c, i as int),
        decreases text@.len() - i,
    {
        if text[i] == c {
            return Some(i);
        }
        i += 1;
    }
    None
}

/// A line without the carriage return before its end.
pub open spec fn without_return(line: Seq<char>) -> Seq<char> {
    if line.len() > 0 && line.last() == '\r' {
        line.drop_last()
    } else {
        line
    }
}

/// The lines of the text from `from` on. A line ends at a line feed, with or without a carriage
/// return before it; the last line may have no end.
pub open spec fn lines_from(text: Seq<char>, from: int) -> Seq<Seq<char>>
    decreases text.len() - from,
{
    if from < 0 || from >= text.len() {
        Seq::empty()
    } else {
        match char_from(text, '\n', from) {
            Some(at) => if from <= at < text.len() {
                seq![without_return(text.subrange(from, at))] + lines_from(text, at + 1)
            } else {
                Seq::empty()
            },
            None => seq![text.skip(from)],
        }
    }
}

/// The lines of a text.
pub open spec fn lines(text: Seq<char>) -> Seq<Seq<char>> {
    lines_from(text, 0)
}

/// The lines of a text.
pub fn lines_of(text: &str) -> (list: Vec<String>)
    ensures
        views(list@) == lines(text@),
{
    let chars = chars_of(text);
    let mut list: Vec<String> = Vec::new();
    let mut from: usize = 0;
    assert(views(list@) + lines(text@) =~= lines(text@));
    while from < chars.len()
        invariant
            from <= chars@.len(),
            chars@ == text@,
            views(list@) + lines_from(text@, from as int) == lines(text@),
        decreases chars@.len() - from,
    {
        match find_char(&chars, '\n', from) {
            Some(at) => {
                let mut to: usize = at;
                if to > from && chars[to - 1] == '\r' {
                    to -= 1;
                }
                let line = slice_text(&chars, from, to);
                assert(line@ =~= without_return(text@.subrange(from as int, at as int)));
                assert(views(list@.push(line)) =~= views(list@).push(line@));
                assert(views(list@).push(line@) + lines_from(text@, at + 1) =~= views(list@) + (
                seq![line@] + lines_from(text@, at + 1)));
                list.push(line);
                from = at + 1;
            },
            None => {
                let line = slice_text(&chars, from, chars.len());
                assert(line@ =~= text@.skip(from as int));
                assert(views(list@.push(line)) =~= views(list@) + seq![line@]);
                list.push(line);
                return list;
            },
        }
    }
    assert(views(list@) + Seq::<Seq<char>>::empty() =~= views(list@));
    list
}


/// What stands before `suffix` in `text`, if `text` ends with it.
pub open spec fn before_suffix(text: Seq<char>, suffix: Seq<char>) -> Option<Seq<char>> {
    if suffix.is_suffix_of(text) {
        Some(text.take(text.len() - suffix.len()))
    } else {
        None
    }
}

/// What stands before `suffix` in `text`, if `text` ends with it.
pub fn strip_suffix(text: &str, suffix: &str) -> (rest: Option<String>)
    ensures
        opt_view(rest) == before_suffix(text@, suffix@),
{
    let chars = chars_of(text);
    let tail = chars_of(suffix);
    if tail.len() <= chars.len() && matches_at(&chars, &tail, chars.len() - tail.len()) {
        let rest = slice_text(&chars, 0, chars.len() - tail.len());
        assert(rest@ =~= text@.take(text@.len() - suffix@.len()));
        Some(rest)
    } else {
        None
    }
}

/// What follows the first `mark` in `text`.
pub open spec fn after_first(text: Seq<char>, mark: Seq<char>) -> Option<Seq<char>> {
    match find_from(text, mark, 0) {
        Some(at) => Some(text.skip(at + mark.len())),
        None => None,
    }
}

/// What follows the first `mark` in `text`.
pub fn rest_after(text: &str, mark: &str) -> (rest: Option<String>)
    ensures
        opt_view(rest) == after_first(text@, mark@),
{
    let chars = chars_of(text);
    let pattern = chars_of(mark);
    let total: usize = chars.len();
    match find_chars(&chars, &pattern, 0) {
        Some(at) => {
            let rest = slice_text(&chars, at + pattern.len(), total);
            assert(rest@ =~= text@.skip(at + mark@.len()));
            Some(rest)
        },
        None => None,
    }
}

} // verus!
