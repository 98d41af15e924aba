//! How the model names an element, and how a failure is named.
use vstd::prelude::*;
use vstd::string::*;

use crate::text;
use crate::text::{
    ascii_digit, cat2, chars_of, contains, slice_text, str_eq, strip_prefix, trim,
};

verus! {

/// A text in lower case, as `str::to_lowercase` writes it.
pub uninterp spec fn lowercased(text: Seq<char>) -> Seq<char>;

/// `str::to_lowercase` of the standard library: a text in lower case. What it does to each letter
/// is not stated, only that it depends on the text alone.
#[verifier::external_body]
pub(crate) fn to_lowercase(text: &str) -> (lower: String)
    ensures
        lower@ == lowercased(text@),
{
    text.to_lowercase()
}

/// A reference of a snapshot: `e` and digits.
pub open spec fn aria_ref(target: Seq<char>) -> bool {
    &&& target.len() >= 2
    &&& target[0] == 'e'
    &&& forall|i: int| 1 <= i < target.len() ==> text::is_digit(#[trigger] target[i])
}

/// Whether a target is a reference of a snapshot.
pub fn is_aria_ref(target: &str) -> (yes: bool)
    ensures
        yes == aria_ref(target@),
{
    let chars = chars_of(target);
    if chars.len() < 2 || chars[0] != 'e' {
        return false;
    }
    let mut i: usize = 1;
    while i < chars.len()
        invariant
            1 <= i <= chars@.len(),
            chars@ == target@,
            forall|j: int| 1 <= j < i ==> text::is_digit(#[trigger] target@[j]),
        decreases chars@.len() - i,
    {
        if !ascii_digit(chars[i]) {
            assert(!text::is_digit(target@[i as int]));
            return false;
        }
        i += 1;
    }
    true
}

/// A target without the sign that marks references.
pub open spec fn bare(target: Seq<char>) -> Seq<char> {
    match text::after_prefix(target, "@"@) {
        Some(rest) => rest,
        None => target,
    }
}

/// The selector for a target: references of a snapshot go to their own engine, and anything else
/// stays a selector.
pub open spec fn selector(target: Seq<char>) -> Seq<char> {
    let inner = text::trimmed(target);
    if aria_ref(bare(inner)) {
        "aria-ref="@ + bare(inner)
    } else {
        inner
    }
}

/// The selector for a target.
pub fn normalize_target(target: &str) -> (selected: String)
    ensures
        selected@ == selector(target@),
{
    let inner = trim(target);
    let bare = match strip_prefix(inner.as_str(), "@") {
        Some(rest) => rest,
        None => inner.clone(),
    };
    if is_aria_ref(bare.as_str()) {
        return cat2("aria-ref=", bare.as_str());
    }
    inner
}

/// The target of a command that names a reference, a locator, both or none.
pub open spec fn picked(reference: Option<Seq<char>>, locator: Option<Seq<char>>) -> Option<Seq<char>> {
    match reference {
        Some(reference) => Some(selector(reference)),
        None => locator,
    }
}

/// The target of a command: the reference comes first.
pub fn pick_target(reference: Option<&str>, locator: Option<&str>) -> (target: Option<String>)
    ensures
        text::opt_view(target) == picked(text::opt_str_view(reference), text::opt_str_view(locator)),
{
    match reference {
        Some(reference) => Some(normalize_target(reference)),
        None => match locator {
            Some(locator) => Some(locator.to_owned()),
            None => None,
        },
    }
}

/// A button of the mouse.
#[derive(Debug, Clone, Copy, PartialEq, Eq, Structural)]
pub enum Button {
    Left,
    Right,
    Middle,
}

/// The button under a name: the left one, unless another is named.
pub open spec fn button_named(name: Option<Seq<char>>) -> Button {
    if name == Some("right"@) {
        Button::Right
    } else if name == Some("middle"@) {
        Button::Middle
    } else {
        Button::Left
    }
}

/// The button under a name.
pub fn parse_button(name: Option<&str>) -> (button: Button)
    ensures
        button == button_named(text::opt_str_view(name)),
{
    match name {
        Some(name) => if str_eq(name, "right") {
            Button::Right
        } else if str_eq(name, "middle") {
            Button::Middle
        } else {
            Button::Left
        },
        None => Button::Left,
    }
}

/// A character within the quotes of a script.
pub open spec fn script_char(c: char) -> Seq<char> {
    if c == '\\' {
        seq!['\\', '\\']
    } else if c == '\'' {
        seq!['\\', '\'']
    } else if c == '\n' {
        seq!['\\', 'n']
    } else if c == '\r' {
        seq!['\\', 'r']
    } else {
        seq![c]
    }
}

/// A text within the quotes of a script.
pub open spec fn script_text(text: Seq<char>) -> Seq<char>
    decreases text.len(),
{
    if text.len() == 0 {
        Seq::empty()
    } else {
        script_text(text.drop_last()) + script_char(text.last())
    }
}

/// A text within the single quotes of a script.
pub fn escape_js_string(raw: &str) -> (escaped: String)
    ensures
        escaped@ == script_text(raw@),
{
    let chars = chars_of(raw);
    let mut escaped = String::new();
    let mut i: usize = 0;
    while i < chars.len()
        invariant
            i <= chars@.len(),
            chars@ == raw@,
            escaped@ == script_text(raw@.take(i as int)),
        decreases chars@.len() - i,
    {
        assert(raw@.take(i + 1).drop_last() =~= raw@.take(i as int));
        let ghost before = escaped@;
        let c = chars[i];
        if c == '\\' {
            escaped.push('\\');
            escaped.push('\\');
        } else if c == '\'' {
            escaped.push('\\');
            escaped.push('\'');
        } else if c == '\n' {
            escaped.push('\\');
            escaped.push('n');
        } else if c == '\r' {
            escaped.push('\\');
            escaped.push('r');
        } else {
            escaped.push(c);
        }
        assert(escaped@ =~= before + script_char(c));
        i += 1;
    }
    assert(raw@.take(raw@.len() as int) =~= raw@);
    escaped
}

/// Whether a text within quotes leaves them closed: it holds no line break, and no quote that no
/// backslash goes with.
pub open spec fn stays_quoted(text: Seq<char>, mark: char, escaped: bool) -> bool
    decreases text.len(),
{
    if text.len() == 0 {
        !escaped
    } else if escaped {
        stays_quoted(text.drop_first(), mark, false)
    } else if text[0] == '\\' {
        stays_quoted(text.drop_first(), mark, true)
    } else {
        text[0] != mark && text[0] != '\n' && text[0] != '\r' && stays_quoted(
            text.drop_first(),
            mark,
            false,
        )
    }
}

pub proof fn lemma_quoted_concat(a: Seq<char>, b: Seq<char>, mark: char, escaped: bool)
    requires
        stays_quoted(a, mark, escaped),
        stays_quoted(b, mark, false),
    ensures
        stays_quoted(a + b, mark, escaped),
    decreases a.len(),
{
    if a.len() == 0 {
        assert(a + b =~= b);
    } else {
        assert((a + b).drop_first() =~= a.drop_first() + b);
        let next = !escaped && a[0] == '\\';
        lemma_quoted_concat(a.drop_first(), b, mark, next);
    }
}

/// Whatever a text holds, it does not end the quotes of the script that it is put into.
pub proof fn escaped_text_stays_quoted(text: Seq<char>)
    ensures
        stays_quoted(script_text(text), '\'', false),
    decreases text.len(),
{
    if text.len() > 0 {
        escaped_text_stays_quoted(text.drop_last());
        let last = script_char(text.last());
        assert(stays_quoted(last, '\'', false)) by {
            reveal_with_fuel(stays_quoted, 3);
            if last.len() == 2 {
                assert(last.drop_first() =~= seq![last[1]]);
                assert(last.drop_first().drop_first() =~= Seq::empty());
            } else {
                assert(last.drop_first() =~= Seq::empty());
            }
        }
        lemma_quoted_concat(script_text(text.drop_last()), last, '\'', false);
    }
}

/// The code of a failure, by its message in lower case and its message.
pub open spec fn code_of(lower: Seq<char>, message: Seq<char>) -> Seq<char> {
    if text::has(lower, "timeout"@) || text::has(message, "超时"@) {
        "timeout"@
    } else if text::has(lower, "target closed"@) || text::has(message, "已关闭"@) {
        "target_closed"@
    } else if text::has(lower, "not exist"@) || text::has(message, "不存在"@) {
        "not_found"@
    } else {
        "command_failed"@
    }
}

/// The code of a failure, given its message in lower case.
pub fn code_for(lower: &str, message: &str) -> (code: &'static str)
    ensures
        code@ == code_of(lower@, message@),
{
    if contains(lower, "timeout") || contains(message, "超时") {
        "timeout"
    } else if contains(lower, "target closed") || contains(message, "已关闭") {
        "target_closed"
    } else if contains(lower, "not exist") || contains(message, "不存在") {
        "not_found"
    } else {
        "command_failed"
    }
}

/// The code of a failure.
pub fn error_code(message: &str) -> (code: &'static str)
    ensures
        code@ == code_of(lowercased(message@), message@),
{
    code_for(to_lowercase(message).as_str(), message)
}

/// Whether a failure says that no browser is installed, by its message in lower case.
pub open spec fn says_missing(lower: Seq<char>) -> bool {
    text::has(lower, "executable doesn't exist"@) || text::has(lower, "browser not installed"@)
        || text::has(lower, "browsernotinstalled"@) || text::has(
        lower,
        "please run the following command to download"@,
    )
}

/// Whether a failure says that no browser is installed, given its message in lower case.
pub fn is_missing_browser(lower: &str) -> (yes: bool)
    ensures
        yes == says_missing(lower@),
{
    contains(lower, "executable doesn't exist") || contains(lower, "browser not installed")
        || contains(lower, "browsernotinstalled") || contains(
        lower,
        "please run the following command to download",
    )
}

/// Whether a failure says that no browser is installed.
pub fn looks_like_missing_browser(message: &str) -> (yes: bool)
    ensures
        yes == says_missing(lowercased(message@)),
{
    is_missing_browser(to_lowercase(message).as_str())
}

/// Whether a content type, in lower case, is one of text. Without one, the bytes decide.
pub open spec fn is_text_type(lower: Seq<char>, is_utf8: bool) -> bool {
    text::has(lower, "text/"@) || text::has(lower, "json"@) || text::has(lower, "javascript"@)
        || text::has(lower, "xml"@) || text::has(lower, "x-www-form-urlencoded"@) || (lower.len()
        == 0 && is_utf8)
}

/// Whether a body is text, given its content type in lower case.
pub fn text_type(lower: &str, is_utf8: bool) -> (yes: bool)
    ensures
        yes == is_text_type(lower@, is_utf8),
{
    contains(lower, "text/") || contains(lower, "json") || contains(lower, "javascript")
        || contains(lower, "xml") || contains(lower, "x-www-form-urlencoded") || (lower.is_empty()
        && is_utf8)
}

/// Whether a body is text.
pub fn is_text_body(content_type: &str, is_utf8: bool) -> (yes: bool)
    ensures
        yes == is_text_type(lowercased(content_type@), is_utf8),
{
    text_type(to_lowercase(content_type).as_str(), is_utf8)
}

/// The mark before an element of a snapshot.
pub const ELEMENT_MARK: &'static str = "[ref=";

/// Where the snapshot is cut so that `left` marks stay from `from` on; `None` where it has no more.
pub open spec fn cut_at(snapshot: Seq<char>, from: int, left: nat) -> Option<int>
    decreases left,
{
    match text::find_from(snapshot, ELEMENT_MARK@, from) {
        Some(at) => if left == 0 {
            Some(at)
        } else {
            cut_at(snapshot, at + ELEMENT_MARK@.len(), (left - 1) as nat)
        },
        None => None,
    }
}

/// A snapshot with at most so many elements, and whether something was cut.
pub open spec fn limited(snapshot: Seq<char>, max: Option<u32>) -> (Seq<char>, bool) {
    match max {
        Some(max) => match cut_at(snapshot, 0, max as nat) {
            Some(at) => (snapshot.take(at), true),
            None => (snapshot, false),
        },
        None => (snapshot, false),
    }
}

/// A snapshot with at most so many elements, and whether something was cut.
pub fn limit_elements(snapshot: String, max: Option<u32>) -> (kept: (String, bool))
    ensures
        (kept.0@, kept.1) == limited(snapshot@, max),
{
    match max {
        Some(max) => {
            let chars = chars_of(snapshot.as_str());
            let mark = chars_of(ELEMENT_MARK);
            let total: usize = chars.len();
            let mut from: usize = 0;
            let mut left: u32 = max;
            let mut cut: Option<usize> = None;
            let mut more = true;
            while more
                invariant
                    chars@ == snapshot@,
                    mark@ == ELEMENT_MARK@,
                    total == chars@.len(),
                    from <= chars@.len(),
                    more ==> cut is None && cut_at(chars@, 0, max as nat) == cut_at(
                        chars@,
                        from as int,
                        left as nat,
                    ),
                    !more ==> cut_at(chars@, 0, max as nat) == (match cut {
                        Some(at) => Some(at as int),
                        None => None::<int>,
                    }),
                    cut matches Some(at) ==> at <= chars@.len(),
                decreases more as int, left,
            {
                proof {
                    text::lemma_find_from(chars@, mark@, from as int);
                }
                match text::find_chars(&chars, &mark, from) {
                    Some(at) => {
                        if left == 0 {
                            cut = Some(at);
                            more = false;
                        } else {
                            assert(at + mark@.len() <= total);
                            from = at + mark.len();
                            left = left - 1;
                        }
                    },
                    None => {
                        more = false;
                    },
                }
            }
            match cut {
                Some(at) => {
                    assert(chars@.subrange(0, at as int) =~= chars@.take(at as int));
                    (slice_text(&chars, 0, at), true)
                },
                None => (snapshot, false),
            }
        },
        None => (snapshot, false),
    }
}

} // verus!
