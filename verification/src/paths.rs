//! Paths as texts.
use vstd::prelude::*;
use vstd::string::*;

use crate::text;
use crate::text::{cat3, chars_of, str_eq};

verus! {

/// Whether a character stands between the parts of a path, on some system.
pub open spec fn is_separator(c: char) -> bool {
    c == '/' || c == '\\'
}

/// Whether a path starts with two separators, as that of a server does on some systems.
pub open spec fn is_doubled(path: Seq<char>) -> bool {
    path.len() >= 2 && is_separator(path[0]) && is_separator(path[1])
}

/// Whether a path starts like one that a system takes word for word. Where it does so, it resolves
/// the steps upwards in what is put below the path.
pub open spec fn is_verbatim(path: Seq<char>) -> bool {
    is_doubled(path) && path.len() >= 3 && path[2] == '?'
}

/// Whether every system puts a separator behind a path before another is put below it: it ends
/// neither with one nor with the name of a drive.
pub open spec fn is_base(base: Seq<char>) -> bool {
    base.len() > 0 && !is_separator(base.last()) && base.last() != ':'
}

/// Whether no system puts a separator behind a path before another is put below it: it ends with a
/// slash, or is empty.
pub open spec fn is_slashed(base: Seq<char>) -> bool {
    base.len() == 0 || base.last() == '/'
}

/// Whether a path is relative on every system: it does not start with a separator, and names no
/// drive.
pub open spec fn is_relative(path: Seq<char>) -> bool {
    &&& path.len() > 0
    &&& !is_separator(path[0])
    &&& !path.contains(':')
}

/// Whether a text is a path below a base: right behind it where no system puts a separator there,
/// and with some system's separator between them where every system does. Behind a backslash or
/// a colon it depends on the system whether there is one.
pub open spec fn is_below(joined: Seq<char>, base: Seq<char>, path: Seq<char>) -> bool {
    ||| !is_base(base) && joined == base + path
    ||| !is_slashed(base) && joined == base + seq!['/'] + path
    ||| !is_slashed(base) && joined == base + seq!['\\'] + path
}

/// Whether a path names no drive and no server, on every system.
pub open spec fn is_driveless(path: Seq<char>) -> bool {
    !path.contains(':') && !is_doubled(path)
}

/// What is said of a path that is put below a base. A path that is relative on every system comes
/// behind the base, unless that is taken word for word, and one that starts at the root takes the
/// place of a base without a drive. What other paths are depends on the system.
pub open spec fn is_joined(joined: Seq<char>, base: Seq<char>, path: Seq<char>) -> bool {
    &&& is_relative(path) && !is_verbatim(base) ==> is_below(joined, base, path)
    &&& is_driveless(base) && path.len() > 0 && path[0] == '/' ==> joined == path
}

/// `std::path::Path::join`: the path below `base`, with a separator between them where one is
/// needed, or the path itself where it is absolute. Nothing is claimed of a base that starts with
/// `\\?`, where a system normalises what is joined, and of a path that is relative on some systems
/// only.
#[verifier::external_body]
pub(crate) fn join_path(base: &str, path: &str) -> (joined: String)
    ensures
        is_joined(joined@, base@, path@),
{
    std::path::Path::new(base).join(path).to_string_lossy().into_owned()
}

fn separator(c: char) -> (yes: bool)
    ensures
        yes == is_separator(c),
{
    c == '/' || c == '\\'
}

fn doubled(path: &Vec<char>) -> (yes: bool)
    ensures
        yes == is_doubled(path@),
{
    path.len() >= 2 && separator(path[0]) && separator(path[1])
}

fn has_base(base: &Vec<char>) -> (yes: bool)
    ensures
        yes == (is_base(base@) && !is_verbatim(base@)),
{
    let n: usize = base.len();
    n > 0 && !separator(base[n - 1]) && base[n - 1] != ':' && !(doubled(base) && n >= 3 && base[2]
        == '?')
}

/// Whether a path is relative on every system.
pub fn relative(path: &str) -> (yes: bool)
    ensures
        yes == is_relative(path@),
{
    let chars = chars_of(path);
    if chars.len() == 0 || separator(chars[0]) {
        return false;
    }
    let mut i: usize = 0;
    while i < chars.len()
        invariant
            i <= chars@.len(),
            chars@ == path@,
            forall|j: int| 0 <= j < i ==> #[trigger] chars@[j] != ':',
        decreases chars@.len() - i,
    {
        if chars[i] == ':' {
            assert(path@.contains(path@[i as int]));
            return false;
        }
        i += 1;
    }
    true
}

/// Whether a path starts with two separators.
pub fn starts_doubly(path: &str) -> (yes: bool)
    ensures
        yes == is_doubled(path@),
{
    doubled(&chars_of(path))
}

/// Where a path lies that is put below a base, in a text that every system reads as that place.
/// `None` where the place depends on the system.
pub open spec fn placed(base: Seq<char>, path: Seq<char>) -> Option<Seq<char>> {
    if is_relative(path) && !is_verbatim(base) && is_base(base) {
        Some(base + seq!['/'] + path)
    } else if is_relative(path) && !is_verbatim(base) && is_slashed(base) {
        Some(base + path)
    } else if is_driveless(base) && path.len() > 0 && path[0] == '/' {
        Some(path)
    } else {
        None
    }
}

/// Where a path lies that is put below a base. A relative path is put behind a slash, which every
/// system reads as a separator.
pub fn place(base: &str, path: &str) -> (place: String)
    ensures
        placed(base@, path@) matches Some(known) ==> place@ == known,
{
    if relative(path) && has_base(&chars_of(base)) {
        proof {
            reveal_strlit("/");
            assert("/"@ =~= seq!['/']);
        }
        cat3(base, "/", path)
    } else {
        join_path(base, path)
    }
}

/// Whether every system reads a path in the same way: names with single slashes between them, and
/// maybe one before the first. There is no drive, no backslash, and no part that is a single dot.
pub open spec fn is_plain(path: Seq<char>) -> bool {
    &&& path.len() > 0
    &&& path.last() != '/'
    &&& forall|i: int| 0 <= i < path.len() ==> #[trigger] path[i] != '\\' && path[i] != ':'
    &&& forall|i: int| 0 <= i < path.len() - 1 && #[trigger] path[i] == '/' ==> path[i + 1] != '/'
    &&& forall|i: int|
        0 <= i < path.len() && #[trigger] path[i] == '.' ==> (i > 0 && path[i - 1] != '/') || (i + 1
            < path.len() && path[i + 1] != '/')
}

/// Whether a path is a directory or lies in it.
pub open spec fn lies_within(path: Seq<char>, root: Seq<char>) -> bool {
    path == root || (root + seq!['/']).is_prefix_of(path)
}

/// `std::path::Path::starts_with`: whether `root` is, part by part, the beginning of a path. What
/// the parts are is claimed only of paths that every system reads in the same way; a path always
/// begins with itself.
#[verifier::external_body]
pub(crate) fn path_within(path: &str, root: &str) -> (yes: bool)
    ensures
        is_plain(path@) && is_plain(root@) ==> yes == lies_within(path@, root@),
        path@ == root@ ==> yes,
{
    std::path::Path::new(path).starts_with(root)
}

/// Whether the last part of a path has a name before its last dot, and an extension behind it.
pub open spec fn ends_in(path: Seq<char>, extension: Seq<char>) -> bool {
    let dot = path.len() - extension.len() - 1;
    &&& dot > 0
    &&& path[dot] == '.'
    &&& path[dot - 1] != '/'
    &&& path.skip(dot + 1) == extension
}

/// Whether a text can be an extension: it is not empty, and has neither a dot nor a slash.
pub open spec fn is_extension(text: Seq<char>) -> bool {
    text.len() > 0 && !text.contains('.') && !text.contains('/')
}

/// `std::path::Path::extension`, as a text: what stands behind the last dot of the last part, unless
/// that dot begins the part. It is claimed only of paths that every system reads in the same way,
/// and of an extension that is not empty.
#[verifier::external_body]
fn extension_of(path: &str) -> (found: Option<String>)
    ensures
        is_plain(path@) ==> forall|extension: Seq<char>|
            is_extension(extension) ==> (text::opt_view(found) == Some(extension))
                == #[trigger] ends_in(path@, extension),
{
    std::path::Path::new(path).extension().map(|found| found.to_string_lossy().into_owned())
}

/// Whether a path has an extension.
pub fn has_extension(path: &str, extension: &str) -> (yes: bool)
    ensures
        is_plain(path@) && is_extension(extension@) ==> yes == ends_in(path@, extension@),
{
    match extension_of(path) {
        Some(found) => str_eq(found.as_str(), extension),
        None => false,
    }
}

/// Whether a text is a path below the first of two directories below a base.
pub open spec fn is_two_below(joined: Seq<char>, base: Seq<char>, first: Seq<char>, second: Seq<char>) -> bool {
    ||| !is_base(base) && is_below(joined, base + first, second)
    ||| !is_slashed(base) && is_below(joined, base + seq!['/'] + first, second)
    ||| !is_slashed(base) && is_below(joined, base + seq!['\\'] + first, second)
}

/// A directory below a directory below a base.
pub fn join_two(base: &str, first: &str, second: &str) -> (joined: String)
    ensures
        !is_verbatim(base@) && is_relative(first@) && first@[0] != '?' && is_relative(second@)
            ==> is_two_below(joined@, base@, first@, second@),
{
    let middle = join_path(base, first);
    let joined = join_path(middle.as_str(), second);
    proof {
        if !is_verbatim(base@) && is_relative(first@) && first@[0] != '?' && is_relative(second@) {
            assert(is_below(middle@, base@, first@));
            assert forall|i: int| 0 <= i < base@.len() implies middle@[i] == base@[i] by {}
            assert(!is_verbatim(middle@));
        }
    }
    joined
}

} // verus!
