//! What holds of paths and of where they lie.
use vstd::prelude::*;

use crate::agent::exec;
use crate::paths;

verus! {

/// A relative path lies below its base, with one slash between them; one that starts at the root
/// lies where it says, whatever the base.
pub proof fn path_lies_below_its_base(base: Seq<char>, path: Seq<char>)
    requires
        paths::is_plain(base),
        path.len() > 0,
        !path.contains(':'),
        path[0] != '\\',
    ensures
        path[0] != '/' ==> paths::placed(base, path) == Some(base + seq!['/'] + path),
        path[0] != '/' ==> paths::placed(base.push('/'), path) == Some(base + seq!['/'] + path),
        path[0] == '/' ==> paths::placed(base, path) == Some(path),
{
    assert(!base.contains(':')) by {
        if base.contains(':') {
            let i = choose|i: int| 0 <= i < base.len() && base[i] == ':';
            assert(base[i] != ':');
        }
    }
    assert(base[0] != '\\');
    if base.len() >= 2 {
        assert(base[1] != '\\');
        if base[0] == '/' {
            assert(base[1] != '/');
        }
    }
    assert(base[base.len() - 1] != '\\' && base[base.len() - 1] != ':');
    let slashed = base.push('/');
    assert(slashed[0] == base[0]);
    assert(slashed + path =~= base + seq!['/'] + path);
    if slashed.len() >= 3 {
        assert(slashed[1] == base[1]);
    }
}

/// A directory and all that is below it lie within it; a directory whose name only begins in the
/// same way does not.
pub proof fn what_is_below_lies_within(root: Seq<char>, rest: Seq<char>, c: char)
    ensures
        paths::lies_within(root, root),
        paths::lies_within(root + seq!['/'] + rest, root),
        c != '/' ==> !paths::lies_within(root + seq![c] + rest, root),
        root.len() > 0 ==> !paths::lies_within(root.drop_last(), root),
{
    let below = root + seq!['/'] + rest;
    let n = root.len() as int;
    assert(root + seq!['/'] =~= below.subrange(0, n + 1));
    let beside = root + seq![c] + rest;
    if c != '/' {
        assert(beside[n] == c);
        if (root + seq!['/']).is_prefix_of(beside) {
            assert((root + seq!['/'])[n] == beside.subrange(0, n + 1)[n]);
        }
        assert(beside.len() != root.len());
    }
    if root.len() > 0 {
        assert(root.drop_last().len() != root.len());
    }
}

/// A file has the extension behind its last dot, if there is a name before it.
pub proof fn extension_stands_behind_a_name(place: Seq<char>, name: Seq<char>, extension: Seq<char>)
    requires
        name.len() > 0,
        name.last() != '/',
    ensures
        paths::ends_in(place + name + seq!['.'] + extension, extension),
        !paths::ends_in(seq!['.'] + extension, extension),
        !paths::ends_in(place + seq!['/', '.'] + extension, extension),
{
    let file = place + name + seq!['.'] + extension;
    let dot = file.len() - extension.len() - 1;
    assert(file[dot] == '.');
    assert(file[dot - 1] == name.last());
    assert(file.skip(dot + 1) =~= extension);
    let hidden = place + seq!['/', '.'] + extension;
    assert(hidden[hidden.len() - extension.len() - 2] == '/');
}

/// What a call names by a relative path lies in the workspace, and so does what lies within it by
/// its full path; what lies elsewhere does not. The memory has its own root.
pub proof fn workspace_holds_what_lies_within(
    cwd: Seq<char>,
    named: Seq<char>,
    path: Seq<char>,
    root: Seq<char>,
)
    requires
        named.len() > 0,
        named[0] != '\\',
        !named.contains(':'),
    ensures
        named[0] != '/' ==> exec::facts_of(cwd, named, path, None).in_workspace,
        named[0] == '/' ==> (exec::facts_of(cwd, named, path, None).in_workspace
            <==> paths::lies_within(path, cwd)),
        !exec::facts_of(cwd, named, path, None).in_memory,
        exec::facts_of(cwd, named, path, Some(root)).in_memory <==> paths::lies_within(path, root),
        exec::facts_of(cwd, named, path, Some(root)).is_markdown <==> paths::ends_in(path, "md"@),
{
}

} // verus!
