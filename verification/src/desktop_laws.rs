//! What holds of the arguments of the desktop shell.
use vstd::prelude::*;

use crate::desktop;
use crate::desktop::ArgsView;

verus! {

/// An argument that is neither the width nor the height goes to the service, in its place.
pub proof fn other_arguments_go_to_the_service(
    args: Seq<Seq<char>>,
    numbers: Seq<bool>,
    at: int,
    so_far: ArgsView,
)
    requires
        0 <= at < args.len(),
        args[at] != "--width"@,
        args[at] != "--height"@,
    ensures
        desktop::args_from(args, numbers, at, so_far) == desktop::args_from(
            args,
            numbers,
            at + 1,
            ArgsView {
                width: so_far.width,
                height: so_far.height,
                service: so_far.service + seq![args[at]],
            },
        ),
{
    assert(so_far.service.push(args[at]) =~= so_far.service + seq![args[at]]);
}

/// The width and the height are read from the argument behind their name, which has to be a number.
pub proof fn size_is_read_behind_its_name(
    args: Seq<Seq<char>>,
    numbers: Seq<bool>,
    at: int,
    so_far: ArgsView,
)
    requires
        0 <= at < args.len(),
    ensures
        args[at] == "--width"@ && at + 1 < args.len() && numbers[at + 1] ==> desktop::args_from(
            args,
            numbers,
            at,
            so_far,
        ) == desktop::args_from(
            args,
            numbers,
            at + 2,
            ArgsView {
                width: Some(args[at + 1]),
                height: so_far.height,
                service: so_far.service,
            },
        ),
        args[at] == "--height"@ && at + 1 < args.len() && numbers[at + 1] ==> desktop::args_from(
            args,
            numbers,
            at,
            so_far,
        ) == desktop::args_from(
            args,
            numbers,
            at + 2,
            ArgsView {
                width: so_far.width,
                height: Some(args[at + 1]),
                service: so_far.service,
            },
        ),
        (args[at] == "--width"@ || args[at] == "--height"@) && (at + 1 == args.len() || !numbers[at
            + 1]) ==> desktop::args_from(args, numbers, at, so_far) is Err,
{
    reveal_strlit("--width");
    reveal_strlit("--height");
    assert("--width"@.len() == 7 && "--height"@.len() == 8);
}

/// Arguments that name no size all go to the service, in their order, and nothing is refused.
pub proof fn plain_arguments_are_handed_on(args: Seq<Seq<char>>, numbers: Seq<bool>, at: int, so_far: ArgsView)
    requires
        0 <= at <= args.len(),
        forall|i: int|
            at <= i < args.len() ==> #[trigger] args[i] != "--width"@ && args[i] != "--height"@,
    ensures
        desktop::args_from(args, numbers, at, so_far) matches Ok(read) && read.service
            == so_far.service + args.skip(at) && read.width == so_far.width && read.height
            == so_far.height,
    decreases args.len() - at,
{
    if at < args.len() {
        let next = ArgsView { service: so_far.service.push(args[at]), ..so_far };
        plain_arguments_are_handed_on(args, numbers, at + 1, next);
        assert(next.service + args.skip(at + 1) =~= so_far.service + args.skip(at));
    } else {
        assert(so_far.service + args.skip(at) =~= so_far.service);
    }
}

} // verus!
