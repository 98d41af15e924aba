//! The desktop shell around a local service: its arguments, the page it shows, and what keeps the
//! process alive until the service has cleaned up.
use vstd::prelude::*;
use vstd::string::*;

use crate::json;
use crate::json::quote;
use crate::text;
use crate::text::{cat2, cat3, decimal_text, str_eq};

verus! {

/// What the shell was started with.
#[derive(Debug)]
pub struct DesktopArgs {
    /// The width of the window, a number.
    pub width: Option<String>,
    /// The height of the window, a number.
    pub height: Option<String>,
    /// What the service is started with.
    pub service: Vec<String>,
}

/// What a shell's arguments say.
pub struct ArgsView {
    pub width: Option<Seq<char>>,
    pub height: Option<Seq<char>>,
    pub service: Seq<Seq<char>>,
}

impl View for DesktopArgs {
    type V = ArgsView;

    open spec fn view(&self) -> ArgsView {
        ArgsView {
            width: text::opt_view(self.width),
            height: text::opt_view(self.height),
            service: text::views(self.service@),
        }
    }
}

/// What stands in the arguments from a position on, after what was read so far. A later width or
/// height takes the place of an earlier one; what is neither goes to the service. The first fault
/// ends the reading.
pub open spec fn args_from(
    args: Seq<Seq<char>>,
    numbers: Seq<bool>,
    at: int,
    so_far: ArgsView,
) -> Result<ArgsView, Seq<char>>
    decreases args.len() - at,
{
    if at >= args.len() {
        Ok(so_far)
    } else if args[at] == "--width"@ {
        if at + 1 >= args.len() {
            Err("missing value for --width"@)
        } else if !numbers[at + 1] {
            Err("--width must be a number"@)
        } else {
            args_from(args, numbers, at + 2, ArgsView { width: Some(args[at + 1]), ..so_far })
        }
    } else if args[at] == "--height"@ {
        if at + 1 >= args.len() {
            Err("missing value for --height"@)
        } else if !numbers[at + 1] {
            Err("--height must be a number"@)
        } else {
            args_from(args, numbers, at + 2, ArgsView { height: Some(args[at + 1]), ..so_far })
        }
    } else {
        args_from(
            args,
            numbers,
            at + 1,
            ArgsView { service: so_far.service.push(args[at]), ..so_far },
        )
    }
}

/// Reads the shell's arguments. `numbers` says of each argument whether it reads as a number.
pub fn parse_args(args: &Vec<String>, numbers: &Vec<bool>) -> (parsed: Result<DesktopArgs, String>)
    requires
        args@.len() == numbers@.len(),
    ensures
        match args_from(
            text::views(args@),
            numbers@,
            0,
            ArgsView { width: None, height: None, service: Seq::empty() },
        ) {
            Ok(view) => parsed is Ok && parsed->Ok_0@ == view,
            Err(why) => parsed is Err && parsed->Err_0@ == why,
        },
{
    let ghost words = text::views(args@);
    let ghost whole = args_from(
        words,
        numbers@,
        0,
        ArgsView { width: None, height: None, service: Seq::empty() },
    );
    let mut parsed = DesktopArgs { width: None, height: None, service: Vec::new() };
    assert(text::views(parsed.service@) =~= Seq::empty());
    let mut at: usize = 0;
    while at < args.len()
        invariant
            at <= args@.len() == numbers@.len(),
            words == text::views(args@),
            whole == args_from(
                words,
                numbers@,
                0,
                (ArgsView { width: None, height: None, service: Seq::empty() }),
            ),
            whole == args_from(words, numbers@, at as int, parsed@),
        decreases args@.len() - at,
    {
        assert(words[at as int] == args@[at as int]@);
        if str_eq(args[at].as_str(), "--width") {
            if args.len() - at < 2 {
                return Err("missing value for --width".to_owned());
            }
            if !numbers[at + 1] {
                return Err("--width must be a number".to_owned());
            }
            assert(words[at + 1] == args@[at + 1]@);
            parsed.width = Some(args[at + 1].clone());
            at += 2;
        } else if str_eq(args[at].as_str(), "--height") {
            if args.len() - at < 2 {
                return Err("missing value for --height".to_owned());
            }
            if !numbers[at + 1] {
                return Err("--height must be a number".to_owned());
            }
            assert(words[at + 1] == args@[at + 1]@);
            parsed.height = Some(args[at + 1].clone());
            at += 2;
        } else {
            let ghost before = text::views(parsed.service@);
            text::push_text(&mut parsed.service, args[at].clone());
            assert(text::views(parsed.service@) =~= before.push(words[at as int]));
            at += 1;
        }
    }
    Ok(parsed)
}

/// The address of the service on this machine.
pub fn loopback(port: u16) -> (url: String)
    ensures
        url@ == "http://127.0.0.1:"@ + text::decimal(port as nat),
{
    cat2("http://127.0.0.1:", decimal_text(port as u64).as_str())
}

/// The script that shows in the window why the service did not start.
pub fn failure_script(message: &str) -> (script: String)
    ensures
        script@
            == "document.body.dataset.fatal = '1';document.getElementById('fatal-message').textContent = "@
            + json::quoted(message@) + ";"@,
{
    cat3(
        "document.body.dataset.fatal = '1';document.getElementById('fatal-message').textContent = ",
        quote(message).as_str(),
        ";",
    )
}

/// What becomes of a request to leave.
#[derive(Debug, Clone, Copy, PartialEq, Eq, Structural)]
pub enum ExitMove {
    /// The process may end.
    Leave,
    /// The process stays; where `send` is set, the service is told to stop.
    Hold { send: bool },
}

/// Keeps a request to leave apart from the leave itself: the service is told to stop once, and the
/// process ends only when it has cleaned up, or was never started.
#[derive(Debug, Clone, Copy, PartialEq, Eq, Structural)]
pub struct ExitGate {
    /// Whether the service was told to stop.
    pub signalled: bool,
    /// Whether the service has cleaned up.
    pub cleaned: bool,
}

/// What is known after the service was told to stop.
pub open spec fn signalled(exit: ExitGate) -> ExitGate {
    ExitGate { signalled: true, cleaned: exit.cleaned }
}

/// What a request to leave leads to.
pub open spec fn exit_move(exit: ExitGate) -> ExitMove {
    if exit.cleaned {
        ExitMove::Leave
    } else {
        ExitMove::Hold { send: !exit.signalled }
    }
}

impl ExitGate {
    /// What is known while a service runs.
    pub fn new() -> (exit: Self)
        ensures
            exit == (ExitGate { signalled: false, cleaned: false }),
    {
        ExitGate { signalled: false, cleaned: false }
    }

    /// Tells the service to stop; `true` where it was not told before.
    pub fn signal(&mut self) -> (send: bool)
        ensures
            send == !old(self).signalled,
            *final(self) == signalled(*old(self)),
    {
        let send = !self.signalled;
        self.signalled = true;
        send
    }

    /// Whether the service has cleaned up.
    pub fn is_cleaned(&self) -> (yes: bool)
        ensures
            yes == self.cleaned,
    {
        self.cleaned
    }

    /// Notes that the service has cleaned up.
    pub fn mark_cleaned(&mut self)
        ensures
            *final(self) == (ExitGate { signalled: old(self).signalled, cleaned: true }),
    {
        self.cleaned = true;
    }

    /// Answers a request to leave.
    pub fn exit_requested(&mut self) -> (answer: ExitMove)
        ensures
            answer == exit_move(*old(self)),
            *final(self) == (if old(self).cleaned {
                *old(self)
            } else {
                signalled(*old(self))
            }),
    {
        if self.is_cleaned() {
            return ExitMove::Leave;
        }
        let send = self.signal();
        ExitMove::Hold { send }
    }
}

/// The service is told to stop at most once: after the first time, neither another signal nor a
/// request to leave sends one again.
pub proof fn stop_is_told_once(exit: ExitGate)
    ensures
        signalled(exit).signalled,
        exit_move(signalled(exit)) != (ExitMove::Hold { send: true }),
        signalled(signalled(exit)) == signalled(exit),
{
}

} // verus!
