//! How a command is carried out on a page by calls and scripts, one step at a time.
//!
//! `steps::begin` says what a command asks first, and `replies::advance` what it asks after each
//! reply, until it ends. Whoever runs the commands makes the calls, runs the scripts and waits.
use vstd::prelude::*;
use vstd::string::*;
use vstd::utf8::*;

use crate::browser::calls;
use crate::browser::calls::{call, Call, CallView, Spot, SpotView};
use crate::browser::command;
use crate::browser::command::{BrowserCommand, CommandOutcome, OutcomeView};
use crate::browser::scripts::STATE_SCRIPT;
use crate::json::{Json, JsonView};
use crate::text;
use crate::text::{
    ascii_alnum, ascii_alpha, ascii_digit, cat3, chars_of, decimal_text, find_char, slice_text,
    str_eq,
};

verus! {

/// How long a command may take, where it says nothing else.
pub const DEFAULT_COMMAND_TIMEOUT_MS: u64 = 30_000;

/// How long a page that was gone to is waited for.
pub const NAVIGATE_SETTLE_MS: u64 = 10_000;

/// How often something that is waited for is looked at.
pub const WAIT_POLL_MS: u64 = 120;

/// How long something is waited for, where nothing is said.
pub const DEFAULT_WAIT_MS: u64 = 10_000;

/// How long something is waited for at most.
pub const MAX_WAIT_MS: u64 = 60_000;

/// How long a page gets to draw itself anew after something was done to it.
pub const ACTION_SETTLE_MS: u64 = 300;

/// How long an element that has gone is looked for.
pub const REFRESH_WINDOW_MS: u64 = 1_200;

/// How often a page that was gone to is looked at.
pub const SETTLE_POLL_MS: u64 = 100;

/// How many elements that cannot be acted on a snapshot holds.
pub const SNAPSHOT_DOM_MAX: u32 = 300;

/// How many bytes of a body are shown.
pub const BODY_BYTES: usize = 60_000;

/// What is asked.
pub enum Ask {
    Call(Call),
    /// Run a script in the page, and read what it returns as JSON.
    Eval { script: String },
    /// The places on the way from one place to another, in ten equal steps.
    Between { from: Spot, to: Spot },
    Pause { ms: u64 },
    /// Open a tab.
    Open { url: Option<String> },
    /// Close the tab.
    Shut,
}

pub enum AskView {
    Call(CallView),
    Eval { script: Seq<char> },
    Between { from: SpotView, to: SpotView },
    Pause { ms: u64 },
    Open { url: Option<Seq<char>> },
    Shut,
}

impl View for Ask {
    type V = AskView;

    open spec fn view(&self) -> AskView {
        match self {
            Ask::Call(call) => AskView::Call(call@),
            Ask::Eval { script } => AskView::Eval { script: script@ },
            Ask::Between { from, to } => AskView::Between { from: from@, to: to@ },
            Ask::Pause { ms } => AskView::Pause { ms: *ms },
            Ask::Open { url } => AskView::Open { url: text::opt_view(*url) },
            Ask::Shut => AskView::Shut,
        }
    }
}

/// What is replied.
pub enum Reply {
    /// What a call or a script came to; `null` after a pause, or when a tab was closed.
    Value(Json),
    /// Why a call or a script failed.
    Failed(CommandOutcome),
    Spots(Vec<Spot>),
    /// The id of the tab that was opened.
    Opened(String),
    /// Why no tab was opened.
    NotOpened(String),
}

/// What a call or a script came to.
pub open spec fn value_of(reply: Reply) -> Result<JsonView, OutcomeView> {
    match reply {
        Reply::Value(value) => Ok(value@),
        Reply::Failed(outcome) => Err(outcome@),
        _ => Ok(JsonView::Null),
    }
}

pub(crate) fn read_value(reply: Reply) -> (value: Result<Json, CommandOutcome>)
    ensures
        match value {
            Ok(value) => value_of(reply) == Ok::<JsonView, OutcomeView>(value@),
            Err(outcome) => value_of(reply) == Err::<JsonView, OutcomeView>(outcome@),
        },
{
    match reply {
        Reply::Value(value) => Ok(value),
        Reply::Failed(outcome) => Err(outcome),
        _ => Ok(Json::Null),
    }
}

/// The element that is being looked for.
pub struct Aim {
    pub reference: String,
    /// Where a drag starts, when this is where it ends.
    pub from: Option<Spot>,
}

pub struct AimView {
    pub reference: Seq<char>,
    pub from: Option<SpotView>,
}

pub open spec fn spot_view(spot: Option<Spot>) -> Option<SpotView> {
    match spot {
        Some(spot) => Some(spot@),
        None => None,
    }
}

impl View for Aim {
    type V = AimView;

    open spec fn view(&self) -> AimView {
        AimView { reference: self.reference@, from: spot_view(self.from) }
    }
}

/// What a wait looks at.
#[derive(Debug, Clone, Copy, PartialEq, Eq, Structural)]
pub enum Part {
    Selector,
    Shown,
    Gone,
    Nothing,
}

/// How far a command has come.
#[allow(inconsistent_fields)]
pub enum Stage {
    /// The locator of a click is looked for.
    Locating,
    /// A reference that no snapshot gave is looked for as a locator.
    Naming { aim: Aim },
    /// The middle of an element that a locator found is looked for.
    Centering { aim: Aim },
    /// The middle of an element is looked for.
    Pointing { aim: Aim },
    /// The snapshot is taken anew, for the element has gone.
    Refreshing { aim: Aim, deadline: u64 },
    /// The middle of the element is looked for again.
    Repointing { aim: Aim, deadline: u64 },
    Resting { aim: Aim, deadline: u64 },
    /// The way of a drag is looked for.
    Dragging { from: Spot, to: Spot },
    /// Some calls are left, and then a text is pasted if it is asked for.
    Acting { left: Vec<Call>, paste: bool },
    Pasting,
    /// The page is asked where it is.
    Reading,
    Navigating,
    Settling { deadline: u64 },
    SettleRest { deadline: u64 },
    Back,
    /// The page goes somewhere, or stays if it cannot.
    Moving,
    Snapshotting,
    Shooting,
    Probing,
    Evaluating,
    Choosing,
    Checking,
    Waiting { part: Part, deadline: u64 },
    WaitRest { deadline: u64 },
    Dialog,
    Opening,
    Shutting,
    Fronting,
    Sizing,
    Unsizing,
    /// A body is read; the type of what came back is known.
    Body { mime: String },
    Streaming,
}

#[allow(inconsistent_fields)]
pub enum StageView {
    Locating,
    Naming { aim: AimView },
    Centering { aim: AimView },
    Pointing { aim: AimView },
    Refreshing { aim: AimView, deadline: u64 },
    Repointing { aim: AimView, deadline: u64 },
    Resting { aim: AimView, deadline: u64 },
    Dragging { from: SpotView, to: SpotView },
    Acting { left: Seq<CallView>, paste: bool },
    Pasting,
    Reading,
    Navigating,
    Settling { deadline: u64 },
    SettleRest { deadline: u64 },
    Back,
    Moving,
    Snapshotting,
    Shooting,
    Probing,
    Evaluating,
    Choosing,
    Checking,
    Waiting { part: Part, deadline: u64 },
    WaitRest { deadline: u64 },
    Dialog,
    Opening,
    Shutting,
    Fronting,
    Sizing,
    Unsizing,
    Body { mime: Seq<char> },
    Streaming,
}

impl View for Stage {
    type V = StageView;

    open spec fn view(&self) -> StageView {
        match self {
            Stage::Locating => StageView::Locating,
            Stage::Naming { aim } => StageView::Naming { aim: aim@ },
            Stage::Centering { aim } => StageView::Centering { aim: aim@ },
            Stage::Pointing { aim } => StageView::Pointing { aim: aim@ },
            Stage::Refreshing { aim, deadline } => StageView::Refreshing {
                aim: aim@,
                deadline: *deadline,
            },
            Stage::Repointing { aim, deadline } => StageView::Repointing {
                aim: aim@,
                deadline: *deadline,
            },
            Stage::Resting { aim, deadline } => StageView::Resting {
                aim: aim@,
                deadline: *deadline,
            },
            Stage::Dragging { from, to } => StageView::Dragging { from: from@, to: to@ },
            Stage::Acting { left, paste } => StageView::Acting {
                left: calls::call_views(left@),
                paste: *paste,
            },
            Stage::Pasting => StageView::Pasting,
            Stage::Reading => StageView::Reading,
            Stage::Navigating => StageView::Navigating,
            Stage::Settling { deadline } => StageView::Settling { deadline: *deadline },
            Stage::SettleRest { deadline } => StageView::SettleRest { deadline: *deadline },
            Stage::Back => StageView::Back,
            Stage::Moving => StageView::Moving,
            Stage::Snapshotting => StageView::Snapshotting,
            Stage::Shooting => StageView::Shooting,
            Stage::Probing => StageView::Probing,
            Stage::Evaluating => StageView::Evaluating,
            Stage::Choosing => StageView::Choosing,
            Stage::Checking => StageView::Checking,
            Stage::Waiting { part, deadline } => StageView::Waiting {
                part: *part,
                deadline: *deadline,
            },
            Stage::WaitRest { deadline } => StageView::WaitRest { deadline: *deadline },
            Stage::Dialog => StageView::Dialog,
            Stage::Opening => StageView::Opening,
            Stage::Shutting => StageView::Shutting,
            Stage::Fronting => StageView::Fronting,
            Stage::Sizing => StageView::Sizing,
            Stage::Unsizing => StageView::Unsizing,
            Stage::Body { mime } => StageView::Body { mime: mime@ },
            Stage::Streaming => StageView::Streaming,
        }
    }
}

/// What else comes of a command.
pub enum Effect {
    Nothing,
    /// The tab is at an address, under a title.
    Landed { url: String, title: String },
    /// A tab comes to the front, and the watchers are told.
    Front { tab: String },
    /// The dialog of the tab is forgotten; the watchers may be told.
    DialogGone { told: bool },
    /// The page has a size of its own, or has it no more.
    Sized { size: Option<(u32, u32)> },
}

pub enum EffectView {
    Nothing,
    Landed { url: Seq<char>, title: Seq<char> },
    Front { tab: Seq<char> },
    DialogGone { told: bool },
    Sized { size: Option<(u32, u32)> },
}

impl View for Effect {
    type V = EffectView;

    open spec fn view(&self) -> EffectView {
        match self {
            Effect::Nothing => EffectView::Nothing,
            Effect::Landed { url, title } => EffectView::Landed { url: url@, title: title@ },
            Effect::Front { tab } => EffectView::Front { tab: tab@ },
            Effect::DialogGone { told } => EffectView::DialogGone { told: *told },
            Effect::Sized { size } => EffectView::Sized { size: *size },
        }
    }
}

/// What comes next of a command.
pub enum Turn {
    Ask { ask: Ask, stage: Stage },
    End { outcome: CommandOutcome, effect: Effect },
}

pub enum TurnView {
    Ask { ask: AskView, stage: StageView },
    End { outcome: OutcomeView, effect: EffectView },
}

impl View for Turn {
    type V = TurnView;

    open spec fn view(&self) -> TurnView {
        match self {
            Turn::Ask { ask, stage } => TurnView::Ask { ask: ask@, stage: stage@ },
            Turn::End { outcome, effect } => TurnView::End {
                outcome: outcome@,
                effect: effect@,
            },
        }
    }
}

/// A command that ends with nothing more to do.
pub open spec fn ends(outcome: OutcomeView) -> TurnView {
    TurnView::End { outcome, effect: EffectView::Nothing }
}

pub(crate) fn end(outcome: CommandOutcome) -> (turn: Turn)
    ensures
        turn@ == ends(outcome@),
{
    Turn::End { outcome, effect: Effect::Nothing }
}

/// A command that runs a script.
pub open spec fn runs(script: Seq<char>, stage: StageView) -> TurnView {
    TurnView::Ask { ask: AskView::Eval { script }, stage }
}

pub(crate) fn run(script: String, stage: Stage) -> (turn: Turn)
    ensures
        turn@ == runs(script@, stage@),
{
    Turn::Ask { ask: Ask::Eval { script }, stage }
}

/// A command that makes a call.
pub open spec fn makes(method: Seq<char>, params: JsonView, stage: StageView) -> TurnView {
    TurnView::Ask { ask: AskView::Call(CallView { method, params }), stage }
}

pub(crate) fn make(method: &str, params: Json, stage: Stage) -> (turn: Turn)
    ensures
        turn@ == makes(method@, params@, stage@),
{
    Turn::Ask { ask: Ask::Call(call(method, params)), stage }
}

/// A command that waits.
pub open spec fn rests(ms: u64, stage: StageView) -> TurnView {
    TurnView::Ask { ask: AskView::Pause { ms }, stage }
}

/// A moment some time from now.
pub open spec fn after(now_ms: u64, ms: u64) -> u64 {
    if now_ms > u64::MAX - ms {
        u64::MAX
    } else {
        (now_ms + ms) as u64
    }
}

pub(crate) fn later(now_ms: u64, ms: u64) -> (moment: u64)
    ensures
        moment == after(now_ms, ms),
{
    if now_ms > u64::MAX - ms {
        u64::MAX
    } else {
        now_ms + ms
    }
}

/// The command ends by asking the page where it is.
pub open spec fn reads() -> TurnView {
    runs(STATE_SCRIPT@, StageView::Reading)
}

pub(crate) fn read() -> (turn: Turn)
    ensures
        turn@ == reads(),
{
    run(STATE_SCRIPT.to_owned(), Stage::Reading)
}

/// Whether a reference is one that a snapshot, a place or a locator gave.
pub open spec fn is_ref(reference: Seq<char>) -> bool {
    reference.len() >= 2 && (reference[0] == 'e' || reference[0] == 'p' || reference[0] == 'l')
        && text::is_digit(reference[1])
}

/// Whether a reference is one that a snapshot, a place or a locator gave.
pub fn starts_with_ref_prefix(reference: &str) -> (yes: bool)
    ensures
        yes == is_ref(reference@),
{
    let chars = chars_of(reference);
    chars.len() >= 2 && (chars[0] == 'e' || chars[0] == 'p' || chars[0] == 'l') && ascii_digit(
        chars[1],
    )
}

/// Whether a character can stand in a scheme.
pub open spec fn in_scheme(c: char) -> bool {
    text::is_alnum(c) || c == '+' || c == '-' || c == '.'
}

/// The scheme of an address: what stands before its first colon, if it reads like one.
pub open spec fn scheme_of(url: Seq<char>) -> Option<Seq<char>> {
    match text::char_from(url, ':', 0) {
        Some(at) => {
            let scheme = url.take(at);
            if scheme.len() > 0 && text::is_alpha(scheme[0]) && (forall|i: int|
                0 <= i < scheme.len() ==> in_scheme(#[trigger] scheme[i])) {
                Some(scheme)
            } else {
                None
            }
        },
        None => None,
    }
}

/// The scheme of an address.
pub fn parse_scheme(url: &str) -> (scheme: Option<String>)
    ensures
        text::opt_view(scheme) == scheme_of(url@),
{
    let chars = chars_of(url);
    let at = match find_char(&chars, ':', 0) {
        Some(at) => at,
        None => {
            return None;
        },
    };
    proof {
        text::lemma_char_from(url@, ':', 0);
    }
    let ghost scheme = url@.take(at as int);
    if at == 0 || !ascii_alpha(chars[0]) {
        return None;
    }
    let mut i: usize = 0;
    while i < at
        invariant
            i <= at <= chars@.len(),
            chars@ == url@,
            scheme == url@.take(at as int),
            text::char_from(url@, ':', 0) == Some(at as int),
            forall|j: int| 0 <= j < i ==> in_scheme(#[trigger] scheme[j]),
        decreases at - i,
    {
        let c = chars[i];
        if !(ascii_alnum(c) || c == '+' || c == '-' || c == '.') {
            assert(!in_scheme(scheme[i as int]));
            return None;
        }
        i += 1;
    }
    let text = slice_text(&chars, 0, at);
    assert(text@ =~= scheme);
    Some(text)
}

/// Whether an address may be gone to.
pub open spec fn is_allowed(url: Seq<char>) -> bool {
    url == "about:blank"@ || scheme_of(url) == Some("http"@) || scheme_of(url) == Some("https"@)
}

/// Whether an address may be gone to: a page of the web, or the blank page.
pub fn is_allowed_url(url: &str) -> (yes: bool)
    ensures
        yes == is_allowed(url@),
{
    if str_eq(url, "about:blank") {
        return true;
    }
    match parse_scheme(url) {
        Some(scheme) => str_eq(scheme.as_str(), "http") || str_eq(scheme.as_str(), "https"),
        None => false,
    }
}

/// How long a command may take.
pub open spec fn budget(asked: BrowserCommand) -> u64 {
    match asked {
        BrowserCommand::WaitFor { timeout_ms, .. } => wait_budget(timeout_ms),
        _ => DEFAULT_COMMAND_TIMEOUT_MS,
    }
}

/// How long something is waited for.
pub open spec fn wait_budget(timeout_ms: Option<u64>) -> u64 {
    let wished = match timeout_ms {
        Some(wished) => wished,
        None => DEFAULT_WAIT_MS,
    };
    if wished < MAX_WAIT_MS {
        wished
    } else {
        MAX_WAIT_MS
    }
}

pub(crate) fn wait_time(timeout_ms: Option<u64>) -> (ms: u64)
    ensures
        ms == wait_budget(timeout_ms),
{
    let wished = match timeout_ms {
        Some(wished) => wished,
        None => DEFAULT_WAIT_MS,
    };
    if wished < MAX_WAIT_MS {
        wished
    } else {
        MAX_WAIT_MS
    }
}

/// How long a command may take.
pub fn budget_ms(asked: &BrowserCommand) -> (ms: u64)
    ensures
        ms == budget(*asked),
{
    match asked {
        BrowserCommand::WaitFor { timeout_ms, .. } => wait_time(*timeout_ms),
        _ => DEFAULT_COMMAND_TIMEOUT_MS,
    }
}

/// The outcome of a command that took too long.
pub fn timed_out(asked: &BrowserCommand, elapsed_ms: u64) -> (outcome: CommandOutcome)
    ensures
        outcome@ == command::failure(
            "timeout"@,
            "浏览器命令超时("@ + text::decimal(budget(*asked) as nat) + "ms)"@,
            elapsed_ms,
        ),
{
    let budget = decimal_text(budget_ms(asked));
    let message = cat3("浏览器命令超时(", budget.as_str(), "ms)");
    CommandOutcome::err("timeout", message.as_str(), elapsed_ms)
}

/// Whether a page gets time to draw itself anew after a command.
pub fn settles_after(asked: &BrowserCommand, ok: bool) -> (yes: bool)
    ensures
        yes == (ok && (asked is Click || asked is Fill || asked is Type || asked is Press
            || asked is Check || asked is Select || asked is Drag)),
{
    let acts = match asked {
        BrowserCommand::Click { .. } => true,
        BrowserCommand::Fill { .. } => true,
        BrowserCommand::Type { .. } => true,
        BrowserCommand::Press { .. } => true,
        BrowserCommand::Check { .. } => true,
        BrowserCommand::Select { .. } => true,
        BrowserCommand::Drag { .. } => true,
        _ => false,
    };
    ok && acts
}

} // verus!
