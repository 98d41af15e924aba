//! What the browser is asked for, and what it answers.
use vstd::prelude::*;
use vstd::string::*;

use crate::json::{Json, JsonNumber, JsonView, NumberView};
use crate::text;

verus! {

/// A number on the page, such as a coordinate. It is handed through and never computed with.
#[derive(Debug, PartialEq)]
pub struct Measure {
    /// How it reads in a message or a script.
    pub shown: String,
    /// How it reads in JSON.
    pub value: JsonNumber,
}

pub struct MeasureView {
    pub shown: Seq<char>,
    pub value: NumberView,
}

impl View for Measure {
    type V = MeasureView;

    open spec fn view(&self) -> MeasureView {
        MeasureView { shown: self.shown@, value: self.value@ }
    }
}

impl Measure {
    /// This number as JSON.
    pub fn json(&self) -> (json: Json)
        ensures
            json@ == JsonView::Number(self@.value),
    {
        Json::Number(
            match &self.value {
                JsonNumber::Unsigned(n) => JsonNumber::Unsigned(*n),
                JsonNumber::Negative(n) => JsonNumber::Negative(*n),
                JsonNumber::Float(text) => JsonNumber::Float(text.clone()),
            },
        )
    }
}

impl Clone for Measure {
    fn clone(&self) -> (copy: Self)
        ensures
            copy@ == self@,
    {
        Measure {
            shown: self.shown.clone(),
            value: match &self.value {
                JsonNumber::Unsigned(n) => JsonNumber::Unsigned(*n),
                JsonNumber::Negative(n) => JsonNumber::Negative(*n),
                JsonNumber::Float(text) => JsonNumber::Float(text.clone()),
            },
        }
    }
}

/// A part of the page.
#[derive(Debug, PartialEq)]
pub struct ClipRect {
    pub x: Measure,
    pub y: Measure,
    pub width: Measure,
    pub height: Measure,
}

/// A place on the page.
#[derive(Debug, PartialEq)]
pub struct Point {
    pub x: Measure,
    pub y: Measure,
}

impl Clone for Point {
    fn clone(&self) -> (copy: Self)
        ensures
            copy.x@ == self.x@ && copy.y@ == self.y@,
    {
        Point { x: self.x.clone(), y: self.y.clone() }
    }
}

/// One command of the model or the console.
#[derive(Debug, PartialEq)]
#[allow(inconsistent_fields)]
pub enum BrowserCommand {
    Navigate { url: String, tab_id: Option<String> },
    Back { tab_id: Option<String> },
    Forward { tab_id: Option<String> },
    Reload { tab_id: Option<String> },
    GetState { tab_id: Option<String> },
    Snapshot { tab_id: Option<String>, max_elements: Option<u32>, include_hidden: Option<bool> },
    Screenshot { tab_id: Option<String>, full_page: Option<bool>, clip: Option<ClipRect> },
    Click {
        tab_id: Option<String>,
        reference: Option<String>,
        /// A selector or a text that stays when the page is drawn anew.
        locator: Option<String>,
        x: Option<Measure>,
        y: Option<Measure>,
        button: Option<String>,
        double_click: Option<bool>,
    },
    Fill { tab_id: Option<String>, reference: String, value: String },
    Type { tab_id: Option<String>, reference: Option<String>, text: String },
    Press { tab_id: Option<String>, key: String, reference: Option<String> },
    Scroll {
        tab_id: Option<String>,
        reference: Option<String>,
        x: Option<Measure>,
        y: Option<Measure>,
        delta_x: Option<Measure>,
        delta_y: Option<Measure>,
    },
    Hover {
        tab_id: Option<String>,
        reference: Option<String>,
        x: Option<Measure>,
        y: Option<Measure>,
    },
    Select { tab_id: Option<String>, reference: String, values: Vec<String> },
    Check { tab_id: Option<String>, reference: String, checked: Option<bool> },
    Drag {
        tab_id: Option<String>,
        from_ref: Option<String>,
        to_ref: Option<String>,
        from: Option<Point>,
        to: Option<Point>,
    },
    ElementInfo { tab_id: Option<String>, x: Measure, y: Measure },
    Evaluate { tab_id: Option<String>, expression: String },
    WaitFor {
        tab_id: Option<String>,
        selector: Option<String>,
        text: Option<String>,
        text_gone: Option<String>,
        timeout_ms: Option<u64>,
    },
    GetDialog { tab_id: Option<String> },
    HandleDialog { tab_id: Option<String>, accept: bool, prompt_text: Option<String> },
    NewTab { url: Option<String> },
    List,
    Close { tab_id: Option<String> },
    Activate { tab_id: String },
    ViewportSet { tab_id: Option<String>, width: u32, height: u32 },
    ViewportReset { tab_id: Option<String> },
    /// The requests that a tab made.
    NetworkList { tab_id: Option<String>, url_filter: Option<String>, max: Option<u32> },
    /// What a request sent, or what came back.
    NetworkGetBody { tab_id: Option<String>, request_id: String, body_kind: Option<String> },
    /// The pictures of a tab, for the console.
    StartScreencast { tab_id: Option<String> },
    StopScreencast { tab_id: Option<String> },
}

/// The tab that a command names.
pub open spec fn named_tab(command: BrowserCommand) -> Option<Seq<char>> {
    match command {
        BrowserCommand::Navigate { tab_id, .. } => text::opt_view(tab_id),
        BrowserCommand::Back { tab_id } => text::opt_view(tab_id),
        BrowserCommand::Forward { tab_id } => text::opt_view(tab_id),
        BrowserCommand::Reload { tab_id } => text::opt_view(tab_id),
        BrowserCommand::GetState { tab_id } => text::opt_view(tab_id),
        BrowserCommand::Snapshot { tab_id, .. } => text::opt_view(tab_id),
        BrowserCommand::Screenshot { tab_id, .. } => text::opt_view(tab_id),
        BrowserCommand::Click { tab_id, .. } => text::opt_view(tab_id),
        BrowserCommand::Fill { tab_id, .. } => text::opt_view(tab_id),
        BrowserCommand::Type { tab_id, .. } => text::opt_view(tab_id),
        BrowserCommand::Press { tab_id, .. } => text::opt_view(tab_id),
        BrowserCommand::Scroll { tab_id, .. } => text::opt_view(tab_id),
        BrowserCommand::Hover { tab_id, .. } => text::opt_view(tab_id),
        BrowserCommand::Select { tab_id, .. } => text::opt_view(tab_id),
        BrowserCommand::Check { tab_id, .. } => text::opt_view(tab_id),
        BrowserCommand::Drag { tab_id, .. } => text::opt_view(tab_id),
        BrowserCommand::ElementInfo { tab_id, .. } => text::opt_view(tab_id),
        BrowserCommand::Evaluate { tab_id, .. } => text::opt_view(tab_id),
        BrowserCommand::WaitFor { tab_id, .. } => text::opt_view(tab_id),
        BrowserCommand::GetDialog { tab_id } => text::opt_view(tab_id),
        BrowserCommand::HandleDialog { tab_id, .. } => text::opt_view(tab_id),
        BrowserCommand::Close { tab_id } => text::opt_view(tab_id),
        BrowserCommand::ViewportSet { tab_id, .. } => text::opt_view(tab_id),
        BrowserCommand::ViewportReset { tab_id } => text::opt_view(tab_id),
        BrowserCommand::NetworkList { tab_id, .. } => text::opt_view(tab_id),
        BrowserCommand::NetworkGetBody { tab_id, .. } => text::opt_view(tab_id),
        BrowserCommand::StartScreencast { tab_id } => text::opt_view(tab_id),
        BrowserCommand::StopScreencast { tab_id } => text::opt_view(tab_id),
        BrowserCommand::NewTab { .. } => None,
        BrowserCommand::List => None,
        BrowserCommand::Activate { tab_id } => Some(tab_id@),
    }
}

fn borrowed(text: &Option<String>) -> (part: Option<&str>)
    ensures
        text::opt_str_view(part) == text::opt_view(*text),
{
    match text {
        Some(text) => Some(text.as_str()),
        None => None,
    }
}

impl BrowserCommand {
    /// The tab that this command names; `None` where it has no tab to name or names none.
    pub fn tab_id_probe(&self) -> (tab: Option<&str>)
        ensures
            text::opt_str_view(tab) == named_tab(*self),
    {
        match self {
            BrowserCommand::Navigate { tab_id, .. } => borrowed(tab_id),
            BrowserCommand::Back { tab_id } => borrowed(tab_id),
            BrowserCommand::Forward { tab_id } => borrowed(tab_id),
            BrowserCommand::Reload { tab_id } => borrowed(tab_id),
            BrowserCommand::GetState { tab_id } => borrowed(tab_id),
            BrowserCommand::Snapshot { tab_id, .. } => borrowed(tab_id),
            BrowserCommand::Screenshot { tab_id, .. } => borrowed(tab_id),
            BrowserCommand::Click { tab_id, .. } => borrowed(tab_id),
            BrowserCommand::Fill { tab_id, .. } => borrowed(tab_id),
            BrowserCommand::Type { tab_id, .. } => borrowed(tab_id),
            BrowserCommand::Press { tab_id, .. } => borrowed(tab_id),
            BrowserCommand::Scroll { tab_id, .. } => borrowed(tab_id),
            BrowserCommand::Hover { tab_id, .. } => borrowed(tab_id),
            BrowserCommand::Select { tab_id, .. } => borrowed(tab_id),
            BrowserCommand::Check { tab_id, .. } => borrowed(tab_id),
            BrowserCommand::Drag { tab_id, .. } => borrowed(tab_id),
            BrowserCommand::ElementInfo { tab_id, .. } => borrowed(tab_id),
            BrowserCommand::Evaluate { tab_id, .. } => borrowed(tab_id),
            BrowserCommand::WaitFor { tab_id, .. } => borrowed(tab_id),
            BrowserCommand::GetDialog { tab_id } => borrowed(tab_id),
            BrowserCommand::HandleDialog { tab_id, .. } => borrowed(tab_id),
            BrowserCommand::Close { tab_id } => borrowed(tab_id),
            BrowserCommand::ViewportSet { tab_id, .. } => borrowed(tab_id),
            BrowserCommand::ViewportReset { tab_id } => borrowed(tab_id),
            BrowserCommand::NetworkList { tab_id, .. } => borrowed(tab_id),
            BrowserCommand::NetworkGetBody { tab_id, .. } => borrowed(tab_id),
            BrowserCommand::StartScreencast { tab_id } => borrowed(tab_id),
            BrowserCommand::StopScreencast { tab_id } => borrowed(tab_id),
            BrowserCommand::NewTab { .. } => None,
            BrowserCommand::List => None,
            BrowserCommand::Activate { tab_id } => Some(tab_id.as_str()),
        }
    }
}

/// Why a command failed.
#[derive(Debug, PartialEq)]
pub struct CommandError {
    pub code: String,
    pub message: String,
}

/// A picture.
#[derive(Debug, PartialEq)]
pub struct ImagePayload {
    pub base64: String,
    pub mime_type: String,
}

/// What came of a command.
#[derive(Debug, PartialEq)]
pub struct CommandOutcome {
    pub ok: bool,
    pub error: Option<CommandError>,
    pub value: Option<Json>,
    pub state: Option<Json>,
    pub image: Option<ImagePayload>,
    pub snapshot: Option<Json>,
    pub tabs: Option<Json>,
    pub dialog: Option<Json>,
    pub elapsed_ms: u64,
}

pub struct OutcomeView {
    pub ok: bool,
    /// The code and the message of a failure.
    pub error: Option<(Seq<char>, Seq<char>)>,
    pub value: Option<JsonView>,
    pub state: Option<JsonView>,
    /// A picture and its type.
    pub image: Option<(Seq<char>, Seq<char>)>,
    pub snapshot: Option<JsonView>,
    pub tabs: Option<JsonView>,
    pub dialog: Option<JsonView>,
    pub elapsed_ms: u64,
}

pub open spec fn json_view(json: Option<Json>) -> Option<JsonView> {
    match json {
        Some(json) => Some(json@),
        None => None,
    }
}

impl View for CommandOutcome {
    type V = OutcomeView;

    open spec fn view(&self) -> OutcomeView {
        OutcomeView {
            ok: self.ok,
            error: match self.error {
                Some(error) => Some((error.code@, error.message@)),
                None => None,
            },
            value: json_view(self.value),
            state: json_view(self.state),
            image: match self.image {
                Some(image) => Some((image.base64@, image.mime_type@)),
                None => None,
            },
            snapshot: json_view(self.snapshot),
            tabs: json_view(self.tabs),
            dialog: json_view(self.dialog),
            elapsed_ms: self.elapsed_ms,
        }
    }
}

/// A success with nothing to show.
pub open spec fn success(elapsed_ms: u64) -> OutcomeView {
    OutcomeView {
        ok: true,
        error: None,
        value: None,
        state: None,
        image: None,
        snapshot: None,
        tabs: None,
        dialog: None,
        elapsed_ms,
    }
}

/// A success with a value.
pub open spec fn value_outcome(value: JsonView, elapsed_ms: u64) -> OutcomeView {
    OutcomeView { value: Some(value), ..success(elapsed_ms) }
}

/// A failure.
pub open spec fn failure(code: Seq<char>, message: Seq<char>, elapsed_ms: u64) -> OutcomeView {
    OutcomeView { ok: false, error: Some((code, message)), ..success(elapsed_ms) }
}

/// A success with a picture.
pub open spec fn image_outcome(base64: Seq<char>, mime_type: Seq<char>, elapsed_ms: u64) -> OutcomeView {
    OutcomeView { image: Some((base64, mime_type)), ..success(elapsed_ms) }
}

/// A success with what is known of a dialog.
pub open spec fn dialog_outcome(dialog: JsonView, elapsed_ms: u64) -> OutcomeView {
    OutcomeView { dialog: Some(dialog), ..success(elapsed_ms) }
}

impl CommandOutcome {
    fn empty(elapsed_ms: u64) -> (outcome: Self)
        ensures
            outcome@ == success(elapsed_ms),
    {
        CommandOutcome {
            ok: true,
            error: None,
            value: None,
            state: None,
            image: None,
            snapshot: None,
            tabs: None,
            dialog: None,
            elapsed_ms,
        }
    }

    /// A success with a value.
    pub fn ok_value(value: Json, elapsed_ms: u64) -> (outcome: Self)
        ensures
            outcome@ == value_outcome(value@, elapsed_ms),
    {
        let mut outcome = CommandOutcome::empty(elapsed_ms);
        outcome.value = Some(value);
        outcome
    }

    /// A success with a picture.
    pub fn ok_image(base64: String, mime_type: &str, elapsed_ms: u64) -> (outcome: Self)
        ensures
            outcome@ == image_outcome(base64@, mime_type@, elapsed_ms),
    {
        let mut outcome = CommandOutcome::empty(elapsed_ms);
        outcome.image = Some(ImagePayload { base64, mime_type: mime_type.to_owned() });
        outcome
    }

    /// A success with what is known of a dialog.
    pub fn ok_dialog(dialog: Json, elapsed_ms: u64) -> (outcome: Self)
        ensures
            outcome@ == dialog_outcome(dialog@, elapsed_ms),
    {
        let mut outcome = CommandOutcome::empty(elapsed_ms);
        outcome.dialog = Some(dialog);
        outcome
    }

    /// A failure.
    pub fn err(code: &str, message: &str, elapsed_ms: u64) -> (outcome: Self)
        ensures
            outcome@ == failure(code@, message@, elapsed_ms),
    {
        let mut outcome = CommandOutcome::empty(elapsed_ms);
        outcome.ok = false;
        outcome.error = Some(
            CommandError { code: code.to_owned(), message: message.to_owned() },
        );
        outcome
    }
}

} // verus!
