//! What the tools of a developer would show: the scripts of a page, its console, its breakpoints and
//! where it stands still.
use vstd::prelude::*;
use vstd::string::*;

use crate::browser::page::BrowserEvent;
use crate::browser::remote;
use crate::browser::remote::{
    get_inner, read_text, read_texts, read_texts_under, remote_object_text, stack_location,
};
use crate::json;
use crate::json::{object, Json, JsonView};
use crate::map::TextMap;
use crate::text;
use crate::text::{cat3, contains, join, push_text, str_eq};

verus! {

/// How many scripts are kept of a tab.
pub const SCRIPTS_CAP: usize = 300;

/// How many messages are kept of a console.
pub const CONSOLE_CAP: usize = 300;

/// How many frames of a stack are kept.
pub const FRAMES_CAP: usize = 24;

/// How many values of a message are shown.
pub const ARGUMENTS_CAP: usize = 8;

/// A script of a page.
#[derive(Debug)]
pub struct ScriptInfo {
    pub script_id: String,
    pub url: String,
    pub length: u64,
    pub start_line: i64,
    pub is_module: bool,
    pub hash: String,
}

pub struct ScriptView {
    pub script_id: Seq<char>,
    pub url: Seq<char>,
    pub length: u64,
    pub start_line: i64,
    pub is_module: bool,
    pub hash: Seq<char>,
}

impl View for ScriptInfo {
    type V = ScriptView;

    open spec fn view(&self) -> ScriptView {
        ScriptView {
            script_id: self.script_id@,
            url: self.url@,
            length: self.length,
            start_line: self.start_line,
            is_module: self.is_module,
            hash: self.hash@,
        }
    }
}

impl Clone for ScriptInfo {
    fn clone(&self) -> (copy: Self)
        ensures
            copy == *self,
    {
        ScriptInfo {
            script_id: self.script_id.clone(),
            url: self.url.clone(),
            length: self.length,
            start_line: self.start_line,
            is_module: self.is_module,
            hash: self.hash.clone(),
        }
    }
}

/// A line of a script that was found. Lines count from zero.
#[derive(Debug)]
pub struct SearchMatch {
    pub script_id: String,
    pub url: String,
    pub line_number: i64,
    pub line_content: String,
}

pub struct MatchView {
    pub script_id: Seq<char>,
    pub url: Seq<char>,
    pub line_number: i64,
    pub line_content: Seq<char>,
}

impl View for SearchMatch {
    type V = MatchView;

    open spec fn view(&self) -> MatchView {
        MatchView {
            script_id: self.script_id@,
            url: self.url@,
            line_number: self.line_number,
            line_content: self.line_content@,
        }
    }
}

/// A breakpoint. Lines count from zero.
#[derive(Debug)]
pub struct BreakpointInfo {
    pub breakpoint_id: String,
    pub url: String,
    pub line_number: i64,
    pub condition: Option<String>,
}

#[verifier::ext_equal]
pub struct BreakpointView {
    pub breakpoint_id: Seq<char>,
    pub url: Seq<char>,
    pub line_number: i64,
    pub condition: Option<Seq<char>>,
}

impl View for BreakpointInfo {
    type V = BreakpointView;

    open spec fn view(&self) -> BreakpointView {
        BreakpointView {
            breakpoint_id: self.breakpoint_id@,
            url: self.url@,
            line_number: self.line_number,
            condition: text::opt_view(self.condition),
        }
    }
}

impl Clone for BreakpointInfo {
    fn clone(&self) -> (copy: Self)
        ensures
            copy == *self,
    {
        BreakpointInfo {
            breakpoint_id: self.breakpoint_id.clone(),
            url: self.url.clone(),
            line_number: self.line_number,
            condition: match &self.condition {
                Some(condition) => Some(condition.clone()),
                None => None,
            },
        }
    }
}

/// A frame of a page that stands still. Lines count from zero.
#[derive(Debug)]
pub struct PausedFrame {
    pub call_frame_id: String,
    pub function_name: String,
    pub url: String,
    pub line_number: i64,
    pub column_number: i64,
    pub scope_names: Vec<String>,
}

#[verifier::ext_equal]
pub struct FrameView {
    pub call_frame_id: Seq<char>,
    pub function_name: Seq<char>,
    pub url: Seq<char>,
    pub line_number: i64,
    pub column_number: i64,
    pub scope_names: Seq<Seq<char>>,
}

impl View for PausedFrame {
    type V = FrameView;

    open spec fn view(&self) -> FrameView {
        FrameView {
            call_frame_id: self.call_frame_id@,
            function_name: self.function_name@,
            url: self.url@,
            line_number: self.line_number,
            column_number: self.column_number,
            scope_names: text::views(self.scope_names@),
        }
    }
}

/// The views of some frames.
pub open spec fn frame_views(frames: Seq<PausedFrame>) -> Seq<FrameView> {
    frames.map_values(|frame: PausedFrame| frame@)
}

/// A page that stands still.
#[derive(Debug)]
pub struct PausedInfo {
    pub tab_id: String,
    pub reason: String,
    pub frames: Vec<PausedFrame>,
    /// The breakpoints that it came to; none where it was stopped in another way.
    pub hit_breakpoints: Vec<String>,
    pub at_ms: u64,
}

#[verifier::ext_equal]
pub struct PausedView {
    pub tab_id: Seq<char>,
    pub reason: Seq<char>,
    pub frames: Seq<FrameView>,
    pub hit_breakpoints: Seq<Seq<char>>,
    pub at_ms: u64,
}

impl View for PausedInfo {
    type V = PausedView;

    open spec fn view(&self) -> PausedView {
        PausedView {
            tab_id: self.tab_id@,
            reason: self.reason@,
            frames: frame_views(self.frames@),
            hit_breakpoints: text::views(self.hit_breakpoints@),
            at_ms: self.at_ms,
        }
    }
}

pub open spec fn paused_view(paused: Option<PausedInfo>) -> Option<PausedView> {
    match paused {
        Some(paused) => Some(paused@),
        None => None,
    }
}

/// A message of a console.
#[derive(Debug)]
pub struct ConsoleEntry {
    /// The number of the message, over all tabs.
    pub seq: u64,
    pub level: String,
    pub text: String,
    pub url: String,
    pub line: i64,
    pub at_ms: u64,
}

pub struct ConsoleView {
    pub seq: u64,
    pub level: Seq<char>,
    pub text: Seq<char>,
    pub url: Seq<char>,
    pub line: i64,
    pub at_ms: u64,
}

impl View for ConsoleEntry {
    type V = ConsoleView;

    open spec fn view(&self) -> ConsoleView {
        ConsoleView {
            seq: self.seq,
            level: self.level@,
            text: self.text@,
            url: self.url@,
            line: self.line,
            at_ms: self.at_ms,
        }
    }
}

impl Clone for ConsoleEntry {
    fn clone(&self) -> (copy: Self)
        ensures
            copy == *self,
    {
        ConsoleEntry {
            seq: self.seq,
            level: self.level.clone(),
            text: self.text.clone(),
            url: self.url.clone(),
            line: self.line,
            at_ms: self.at_ms,
        }
    }
}

/// The views of some scripts.
pub open spec fn script_views(scripts: Seq<ScriptInfo>) -> Seq<ScriptView> {
    scripts.map_values(|script: ScriptInfo| script@)
}

/// The views of some messages.
pub open spec fn console_views(entries: Seq<ConsoleEntry>) -> Seq<ConsoleView> {
    entries.map_values(|entry: ConsoleEntry| entry@)
}

/// The views of some breakpoints.
pub open spec fn breakpoint_views(breakpoints: Seq<BreakpointInfo>) -> Seq<BreakpointView> {
    breakpoints.map_values(|breakpoint: BreakpointInfo| breakpoint@)
}

/// The newest of some things, up to a number of them.
pub open spec fn newest<A>(all: Seq<A>, cap: nat) -> Seq<A> {
    if all.len() > cap {
        all.skip(all.len() - cap)
    } else {
        all
    }
}

// What an event says.

/// The script that an event tells of; `None` where it has no id.
pub open spec fn script_told(params: JsonView) -> Option<ScriptView> {
    let script_id = remote::text_at(params, "scriptId"@);
    if script_id.len() == 0 {
        None
    } else {
        Some(
            ScriptView {
                script_id,
                url: remote::text_at(params, "url"@),
                length: match json::member(params, "length"@) {
                    Some(length) => match json::u64_of(length) {
                        Some(length) => length,
                        None => 0,
                    },
                    None => 0,
                },
                start_line: json::i64_or_zero(params, "startLine"@),
                is_module: json::member_bool(params, "isModule"@) == Some(true),
                hash: remote::text_at(params, "hash"@),
            },
        )
    }
}

fn read_script(params: &Json) -> (script: Option<ScriptInfo>)
    ensures
        match script {
            Some(script) => script_told(params@) == Some(script@),
            None => script_told(params@) is None,
        },
{
    let script_id = read_text(params, "scriptId");
    if script_id.as_str().is_empty() {
        return None;
    }
    let length = match params.get("length") {
        Some(length) => match length.as_u64() {
            Some(length) => length,
            None => 0,
        },
        None => 0,
    };
    let is_module = match params.get_bool("isModule") {
        Some(is_module) => is_module,
        None => false,
    };
    Some(
        ScriptInfo {
            script_id,
            url: read_text(params, "url"),
            length,
            start_line: params.i64_or_zero("startLine"),
            is_module,
            hash: read_text(params, "hash"),
        },
    )
}

/// Where the script with an id stands.
pub open spec fn script_at(scripts: Seq<ScriptView>, id: Seq<char>, from: int) -> Option<int>
    decreases scripts.len() - from,
{
    if from < 0 || from >= scripts.len() {
        None
    } else if scripts[from].script_id == id {
        Some(from)
    } else {
        script_at(scripts, id, from + 1)
    }
}

fn find_script(scripts: &Vec<ScriptInfo>, id: &str) -> (at: Option<usize>)
    ensures
        script_at(script_views(scripts@), id@, 0) == (match at {
            Some(at) => Some(at as int),
            None => None::<int>,
        }),
        at matches Some(at) ==> at < scripts@.len(),
{
    let ghost all = script_views(scripts@);
    let mut i: usize = 0;
    while i < scripts.len()
        invariant
            i <= scripts@.len(),
            all == script_views(scripts@),
            script_at(all, id@, 0) == script_at(all, id@, i as int),
        decreases scripts@.len() - i,
    {
        assert(all[i as int] == scripts@[i as int]@);
        if str_eq(scripts[i].script_id.as_str(), id) {
            return Some(i);
        }
        i += 1;
    }
    None
}

/// The scripts of a tab after one more. One that is known already changes nothing.
pub open spec fn with_script(scripts: Seq<ScriptView>, script: ScriptView) -> Seq<ScriptView> {
    if script_at(scripts, script.script_id, 0) is Some {
        scripts
    } else {
        newest(scripts.push(script), SCRIPTS_CAP as nat)
    }
}

/// The address of a script.
pub open spec fn script_address(scripts: Seq<ScriptView>, id: Seq<char>) -> Option<Seq<char>> {
    match script_at(scripts, id, 0) {
        Some(at) => Some(scripts[at].url),
        None => None,
    }
}

/// A frame as an event tells it.
pub open spec fn frame_told(frame: JsonView, scripts: Seq<ScriptView>) -> FrameView {
    let location = match json::member(frame, "location"@) {
        Some(location) => location,
        None => JsonView::Null,
    };
    let name = remote::text_at(frame, "functionName"@);
    FrameView {
        call_frame_id: remote::text_at(frame, "callFrameId"@),
        function_name: if name.len() == 0 {
            "(匿名)"@
        } else {
            name
        },
        url: match script_address(scripts, remote::text_at(location, "scriptId"@)) {
            Some(url) => url,
            None => "(未知脚本)"@,
        },
        line_number: json::i64_or_zero(location, "lineNumber"@),
        column_number: json::i64_or_zero(location, "columnNumber"@),
        scope_names: remote::texts_under(json::items_or_empty(frame, "scopeChain"@), "type"@),
    }
}

fn read_frame(frame: &Json, scripts: &Vec<ScriptInfo>) -> (told: PausedFrame)
    ensures
        told@ == frame_told(frame@, script_views(scripts@)),
{
    let nowhere = Json::Null;
    let location = match frame.get("location") {
        Some(location) => location,
        None => &nowhere,
    };
    let name = read_text(frame, "functionName");
    let function_name = if name.as_str().is_empty() {
        "(匿名)".to_owned()
    } else {
        name
    };
    let script_id = read_text(location, "scriptId");
    let url = match find_script(scripts, script_id.as_str()) {
        Some(at) => scripts[at].url.clone(),
        None => "(未知脚本)".to_owned(),
    };
    PausedFrame {
        call_frame_id: read_text(frame, "callFrameId"),
        function_name,
        url,
        line_number: location.i64_or_zero("lineNumber"),
        column_number: location.i64_or_zero("columnNumber"),
        scope_names: read_texts_under(frame, "scopeChain", "type"),
    }
}

/// The first of some things, up to a number of them.
pub open spec fn first_few<A>(all: Seq<A>, cap: nat) -> Seq<A> {
    if all.len() > cap {
        all.take(cap as int)
    } else {
        all
    }
}

/// A stop as an event tells it.
pub open spec fn pause_told(tab: Seq<char>, params: JsonView, scripts: Seq<ScriptView>, now_ms: u64) -> PausedView {
    PausedView {
        tab_id: tab,
        reason: json::text_or(params, "reason"@, "other"@),
        frames: first_few(
            json::items_or_empty(params, "callFrames"@),
            FRAMES_CAP as nat,
        ).map_values(|frame: JsonView| frame_told(frame, scripts)),
        hit_breakpoints: remote::texts_in(json::items_or_empty(params, "hitBreakpoints"@)),
        at_ms: now_ms,
    }
}

fn read_frames(params: &Json, scripts: &Vec<ScriptInfo>) -> (frames: Vec<PausedFrame>)
    ensures
        frame_views(frames@) == first_few(
            json::items_or_empty(params@, "callFrames"@),
            FRAMES_CAP as nat,
        ).map_values(|frame: JsonView| frame_told(frame, script_views(scripts@))),
{
    let mut frames: Vec<PausedFrame> = Vec::new();
    let ghost known = script_views(scripts@);
    let list = match params.get("callFrames") {
        Some(list) => match list.as_array() {
            Some(list) => list,
            None => {
                assert(frame_views(frames@) =~= Seq::<JsonView>::empty().map_values(
                    |frame: JsonView| frame_told(frame, known),
                ));
                return frames;
            },
        },
        None => {
            assert(frame_views(frames@) =~= Seq::<JsonView>::empty().map_values(
                |frame: JsonView| frame_told(frame, known),
            ));
            return frames;
        },
    };
    let ghost all = json::trees(list@);
    let ghost few = first_few(all, FRAMES_CAP as nat);
    let mut i: usize = 0;
    while i < list.len() && i < FRAMES_CAP
        invariant
            i <= list@.len(),
            i <= FRAMES_CAP,
            all == json::trees(list@),
            few == first_few(all, FRAMES_CAP as nat),
            known == script_views(scripts@),
            frame_views(frames@) =~= few.map_values(
                |frame: JsonView| frame_told(frame, known),
            ).take(i as int),
        decreases list@.len() - i,
    {
        assert(few[i as int] == list@[i as int]@);
        let frame = read_frame(&list[i], scripts);
        assert(frame_views(frames@.push(frame)) =~= frame_views(frames@).push(frame@));
        frames.push(frame);
        i += 1;
    }
    assert(frame_views(frames@) =~= few.map_values(|frame: JsonView| frame_told(frame, known)));
    frames
}

/// A message as an event tells it.
pub open spec fn message_told(params: JsonView, at_ms: u64) -> ConsoleView {
    let arguments = first_few(
        json::items_or_empty(params, "args"@),
        ARGUMENTS_CAP as nat,
    ).map_values(|argument: JsonView| remote::remote_text(argument));
    let (url, line) = remote::stack_place(json::member(params, "stackTrace"@));
    ConsoleView {
        seq: 0,
        level: json::text_or(params, "type"@, "log"@),
        text: if arguments.len() == 0 {
            "(无参数)"@
        } else {
            text::joined(arguments, " "@)
        },
        url,
        line,
        at_ms,
    }
}

fn read_arguments(params: &Json) -> (texts: Vec<String>)
    ensures
        text::views(texts@) == first_few(
            json::items_or_empty(params@, "args"@),
            ARGUMENTS_CAP as nat,
        ).map_values(|argument: JsonView| remote::remote_text(argument)),
{
    let mut texts: Vec<String> = Vec::new();
    let list = match params.get("args") {
        Some(list) => match list.as_array() {
            Some(list) => list,
            None => {
                assert(text::views(texts@) =~= Seq::<JsonView>::empty().map_values(
                    |argument: JsonView| remote::remote_text(argument),
                ));
                return texts;
            },
        },
        None => {
            assert(text::views(texts@) =~= Seq::<JsonView>::empty().map_values(
                |argument: JsonView| remote::remote_text(argument),
            ));
            return texts;
        },
    };
    let ghost few = first_few(json::trees(list@), ARGUMENTS_CAP as nat);
    let mut i: usize = 0;
    while i < list.len() && i < ARGUMENTS_CAP
        invariant
            i <= list@.len(),
            i <= ARGUMENTS_CAP,
            few == first_few(json::trees(list@), ARGUMENTS_CAP as nat),
            text::views(texts@) =~= few.map_values(
                |argument: JsonView| remote::remote_text(argument),
            ).take(i as int),
        decreases list@.len() - i,
    {
        assert(few[i as int] == list@[i as int]@);
        push_text(&mut texts, remote_object_text(&list[i]));
        i += 1;
    }
    assert(text::views(texts@) =~= few.map_values(
        |argument: JsonView| remote::remote_text(argument),
    ));
    texts
}

fn read_message(params: &Json, at_ms: u64) -> (entry: ConsoleEntry)
    ensures
        entry@ == message_told(params@, at_ms),
{
    let arguments = read_arguments(params);
    let text = if arguments.len() == 0 {
        "(无参数)".to_owned()
    } else {
        join(&arguments, " ")
    };
    let (url, line) = stack_location(params.get("stackTrace"));
    ConsoleEntry { seq: 0, level: params.str_or("type", "log"), text, url, line, at_ms }
}

/// What an exception says.
pub open spec fn exception_text(details: JsonView) -> Seq<char> {
    let said = match remote::inner_member(details, "exception"@, "description"@) {
        Some(said) => Some(said),
        None => json::member(details, "text"@),
    };
    match said {
        Some(JsonView::Text(text)) => text,
        _ => "页面异常"@,
    }
}

/// An exception as an event tells it; `None` where it tells nothing.
pub open spec fn exception_told(params: JsonView, at_ms: u64) -> Option<ConsoleView> {
    match json::member(params, "exceptionDetails"@) {
        Some(details) => Some(
            ConsoleView {
                seq: 0,
                level: "error"@,
                text: exception_text(details),
                url: remote::text_at(details, "url"@),
                line: json::i64_or_zero(details, "lineNumber"@),
                at_ms,
            },
        ),
        None => None,
    }
}

fn read_exception(params: &Json, at_ms: u64) -> (entry: Option<ConsoleEntry>)
    ensures
        match entry {
            Some(entry) => exception_told(params@, at_ms) == Some(entry@),
            None => exception_told(params@, at_ms) is None,
        },
{
    let details = match params.get("exceptionDetails") {
        Some(details) => details,
        None => {
            return None;
        },
    };
    let said = match get_inner(details, "exception", "description") {
        Some(said) => Some(said),
        None => details.get("text"),
    };
    let text = match said {
        Some(said) => match said.as_str() {
            Some(text) => text.to_owned(),
            None => "页面异常".to_owned(),
        },
        None => "页面异常".to_owned(),
    };
    Some(
        ConsoleEntry {
            seq: 0,
            level: "error".to_owned(),
            text,
            url: read_text(details, "url"),
            line: details.i64_or_zero("lineNumber"),
            at_ms,
        },
    )
}

/// A frame as the watchers are told of it.
pub open spec fn frame_value(frame: FrameView) -> JsonView {
    JsonView::Object(
        map![
            "callFrameId"@ => JsonView::Text(frame.call_frame_id),
            "functionName"@ => JsonView::Text(frame.function_name),
            "url"@ => JsonView::Text(frame.url),
            "lineNumber"@ => json::integer_view(frame.line_number),
            "columnNumber"@ => json::integer_view(frame.column_number),
        ],
    )
}

fn tell_frames(frames: &Vec<PausedFrame>) -> (values: Vec<Json>)
    ensures
        json::trees(values@) == frame_views(frames@).map_values(|frame: FrameView| frame_value(frame)),
{
    let ghost all = frame_views(frames@).map_values(|frame: FrameView| frame_value(frame));
    let mut values: Vec<Json> = Vec::new();
    let mut i: usize = 0;
    while i < frames.len()
        invariant
            i <= frames@.len(),
            all == frame_views(frames@).map_values(|frame: FrameView| frame_value(frame)),
            json::trees(values@) =~= all.take(i as int),
        decreases frames@.len() - i,
    {
        let frame = &frames[i];
        let mut value = object();
        value.insert("callFrameId", Json::Text(frame.call_frame_id.clone()));
        value.insert("functionName", Json::Text(frame.function_name.clone()));
        value.insert("url", Json::Text(frame.url.clone()));
        value.insert("lineNumber", Json::integer(frame.line_number));
        value.insert("columnNumber", Json::integer(frame.column_number));
        assert(value@ == all[i as int]);
        assert(json::trees(values@.push(value)) =~= json::trees(values@).push(value@));
        values.push(value);
        i += 1;
    }
    assert(json::trees(values@) =~= all);
    values
}

// What is kept.

/// What the tools of a developer keep.
pub struct ReconStore {
    /// The scripts of each tab, in the order in which they came.
    scripts: TextMap<Vec<ScriptInfo>>,
    /// The tab of each script.
    by_script: TextMap<String>,
    /// They belong to addresses and outlive the tabs.
    breakpoints: Vec<BreakpointInfo>,
    paused: Option<PausedInfo>,
    paused_tab: Option<String>,
    /// The messages of each tab.
    console: TextMap<Vec<ConsoleEntry>>,
    /// How many messages there were.
    counter: u64,
}

/// What a store keeps.
#[verifier::ext_equal]
pub struct ReconView {
    pub scripts: Map<Seq<char>, Seq<ScriptView>>,
    pub tabs: Map<Seq<char>, Seq<char>>,
    pub breakpoints: Seq<BreakpointView>,
    pub paused: Option<PausedView>,
    pub paused_tab: Option<Seq<char>>,
    pub console: Map<Seq<char>, Seq<ConsoleView>>,
    pub counter: nat,
}

impl View for ReconStore {
    type V = ReconView;

    closed spec fn view(&self) -> ReconView {
        ReconView {
            scripts: self.scripts@.map_values(|scripts: Vec<ScriptInfo>| script_views(scripts@)),
            tabs: self.by_script@.map_values(|tab: String| tab@),
            breakpoints: breakpoint_views(self.breakpoints@),
            paused: paused_view(self.paused),
            paused_tab: text::opt_view(self.paused_tab),
            console: self.console@.map_values(
                |entries: Vec<ConsoleEntry>| console_views(entries@),
            ),
            counter: self.counter as nat,
        }
    }
}

/// The scripts of a tab.
pub open spec fn scripts_of(store: ReconView, tab: Seq<char>) -> Seq<ScriptView> {
    if store.scripts.contains_key(tab) {
        store.scripts[tab]
    } else {
        Seq::empty()
    }
}

/// The messages of a tab.
pub open spec fn messages_of(store: ReconView, tab: Seq<char>) -> Seq<ConsoleView> {
    if store.console.contains_key(tab) {
        store.console[tab]
    } else {
        Seq::empty()
    }
}

/// A store that keeps nothing.
pub open spec fn nothing_kept() -> ReconView {
    ReconView {
        scripts: Map::empty(),
        tabs: Map::empty(),
        breakpoints: Seq::empty(),
        paused: None,
        paused_tab: None,
        console: Map::empty(),
        counter: 0,
    }
}

/// With one more script.
pub open spec fn script_kept(store: ReconView, tab: Seq<char>, params: JsonView) -> ReconView {
    match script_told(params) {
        Some(script) => ReconView {
            scripts: store.scripts.insert(tab, with_script(scripts_of(store, tab), script)),
            tabs: store.tabs.insert(script.script_id, tab),
            ..store
        },
        None => store,
    }
}

/// With one more message.
pub open spec fn message_kept(store: ReconView, tab: Seq<char>, entry: ConsoleView) -> ReconView {
    let numbered = ConsoleView { seq: (store.counter + 1) as u64, ..entry };
    ReconView {
        console: store.console.insert(
            tab,
            newest(messages_of(store, tab).push(numbered), CONSOLE_CAP as nat),
        ),
        counter: store.counter + 1,
        ..store
    }
}

/// With a page that stands still.
pub open spec fn pause_kept(store: ReconView, tab: Seq<char>, params: JsonView, now_ms: u64) -> ReconView {
    ReconView {
        paused: Some(pause_told(tab, params, scripts_of(store, tab), now_ms)),
        paused_tab: Some(tab),
        ..store
    }
}

/// With no page that stands still.
pub open spec fn resumed(store: ReconView) -> ReconView {
    ReconView { paused: None, paused_tab: None, ..store }
}

/// Without the scripts and the messages of a tab.
pub open spec fn tab_forgotten(store: ReconView, tab: Seq<char>) -> ReconView {
    ReconView { scripts: store.scripts.remove(tab), console: store.console.remove(tab), ..store }
}

/// With nothing but how many messages there were.
pub open spec fn all_forgotten(store: ReconView) -> ReconView {
    ReconView { counter: store.counter, ..nothing_kept() }
}

/// With one more breakpoint.
pub open spec fn breakpoint_kept(store: ReconView, breakpoint: BreakpointView) -> ReconView {
    ReconView { breakpoints: store.breakpoints.push(breakpoint), ..store }
}

/// Without a breakpoint.
pub open spec fn breakpoint_dropped(store: ReconView, id: Seq<char>) -> ReconView {
    match breakpoint_with(store.breakpoints, id, 0) {
        Some(at) => ReconView { breakpoints: store.breakpoints.remove(at), ..store },
        None => store,
    }
}

/// What a store keeps after an event. A message has the time that it gives itself, or else it is of
/// now.
pub open spec fn kept(
    store: ReconView,
    tab: Seq<char>,
    method: Seq<char>,
    params: JsonView,
    stamp: Option<u64>,
    now_ms: u64,
) -> ReconView {
    let at_ms = match stamp {
        Some(stamp) => stamp,
        None => now_ms,
    };
    if method == "Debugger.scriptParsed"@ {
        script_kept(store, tab, params)
    } else if method == "Debugger.paused"@ {
        pause_kept(store, tab, params, now_ms)
    } else if method == "Debugger.resumed"@ {
        resumed(store)
    } else if method == "Runtime.consoleAPICalled"@ {
        message_kept(store, tab, message_told(params, at_ms))
    } else if method == "Runtime.exceptionThrown"@ {
        match exception_told(params, at_ms) {
            Some(entry) => message_kept(store, tab, entry),
            None => store,
        }
    } else {
        store
    }
}

/// Whether the watchers are told what an event says: that a page stands still, and that one goes on.
pub open spec fn tells(
    event: Option<BrowserEvent>,
    store: ReconView,
    tab: Seq<char>,
    method: Seq<char>,
    params: JsonView,
    now_ms: u64,
) -> bool {
    if method == "Debugger.paused"@ {
        let paused = pause_told(tab, params, scripts_of(store, tab), now_ms);
        event matches Some(BrowserEvent::DebuggerPaused { tab_id, reason, frames }) && tab_id@ == tab
            && reason@ == paused.reason && json::trees(frames@) == paused.frames.map_values(
            |frame: FrameView| frame_value(frame),
        )
    } else if method == "Debugger.resumed"@ && store.paused_tab is Some {
        event matches Some(BrowserEvent::DebuggerResumed { tab_id }) && tab_id@
            == store.paused_tab->0
    } else {
        event is None
    }
}

fn drop_oldest<A>(all: &mut Vec<A>, cap: usize)
    ensures
        final(all)@ == newest(old(all)@, cap as nat),
{
    let ghost before = all@;
    if all.len() > cap {
        let excess: usize = all.len() - cap;
        let kept = all.split_off(excess);
        *all = kept;
        assert(all@ =~= before.skip(excess as int));
    }
}

impl ReconStore {
    /// A store that keeps nothing.
    pub fn new() -> (store: Self)
        ensures
            store@ == nothing_kept(),
    {
        let store = ReconStore {
            scripts: TextMap::new(),
            by_script: TextMap::new(),
            breakpoints: Vec::new(),
            paused: None,
            paused_tab: None,
            console: TextMap::new(),
            counter: 0,
        };
        assert(store@ =~= nothing_kept());
        store
    }

    fn record_script(&mut self, tab_id: &str, params: &Json)
        ensures
            final(self)@ == script_kept(old(self)@, tab_id@, params@),
    {
        let ghost before = self@;
        if let Some(script) = read_script(params) {
            let ghost view = script@;
            self.by_script.insert(script.script_id.as_str(), tab_id.to_owned());
            let mut list = match self.scripts.remove(tab_id) {
                Some(list) => list,
                None => Vec::new(),
            };
            let ghost known = script_views(list@);
            assert(known =~= scripts_of(before, tab_id@));
            if find_script(&list, script.script_id.as_str()).is_none() {
                list.push(script);
                assert(script_views(list@) =~= known.push(view));
                let ghost all = list@;
                drop_oldest(&mut list, SCRIPTS_CAP);
                assert(script_views(newest(all, SCRIPTS_CAP as nat)) =~= newest(
                    script_views(all),
                    SCRIPTS_CAP as nat,
                ));
            }
            assert(script_views(list@) == with_script(known, view));
            self.scripts.insert(tab_id, list);
            assert(self@.scripts =~= before.scripts.insert(tab_id@, with_script(known, view)));
            assert(self@.tabs =~= before.tabs.insert(view.script_id, tab_id@));
        }
        assert(self@ =~= script_kept(before, tab_id@, params@));
    }

    fn push_message(&mut self, tab_id: &str, entry: ConsoleEntry)
        requires
            old(self)@.counter < u64::MAX,
        ensures
            final(self)@ == message_kept(old(self)@, tab_id@, entry@),
    {
        let ghost before = self@;
        let mut entry = entry;
        self.counter = self.counter + 1;
        entry.seq = self.counter;
        let ghost view = entry@;
        let mut list = match self.console.remove(tab_id) {
            Some(list) => list,
            None => Vec::new(),
        };
        let ghost known = console_views(list@);
        assert(known =~= messages_of(before, tab_id@));
        list.push(entry);
        assert(console_views(list@) =~= known.push(view));
        let ghost all = list@;
        drop_oldest(&mut list, CONSOLE_CAP);
        assert(console_views(newest(all, CONSOLE_CAP as nat)) =~= newest(
            console_views(all),
            CONSOLE_CAP as nat,
        ));
        self.console.insert(tab_id, list);
        assert(self@.console =~= message_kept(before, tab_id@, view).console);
        assert(self@ =~= message_kept(before, tab_id@, view));
    }

    fn record_paused(&mut self, tab_id: &str, params: &Json, now_ms: u64) -> (event: BrowserEvent)
        ensures
            final(self)@ == pause_kept(old(self)@, tab_id@, params@, now_ms),
            tells(
                Some(event),
                old(self)@,
                tab_id@,
                "Debugger.paused"@,
                params@,
                now_ms,
            ),
    {
        let ghost before = self@;
        let none: Vec<ScriptInfo> = Vec::new();
        let scripts = match self.scripts.get(tab_id) {
            Some(scripts) => scripts,
            None => &none,
        };
        assert(script_views(scripts@) =~= scripts_of(before, tab_id@));
        let frames = read_frames(params, scripts);
        let reason = params.str_or("reason", "other");
        let event = BrowserEvent::DebuggerPaused {
            tab_id: tab_id.to_owned(),
            reason: reason.clone(),
            frames: tell_frames(&frames),
        };
        let info = PausedInfo {
            tab_id: tab_id.to_owned(),
            reason,
            frames,
            hit_breakpoints: read_texts(params, "hitBreakpoints"),
            at_ms: now_ms,
        };
        self.paused = Some(info);
        self.paused_tab = Some(tab_id.to_owned());
        assert(self@ =~= pause_kept(before, tab_id@, params@, now_ms));
        event
    }

    /// Takes an event in, and says what the watchers are to be told. `stamp` is the time that the
    /// event gives itself, in whole milliseconds.
    pub fn on_event(
        &mut self,
        tab_id: &str,
        method: &str,
        params: &Json,
        stamp: Option<u64>,
        now_ms: u64,
    ) -> (event: Option<BrowserEvent>)
        requires
            old(self)@.counter < u64::MAX,
        ensures
            final(self)@ == kept(old(self)@, tab_id@, method@, params@, stamp, now_ms),
            tells(event, old(self)@, tab_id@, method@, params@, now_ms),
    {
        let ghost before = self@;
        let at_ms = match stamp {
            Some(stamp) => stamp,
            None => now_ms,
        };
        proof {
            lemma_methods_are_apart();
        }
        if str_eq(method, "Debugger.scriptParsed") {
            self.record_script(tab_id, params);
            return None;
        }
        if str_eq(method, "Debugger.paused") {
            let event = self.record_paused(tab_id, params, now_ms);
            return Some(event);
        }
        if str_eq(method, "Debugger.resumed") {
            let tab = self.paused_tab.take();
            self.paused = None;
            assert(self@ =~= resumed(before));
            return match tab {
                Some(tab_id) => Some(BrowserEvent::DebuggerResumed { tab_id }),
                None => None,
            };
        }
        if str_eq(method, "Runtime.consoleAPICalled") {
            self.push_message(tab_id, read_message(params, at_ms));
        } else if str_eq(method, "Runtime.exceptionThrown") {
            if let Some(entry) = read_exception(params, at_ms) {
                self.push_message(tab_id, entry);
            }
        }
        None
    }

    /// The page that stands still.
    pub fn paused_info(&self) -> (paused: &Option<PausedInfo>)
        ensures
            paused_view(*paused) == self@.paused,
    {
        &self.paused
    }

    /// The tab that stands still.
    pub fn paused_tab(&self) -> (tab: &Option<String>)
        ensures
            text::opt_view(*tab) == self@.paused_tab,
    {
        &self.paused_tab
    }

    /// Whether a tab stands still, or any does where none is named.
    pub fn is_paused(&self, tab_id: Option<&str>) -> (yes: bool)
        ensures
            yes == stands_still(self@, text::opt_str_view(tab_id)),
    {
        match (&self.paused_tab, tab_id) {
            (Some(paused), Some(tab)) => str_eq(paused.as_str(), tab),
            (Some(_), None) => true,
            _ => false,
        }
    }

    /// The breakpoints, whatever the tab.
    pub fn list_breakpoints(&self, _tab_id: &str) -> (breakpoints: Vec<BreakpointInfo>)
        ensures
            breakpoint_views(breakpoints@) == self@.breakpoints,
    {
        let breakpoints = self.breakpoints.clone();
        assert(breakpoints@ =~= self.breakpoints@);
        breakpoints
    }

    /// The latest messages of a tab, at least one and at most as many as are kept.
    pub fn console_list(&self, tab_id: &str, max: usize) -> (entries: Vec<ConsoleEntry>)
        ensures
            console_views(entries@) == newest(
                messages_of(self@, tab_id@),
                if max < 1 {
                    1
                } else if max > CONSOLE_CAP {
                    CONSOLE_CAP as nat
                } else {
                    max as nat
                },
            ),
    {
        let limit: usize = if max < 1 {
            1
        } else if max > CONSOLE_CAP {
            CONSOLE_CAP
        } else {
            max
        };
        match self.console.get(tab_id) {
            Some(list) => {
                let mut entries = list.clone();
                assert(entries@ =~= list@);
                let ghost all = entries@;
                drop_oldest(&mut entries, limit);
                assert(console_views(newest(all, limit as nat)) =~= newest(
                    console_views(all),
                    limit as nat,
                ));
                entries
            },
            None => {
                let none: Vec<ConsoleEntry> = Vec::new();
                assert(console_views(none@) =~= Seq::empty());
                none
            },
        }
    }

    /// Forgets the scripts and the messages of a tab. The breakpoints stay.
    pub fn clear(&mut self, tab_id: &str)
        ensures
            final(self)@ == tab_forgotten(old(self)@, tab_id@),
    {
        let ghost before = self@;
        let _scripts = self.scripts.remove(tab_id);
        let _console = self.console.remove(tab_id);
        assert(self@.scripts =~= before.scripts.remove(tab_id@));
        assert(self@.console =~= before.console.remove(tab_id@));
    }

    /// The browser has ended: everything is forgotten but how many messages there were.
    pub fn clear_all(&mut self)
        ensures
            final(self)@ == all_forgotten(old(self)@),
    {
        let ghost before = self@;
        self.scripts = TextMap::new();
        self.by_script = TextMap::new();
        self.breakpoints = Vec::new();
        self.paused = None;
        self.paused_tab = None;
        self.console = TextMap::new();
        assert(self@ =~= all_forgotten(before));
    }

    /// The scripts of a tab whose address holds a text, or all of them.
    pub fn scripts(&self, tab_id: &str, url_filter: Option<&str>) -> (scripts: Vec<ScriptInfo>)
        ensures
            script_views(scripts@) == scripts_with(
                scripts_of(self@, tab_id@),
                text::opt_str_view(url_filter),
            ),
    {
        let mut scripts: Vec<ScriptInfo> = Vec::new();
        assert(script_views(scripts@) =~= Seq::empty());
        let list = match self.scripts.get(tab_id) {
            Some(list) => list,
            None => {
                return scripts;
            },
        };
        let ghost all = script_views(list@);
        let ghost filter = text::opt_str_view(url_filter);
        let mut i: usize = 0;
        assert(all.take(0) =~= Seq::empty());
        while i < list.len()
            invariant
                i <= list@.len(),
                all == script_views(list@),
                filter == text::opt_str_view(url_filter),
                script_views(scripts@) == scripts_with(all.take(i as int), filter),
            decreases list@.len() - i,
        {
            assert(all.take(i + 1).drop_last() =~= all.take(i as int));
            assert(all[i as int] == list@[i as int]@);
            let fits = match url_filter {
                Some(needle) => contains(list[i].url.as_str(), needle),
                None => true,
            };
            if fits {
                let script = list[i].clone();
                assert(script_views(scripts@.push(script)) =~= script_views(scripts@).push(script@));
                scripts.push(script);
            }
            i += 1;
        }
        assert(all.take(all.len() as int) =~= all);
        scripts
    }

    /// The address of a script of a tab; empty where it is not known.
    pub fn script_url(&self, tab_id: &str, script_id: &str) -> (url: String)
        ensures
            url@ == known_address(scripts_of(self@, tab_id@), script_id@),
    {
        let nowhere = String::new();
        assert(nowhere@ =~= Seq::empty());
        match self.scripts.get(tab_id) {
            Some(list) => match find_script(list, script_id) {
                Some(at) => list[at].url.clone(),
                None => nowhere,
            },
            None => nowhere,
        }
    }

    /// The breakpoint at a line of an address.
    pub(crate) fn breakpoint_at(&self, url: &str, line_number: i64) -> (found: Option<BreakpointInfo>)
        ensures
            match breakpoint_on(self@.breakpoints, url@, line_number, 0) {
                Some(at) => found matches Some(breakpoint) && breakpoint@ == self@.breakpoints[at],
                None => found is None,
            },
    {
        let ghost all = breakpoint_views(self.breakpoints@);
        let mut i: usize = 0;
        while i < self.breakpoints.len()
            invariant
                i <= self.breakpoints@.len(),
                all == breakpoint_views(self.breakpoints@),
                breakpoint_on(all, url@, line_number, 0) == breakpoint_on(
                    all,
                    url@,
                    line_number,
                    i as int,
                ),
            decreases self.breakpoints@.len() - i,
        {
            assert(all[i as int] == self.breakpoints@[i as int]@);
            let breakpoint = &self.breakpoints[i];
            if str_eq(breakpoint.url.as_str(), url) && breakpoint.line_number == line_number {
                return Some(breakpoint.clone());
            }
            i += 1;
        }
        None
    }

    pub(crate) fn keep_breakpoint(&mut self, breakpoint: BreakpointInfo)
        ensures
            final(self)@ == breakpoint_kept(old(self)@, breakpoint@),
    {
        let ghost before = self@;
        let ghost view = breakpoint@;
        self.breakpoints.push(breakpoint);
        assert(self@.breakpoints =~= before.breakpoints.push(view));
    }

    /// Forgets a breakpoint, and says whether there was one: the browser is then to forget it too.
    pub fn remove_breakpoint(&mut self, breakpoint_id: &str) -> (removed: bool)
        ensures
            removed == breakpoint_with(old(self)@.breakpoints, breakpoint_id@, 0) is Some,
            final(self)@ == breakpoint_dropped(old(self)@, breakpoint_id@),
    {
        let ghost before = self@;
        let ghost all = breakpoint_views(self.breakpoints@);
        let mut i: usize = 0;
        while i < self.breakpoints.len()
            invariant
                i <= self.breakpoints@.len(),
                *self == *old(self),
                before == self@,
                all == breakpoint_views(self.breakpoints@),
                breakpoint_with(all, breakpoint_id@, 0) == breakpoint_with(
                    all,
                    breakpoint_id@,
                    i as int,
                ),
            decreases self.breakpoints@.len() - i,
        {
            assert(all[i as int] == self.breakpoints@[i as int]@);
            if str_eq(self.breakpoints[i].breakpoint_id.as_str(), breakpoint_id) {
                let _gone = self.breakpoints.remove(i);
                assert(self@.breakpoints =~= before.breakpoints.remove(i as int));
                return true;
            }
            i += 1;
        }
        false
    }

    /// The page that stood still goes on.
    pub(crate) fn forget_pause(&mut self)
        ensures
            final(self)@ == resumed(old(self)@),
    {
        let ghost before = self@;
        self.paused = None;
        self.paused_tab = None;
        assert(self@ =~= resumed(before));
    }
}

/// Whether a tab stands still, or any does where none is named.
pub open spec fn stands_still(store: ReconView, tab: Option<Seq<char>>) -> bool {
    match (store.paused_tab, tab) {
        (Some(paused), Some(tab)) => paused == tab,
        (Some(_), None) => true,
        _ => false,
    }
}

/// The scripts whose address holds a text, or all of them.
pub open spec fn scripts_with(scripts: Seq<ScriptView>, filter: Option<Seq<char>>) -> Seq<ScriptView>
    decreases scripts.len(),
{
    if scripts.len() == 0 {
        Seq::empty()
    } else {
        let rest = scripts_with(scripts.drop_last(), filter);
        if filter is None || text::has(scripts.last().url, filter->0) {
            rest.push(scripts.last())
        } else {
            rest
        }
    }
}

/// The address of a script; empty where it is not known.
pub open spec fn known_address(scripts: Seq<ScriptView>, id: Seq<char>) -> Seq<char> {
    match script_address(scripts, id) {
        Some(url) => url,
        None => Seq::empty(),
    }
}

/// Where the breakpoint at a line of an address stands.
pub open spec fn breakpoint_on(breakpoints: Seq<BreakpointView>, url: Seq<char>, line: i64, from: int) -> Option<int>
    decreases breakpoints.len() - from,
{
    if from < 0 || from >= breakpoints.len() {
        None
    } else if breakpoints[from].url == url && breakpoints[from].line_number == line {
        Some(from)
    } else {
        breakpoint_on(breakpoints, url, line, from + 1)
    }
}

/// Where the breakpoint with an id stands.
pub open spec fn breakpoint_with(breakpoints: Seq<BreakpointView>, id: Seq<char>, from: int) -> Option<int>
    decreases breakpoints.len() - from,
{
    if from < 0 || from >= breakpoints.len() {
        None
    } else if breakpoints[from].breakpoint_id == id {
        Some(from)
    } else {
        breakpoint_with(breakpoints, id, from + 1)
    }
}

/// Why something cannot be done while no browser runs.
pub fn not_running_error(action: &str) -> (why: String)
    ensures
        why@ == "浏览器未运行,无法"@ + action@ + ";先启动浏览器"@,
{
    cat3("浏览器未运行,无法", action, ";先启动浏览器")
}

/// Whatever events come, the scripts and the messages that are kept of a tab stay within their
/// limits, if they were within them before.
pub proof fn kept_is_bounded(
    store: ReconView,
    tab: Seq<char>,
    method: Seq<char>,
    params: JsonView,
    stamp: Option<u64>,
    now_ms: u64,
    any: Seq<char>,
)
    requires
        scripts_of(store, any).len() <= SCRIPTS_CAP,
        messages_of(store, any).len() <= CONSOLE_CAP,
    ensures
        scripts_of(kept(store, tab, method, params, stamp, now_ms), any).len() <= SCRIPTS_CAP,
        messages_of(kept(store, tab, method, params, stamp, now_ms), any).len() <= CONSOLE_CAP,
{
}

/// An event of one tab changes neither the scripts nor the messages of another.
pub proof fn other_tabs_are_left_alone(
    store: ReconView,
    tab: Seq<char>,
    method: Seq<char>,
    params: JsonView,
    stamp: Option<u64>,
    now_ms: u64,
    other: Seq<char>,
)
    requires
        other != tab,
    ensures
        scripts_of(kept(store, tab, method, params, stamp, now_ms), other) == scripts_of(store, other),
        messages_of(kept(store, tab, method, params, stamp, now_ms), other) == messages_of(
            store,
            other,
        ),
{
}

/// Breakpoints outlive events, and the tabs that they were made in.
pub proof fn breakpoints_outlive_tabs(
    store: ReconView,
    tab: Seq<char>,
    method: Seq<char>,
    params: JsonView,
    stamp: Option<u64>,
    now_ms: u64,
)
    ensures
        kept(store, tab, method, params, stamp, now_ms).breakpoints == store.breakpoints,
{
}

proof fn lemma_methods_are_apart()
    ensures
        "Debugger.scriptParsed"@ != "Debugger.paused"@,
        "Debugger.scriptParsed"@ != "Debugger.resumed"@,
        "Runtime.consoleAPICalled"@ != "Debugger.paused"@,
        "Runtime.consoleAPICalled"@ != "Debugger.resumed"@,
        "Runtime.exceptionThrown"@ != "Debugger.paused"@,
        "Runtime.exceptionThrown"@ != "Debugger.resumed"@,
{
    reveal_strlit("Debugger.scriptParsed");
    reveal_strlit("Debugger.paused");
    reveal_strlit("Debugger.resumed");
    reveal_strlit("Runtime.consoleAPICalled");
    reveal_strlit("Runtime.exceptionThrown");
    assert("Debugger.paused"@[9] == 'p');
    assert("Debugger.resumed"@[9] == 'r');
    assert("Debugger.scriptParsed"@[9] == 's');
    assert("Runtime.consoleAPICalled"@[0] == 'R');
    assert("Runtime.exceptionThrown"@[0] == 'R');
    assert("Debugger.paused"@[0] == 'D');
    assert("Debugger.resumed"@[0] == 'D');
}

} // verus!
