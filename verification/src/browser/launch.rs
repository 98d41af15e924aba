//! How a browser is found, started and reached.
use vstd::prelude::*;
use vstd::string::*;

use crate::browser::bytes;
use crate::browser::bytes::read_lossy;
use crate::browser::target;
use crate::browser::target::{is_missing_browser, to_lowercase};
use crate::paths;
use crate::paths::{join_path, join_two};
use crate::text;
use crate::text::{cat2, cat3, cat4, chars_of, find_chars, lines_of, slice_text, trim};

verus! {

/// What is told while the browser is fetched for the first time.
pub const BROWSER_DOWNLOAD_HINT: &'static str = "首次使用需下载 Playwright 浏览器(约 200MB),请耐心等待";

/// How long a browser has to open its port.
pub const PORT_TIMEOUT_SECONDS: u64 = 15;

/// How often the port of a browser is looked for.
pub const PORT_POLL_MS: u64 = 100;

/// The file in which a browser says its port.
pub const PORT_FILE: &'static str = "DevToolsActivePort";

/// How a browser is started.
#[derive(Debug)]
pub struct LaunchSpec {
    /// Where cookies and stored data outlive the browser.
    pub profile_dir: String,
    /// Where downloads go.
    pub artifacts_dir: String,
    /// Without a window: its pictures are shown elsewhere.
    pub headless: bool,
    pub viewport: (u32, u32),
    pub args: Vec<String>,
}

impl LaunchSpec {
    /// How the browser of a user is started.
    pub fn new(home: &str) -> (spec: Self)
        ensures
            !paths::is_verbatim(home@) ==> paths::is_two_below(
                spec.profile_dir@,
                home@,
                "browser"@,
                "profile"@,
            ),
            !paths::is_verbatim(home@) ==> paths::is_two_below(
                spec.artifacts_dir@,
                home@,
                "browser"@,
                "artifacts"@,
            ),
            spec.headless,
            spec.viewport == (1440u32, 900u32),
            spec.args@.len() == 0,
    {
        proof {
            lemma_directory_names();
        }
        LaunchSpec {
            profile_dir: default_profile_dir(home),
            artifacts_dir: join_two(home, "browser", "artifacts"),
            headless: true,
            viewport: (1440, 900),
            args: Vec::new(),
        }
    }
}

proof fn lemma_directory_names()
    ensures
        paths::is_relative("browser"@),
        "browser"@[0] != '?',
        paths::is_relative("profile"@),
        paths::is_relative("artifacts"@),
{
    reveal_strlit("browser");
    reveal_strlit("profile");
    reveal_strlit("artifacts");
}

/// Where the data of the browser outlives it.
pub fn default_profile_dir(home: &str) -> (dir: String)
    ensures
        !paths::is_verbatim(home@) ==> paths::is_two_below(dir@, home@, "browser"@, "profile"@),
{
    proof {
        lemma_directory_names();
    }
    join_two(home, "browser", "profile")
}

/// What comes after a browser could not be started.
pub enum LaunchMove {
    /// The browser is missing: it is fetched, and started once more.
    Download,
    Fail(String),
}

/// What comes after the first failure to start a browser, given its message in lower case.
pub fn after_failure_read(lower: &str, error: &str) -> (next: LaunchMove)
    ensures
        if target::says_missing(lower@) {
            next is Download
        } else {
            next matches LaunchMove::Fail(why) && why@ == error@
        },
{
    if is_missing_browser(lower) {
        LaunchMove::Download
    } else {
        LaunchMove::Fail(error.to_owned())
    }
}

/// What comes after the first failure to start a browser.
pub fn after_failure(error: &str) -> (next: LaunchMove)
    ensures
        if target::says_missing(target::lowercased(error@)) {
            next is Download
        } else {
            next matches LaunchMove::Fail(why) && why@ == error@
        },
{
    after_failure_read(to_lowercase(error).as_str(), error)
}

/// Why the driver of the browser could not be started.
pub fn driver_failure(error: &str) -> (why: String)
    ensures
        why@ == "启动 Playwright driver 失败: "@ + error@,
{
    cat2("启动 Playwright driver 失败: ", error)
}

/// Why the browser could not be fetched.
pub fn download_failure(error: &str) -> (why: String)
    ensures
        why@ == "下载 Playwright 浏览器失败: "@ + error@,
{
    cat2("下载 Playwright 浏览器失败: ", error)
}

/// Why a browser that was fetched could not be started.
pub fn second_failure(error: &str) -> (why: String)
    ensures
        why@ == "浏览器安装后仍无法启动: "@ + error@,
{
    cat2("浏览器安装后仍无法启动: ", error)
}

/// The key under which a system keeps the path of a program.
pub fn registry_key(executable: &str) -> (key: String)
    ensures
        key@ == "SOFTWARE\\Microsoft\\Windows\\CurrentVersion\\App Paths\\"@ + executable@,
{
    cat2("SOFTWARE\\Microsoft\\Windows\\CurrentVersion\\App Paths\\", executable)
}

/// What a line of the registry says, after the mark of a text.
pub open spec fn registry_line(line: Seq<char>) -> Option<Seq<char>> {
    match text::find_from(line, "REG_SZ"@, 0) {
        Some(at) => {
            let value = text::trimmed(line.skip(at + "REG_SZ"@.len()));
            if value.len() > 0 {
                Some(value)
            } else {
                None
            }
        },
        None => None,
    }
}

/// What the first line of the registry that says something says.
pub open spec fn registry_value(lines: Seq<Seq<char>>, from: int) -> Option<Seq<char>>
    decreases lines.len() - from,
{
    if from < 0 || from >= lines.len() {
        None
    } else {
        match registry_line(lines[from]) {
            Some(value) => Some(value),
            None => registry_value(lines, from + 1),
        }
    }
}

fn read_registry_line(line: &str) -> (value: Option<String>)
    ensures
        text::opt_view(value) == registry_line(line@),
{
    let chars = chars_of(line);
    let mark = chars_of("REG_SZ");
    match find_chars(&chars, &mark, 0) {
        Some(at) => {
            proof {
                text::lemma_find_from(line@, "REG_SZ"@, 0);
            }
            let total: usize = chars.len();
            let rest = slice_text(&chars, at + mark.len(), total);
            assert(rest@ =~= line@.skip(at + "REG_SZ"@.len()));
            let value = trim(rest.as_str());
            if value.as_str().is_empty() {
                None
            } else {
                Some(value)
            }
        },
        None => None,
    }
}

/// The text that the registry gave for a key.
pub fn find_registry_value(contents: &str) -> (value: Option<String>)
    ensures
        text::opt_view(value) == registry_value(text::lines(contents@), 0),
{
    let lines = lines_of(contents);
    let ghost all = text::views(lines@);
    let mut i: usize = 0;
    while i < lines.len()
        invariant
            i <= lines@.len(),
            all == text::lines(contents@),
            all == text::views(lines@),
            registry_value(all, 0) == registry_value(all, i as int),
        decreases lines@.len() - i,
    {
        if let Some(value) = read_registry_line(lines[i].as_str()) {
            return Some(value);
        }
        i += 1;
    }
    None
}

/// The text that the registry gave for a key, out of what was printed.
pub fn read_registry_default_string(printed: &Vec<u8>) -> (value: Option<String>)
    ensures
        text::opt_view(value) == registry_value(text::lines(bytes::lossy_text(printed@)), 0),
{
    find_registry_value(read_lossy(printed).as_str())
}

/// Where a browser stands by custom. Chrome comes first.
pub fn usual_places() -> (places: Vec<String>)
    ensures
        text::views(places@) == usual_paths(),
{
    let mut places: Vec<String> = Vec::new();
    text::push_text(&mut places, "C:\\Program Files\\Google\\Chrome\\Application\\chrome.exe".to_owned());
    text::push_text(
        &mut places,
        "C:\\Program Files (x86)\\Google\\Chrome\\Application\\chrome.exe".to_owned(),
    );
    text::push_text(
        &mut places,
        "C:\\Program Files (x86)\\Microsoft\\Edge\\Application\\msedge.exe".to_owned(),
    );
    text::push_text(&mut places, "C:\\Program Files\\Microsoft\\Edge\\Application\\msedge.exe".to_owned());
    assert(text::views(places@) =~= usual_paths());
    places
}

/// Where a browser stands by custom.
pub open spec fn usual_paths() -> Seq<Seq<char>> {
    seq![
        "C:\\Program Files\\Google\\Chrome\\Application\\chrome.exe"@,
        "C:\\Program Files (x86)\\Google\\Chrome\\Application\\chrome.exe"@,
        "C:\\Program Files (x86)\\Microsoft\\Edge\\Application\\msedge.exe"@,
        "C:\\Program Files\\Microsoft\\Edge\\Application\\msedge.exe"@,
    ]
}

/// A path that may or may not lead to a file.
pub struct Place {
    pub path: String,
    pub is_file: bool,
}

/// The first of some places that leads to a file.
pub open spec fn first_file(places: Seq<Place>, from: int) -> Option<Seq<char>>
    decreases places.len() - from,
{
    if from < 0 || from >= places.len() {
        None
    } else if places[from].is_file {
        Some(places[from].path@)
    } else {
        first_file(places, from + 1)
    }
}

/// The browser to start: the one that is registered as Chrome, or else the first that stands where
/// one does by custom, or else the one that is registered as Edge.
pub open spec fn browser_path(chrome: Option<Place>, edge: Option<Place>, usual: Seq<Place>) -> Option<Seq<char>> {
    if chrome matches Some(place) && place.is_file {
        Some(chrome->0.path@)
    } else if first_file(usual, 0) is Some {
        first_file(usual, 0)
    } else if edge matches Some(place) && place.is_file {
        Some(edge->0.path@)
    } else {
        None
    }
}

/// The browser to start, given what the registry says and which places lead to files.
pub fn locate_browser_executable(chrome: &Option<Place>, edge: &Option<Place>, usual: &Vec<Place>) -> (path:
    Option<String>)
    ensures
        text::opt_view(path) == browser_path(*chrome, *edge, usual@),
{
    if let Some(place) = chrome {
        if place.is_file {
            return Some(place.path.clone());
        }
    }
    let mut i: usize = 0;
    while i < usual.len()
        invariant
            i <= usual@.len(),
            !(chrome matches Some(place) && place.is_file),
            first_file(usual@, 0) == first_file(usual@, i as int),
        decreases usual@.len() - i,
    {
        if usual[i].is_file {
            return Some(usual[i].path.clone());
        }
        i += 1;
    }
    if let Some(place) = edge {
        if place.is_file {
            return Some(place.path.clone());
        }
    }
    None
}

/// What a browser is started with.
pub open spec fn launch_words(profile: Seq<char>) -> Seq<Seq<char>> {
    seq![
        "--remote-debugging-port=0"@,
        "--window-position=-32000,-32000"@,
        "--user-data-dir="@ + profile,
        "--no-first-run"@,
        "--no-default-browser-check"@,
        "--disable-background-networking"@,
        "--disable-component-update"@,
        "--disable-sync"@,
        "--disable-extensions"@,
        "--disable-breakpad"@,
        "--metrics-recording-only"@,
        "--password-store=basic"@,
        "--window-size=1280,800"@,
        "about:blank"@,
    ]
}

/// What a browser is started with: any free port, and a window that nobody sees.
pub fn launch_arguments(profile: &str) -> (words: Vec<String>)
    ensures
        text::views(words@) == launch_words(profile@),
{
    let mut words: Vec<String> = Vec::new();
    text::push_text(&mut words, "--remote-debugging-port=0".to_owned());
    text::push_text(&mut words, "--window-position=-32000,-32000".to_owned());
    text::push_text(&mut words, cat2("--user-data-dir=", profile));
    text::push_text(&mut words, "--no-first-run".to_owned());
    text::push_text(&mut words, "--no-default-browser-check".to_owned());
    text::push_text(&mut words, "--disable-background-networking".to_owned());
    text::push_text(&mut words, "--disable-component-update".to_owned());
    text::push_text(&mut words, "--disable-sync".to_owned());
    text::push_text(&mut words, "--disable-extensions".to_owned());
    text::push_text(&mut words, "--disable-breakpad".to_owned());
    text::push_text(&mut words, "--metrics-recording-only".to_owned());
    text::push_text(&mut words, "--password-store=basic".to_owned());
    text::push_text(&mut words, "--window-size=1280,800".to_owned());
    text::push_text(&mut words, "about:blank".to_owned());
    assert(text::views(words@) =~= launch_words(profile@));
    words
}

/// Where a browser says its port.
pub fn port_file(profile: &str) -> (path: String)
    ensures
        !paths::is_verbatim(profile@) ==> paths::is_below(path@, profile@, PORT_FILE@),
{
    proof {
        reveal_strlit("DevToolsActivePort");
    }
    join_path(profile, PORT_FILE)
}

/// The address of a browser: its port stands in the first line of its file, and its path in the
/// second.
pub open spec fn address(lines: Seq<Seq<char>>) -> Option<Seq<char>> {
    if lines.len() == 0 || text::is_blank(lines[0]) {
        None
    } else {
        let path = if lines.len() < 2 || text::is_blank(lines[1]) {
            "/devtools/browser"@
        } else {
            text::trimmed(lines[1])
        };
        Some("ws://127.0.0.1:"@ + text::trimmed(lines[0]) + path)
    }
}

/// The address of a browser, out of the file in which it says its port.
pub fn websocket_url(contents: &str) -> (url: Option<String>)
    ensures
        text::opt_view(url) == address(text::lines(contents@)),
{
    let lines = lines_of(contents);
    let ghost all = text::views(lines@);
    if lines.len() == 0 {
        return None;
    }
    assert(all[0] == lines@[0]@);
    let port = trim(lines[0].as_str());
    if port.as_str().is_empty() {
        return None;
    }
    let mut path = String::new();
    if lines.len() > 1 {
        assert(all[1] == lines@[1]@);
        path = trim(lines[1].as_str());
    }
    if path.as_str().is_empty() {
        path = "/devtools/browser".to_owned();
    }
    Some(cat3("ws://127.0.0.1:", port.as_str(), path.as_str()))
}

/// Whether the port file was written since the browser was started: only what is newer than what
/// lay there before counts. Times count from any common moment.
pub fn is_fresh(previous: Option<u128>, modified: Option<u128>) -> (yes: bool)
    ensures
        yes == (match (modified, previous) {
            (Some(modified), Some(previous)) => modified > previous,
            (Some(_), None) => true,
            (None, _) => false,
        }),
{
    match modified {
        Some(modified) => match previous {
            Some(previous) => modified > previous,
            None => true,
        },
        None => false,
    }
}

/// What comes of a look for the port of a browser.
pub enum PortMove {
    /// The browser is ended, and this is why.
    GiveUp(String),
    /// The browser is reached here.
    Ready(String),
    /// The browser has ended by itself, and this is why it counts as a failure.
    Exited(String),
    /// Nothing yet.
    Wait,
}

/// A look for the port of a browser: whether its time is over, what its file says if it is fresh,
/// and how the browser has ended, if it has.
pub fn look_for_port(late: bool, contents: Option<&str>, exit: Option<&str>) -> (next: PortMove)
    ensures
        match next {
            PortMove::GiveUp(why) => late && why@
                == "等待浏览器调试端口超时(DevToolsActivePort 未出现)"@,
            PortMove::Ready(url) => !late && port_of(contents) == Some(url@),
            PortMove::Exited(why) => !late && port_of(contents) is None && exit is Some && why@
                == "浏览器启动即退出: "@ + exit->0@,
            PortMove::Wait => !late && port_of(contents) is None && exit is None,
        },
{
    if late {
        return PortMove::GiveUp(
            "等待浏览器调试端口超时(DevToolsActivePort 未出现)".to_owned(),
        );
    }
    if let Some(contents) = contents {
        if let Some(url) = websocket_url(contents) {
            return PortMove::Ready(url);
        }
    }
    match exit {
        Some(status) => PortMove::Exited(cat2("浏览器启动即退出: ", status)),
        None => PortMove::Wait,
    }
}

/// The address that a port file gives.
pub open spec fn port_of(contents: Option<&str>) -> Option<Seq<char>> {
    match contents {
        Some(contents) => address(text::lines(contents@)),
        None => None,
    }
}

/// A text with each backslash doubled.
pub open spec fn doubled(text: Seq<char>) -> Seq<char>
    decreases text.len(),
{
    if text.len() == 0 {
        Seq::empty()
    } else if text.last() == '\\' {
        doubled(text.drop_last()) + seq!['\\', '\\']
    } else {
        doubled(text.drop_last()).push(text.last())
    }
}

fn double_backslashes(text: &str) -> (double: String)
    ensures
        double@ == doubled(text@),
{
    let chars = chars_of(text);
    let mut double = String::new();
    let mut i: usize = 0;
    assert(text@.take(0) =~= Seq::empty());
    while i < chars.len()
        invariant
            i <= chars@.len(),
            chars@ == text@,
            double@ == doubled(text@.take(i as int)),
        decreases chars@.len() - i,
    {
        let ghost before = double@;
        let c = chars[i];
        assert(text@.take(i + 1).drop_last() =~= text@.take(i as int));
        if c == '\\' {
            double.push('\\');
            double.push('\\');
            assert(double@ =~= before + seq!['\\', '\\']);
        } else {
            double.push(c);
        }
        i += 1;
    }
    assert(text@.take(text@.len() as int) =~= text@);
    double
}

/// The command that ends the browsers which were left over with a profile. It names the profile, so
/// that no other browser is ended.
pub fn orphan_script(profile: &str) -> (script: String)
    ensures
        script@
            == "Get-CimInstance Win32_Process -Filter \"Name='chrome.exe' or Name='msedge.exe'\" | Where-Object { $_.CommandLine -like '*"@
            + doubled(profile@)
            + "*' } | ForEach-Object { Stop-Process -Id $_.ProcessId -Force -ErrorAction SilentlyContinue }"@,
{
    cat3(
        "Get-CimInstance Win32_Process -Filter \"Name='chrome.exe' or Name='msedge.exe'\" | Where-Object { $_.CommandLine -like '*",
        double_backslashes(profile).as_str(),
        "*' } | ForEach-Object { Stop-Process -Id $_.ProcessId -Force -ErrorAction SilentlyContinue }",
    )
}

/// Why the directory of a profile could not be made.
pub fn profile_failure(error: &str) -> (why: String)
    ensures
        why@ == "创建浏览器 profile 目录失败: "@ + error@,
{
    cat2("创建浏览器 profile 目录失败: ", error)
}

/// Why the directory of downloads could not be made.
pub fn artifacts_failure(error: &str) -> (why: String)
    ensures
        why@ == "创建浏览器产物目录失败: "@ + error@,
{
    cat2("创建浏览器产物目录失败: ", error)
}

/// Why a browser could not be started.
pub fn start_failure(executable: &str, error: &str) -> (why: String)
    ensures
        why@ == "启动浏览器失败("@ + executable@ + "): "@ + error@,
{
    cat4("启动浏览器失败(", executable, "): ", error)
}

/// No browser is found only where none of the places leads to a file.
pub proof fn browser_is_found_where_one_is(chrome: Option<Place>, edge: Option<Place>, usual: Seq<Place>)
    ensures
        browser_path(chrome, edge, usual) is None <==> !(chrome matches Some(place) && place.is_file)
            && !(edge matches Some(place) && place.is_file) && (forall|i: int|
            0 <= i < usual.len() ==> !(#[trigger] usual[i]).is_file),
{
    lemma_first_file(usual, 0);
}

proof fn lemma_first_file(places: Seq<Place>, from: int)
    requires
        0 <= from <= places.len(),
    ensures
        first_file(places, from) is None <==> forall|i: int|
            from <= i < places.len() ==> !(#[trigger] places[i]).is_file,
    decreases places.len() - from,
{
    if from < places.len() {
        lemma_first_file(places, from + 1);
    }
}

} // verus!
