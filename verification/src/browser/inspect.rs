//! Looking into the scripts of a page: finding text in them, reading them, stopping at a line and
//! asking for values there.
use vstd::prelude::*;
use vstd::string::*;

use crate::browser::bytes;
use crate::browser::bytes::cut_text;
use crate::browser::calls::{call, Call, CallView};
use crate::browser::recon;
use crate::browser::recon::{
    BreakpointInfo, BreakpointView, MatchView, PausedView, ReconStore, ScriptInfo, ScriptView,
    SearchMatch,
};
use crate::browser::remote;
use crate::browser::remote::{get_inner, read_text, remote_object_value};
use crate::json;
use crate::json::{object, object_of, Json, JsonNumber, JsonView};
use crate::text;
use crate::text::{
    cat2, cat3, cat4, cat5, decimal_text, ends_with, join, lines_of, push_text, signed_text, str_eq, trim,
};

verus! {

/// How many bytes a script may have to be searched.
pub const SEARCH_SKIP_LEN: u64 = 1_500_000;

/// How many bytes of a script are shown.
pub const SOURCE_BYTES: usize = 100_000;

/// How many lines are found when a breakpoint is set by its text.
pub const BREAKPOINT_MATCHES: usize = 40;

/// Why a search without words is refused.
pub const EMPTY_QUERY: &'static str = "query 不能为空";

/// The views of some lines that were found.
pub open spec fn match_views(matches: Seq<SearchMatch>) -> Seq<MatchView> {
    matches.map_values(|hit: SearchMatch| hit@)
}

/// A search over the scripts of a page, one script at a time.
pub struct Search {
    pub query: String,
    pub is_regex: bool,
    pub case_sensitive: bool,
    pub max_results: usize,
    pub scripts: Vec<ScriptInfo>,
    /// The script that comes next.
    pub at: usize,
    pub matches: Vec<SearchMatch>,
    /// How many scripts were too large.
    pub skipped: usize,
}

/// How far a search has come past the scripts that are too large: where it stands then, and how many
/// it left out.
pub open spec fn past_large(scripts: Seq<ScriptView>, at: int, skipped: int) -> (int, int)
    decreases scripts.len() - at,
{
    if 0 <= at < scripts.len() && scripts[at].length > SEARCH_SKIP_LEN {
        past_large(scripts, at + 1, skipped + 1)
    } else {
        (at, skipped)
    }
}

/// A line that was found, as it is told.
pub open spec fn hit_told(script: ScriptView, hit: JsonView) -> MatchView {
    MatchView {
        script_id: script.script_id,
        url: script.url,
        line_number: json::i64_or_zero(hit, "lineNumber"@),
        line_content: remote::text_at(hit, "lineContent"@),
    }
}

/// The lines that were found, with those of one more script, up to a number of them.
pub open spec fn with_hits(
    matches: Seq<MatchView>,
    script: ScriptView,
    hits: Seq<JsonView>,
    max: nat,
) -> Seq<MatchView>
    decreases hits.len(),
{
    if hits.len() == 0 {
        matches
    } else {
        let before = with_hits(matches, script, hits.drop_last(), max);
        if before.len() >= max {
            before
        } else {
            before.push(hit_told(script, hits.last()))
        }
    }
}

/// How a script is searched.
pub open spec fn search_params(
    script_id: Seq<char>,
    query: Seq<char>,
    case_sensitive: bool,
    is_regex: bool,
) -> JsonView {
    JsonView::Object(
        map![
            "scriptId"@ => JsonView::Text(script_id),
            "query"@ => JsonView::Text(query),
            "caseSensitive"@ => JsonView::Bool(case_sensitive),
            "isRegex"@ => JsonView::Bool(is_regex),
        ],
    )
}

impl Search {
    /// A search that has not gone past its scripts, and left out no more than it went past.
    pub open spec fn is_under_way(&self) -> bool {
        self.skipped <= self.at <= self.scripts@.len()
    }

    /// Whether another search is for the same thing, in the same scripts.
    pub open spec fn is_same_search(&self, other: Search) -> bool {
        &&& self.query == other.query
        &&& self.is_regex == other.is_regex
        &&& self.case_sensitive == other.case_sensitive
        &&& self.max_results == other.max_results
        &&& self.scripts == other.scripts
    }

    /// A search for some words; without words there is none.
    pub fn new(
        query: &str,
        is_regex: bool,
        case_sensitive: bool,
        max_results: usize,
        scripts: Vec<ScriptInfo>,
    ) -> (search: Result<Search, String>)
        ensures
            match search {
                Ok(search) => {
                    &&& query@.len() > 0
                    &&& search.query@ == query@
                    &&& search.is_regex == is_regex
                    &&& search.case_sensitive == case_sensitive
                    &&& search.max_results == max_results
                    &&& search.scripts == scripts
                    &&& search.at == 0
                    &&& search.matches@.len() == 0
                    &&& search.skipped == 0
                },
                Err(why) => query@.len() == 0 && why@ == EMPTY_QUERY@,
            },
    {
        if query.is_empty() {
            return Err(EMPTY_QUERY.to_owned());
        }
        Ok(
            Search {
                query: query.to_owned(),
                is_regex,
                case_sensitive,
                max_results,
                scripts,
                at: 0,
                matches: Vec::new(),
                skipped: 0,
            },
        )
    }

    /// The next script to search; `None` when enough was found, or no script is left. Scripts that
    /// are too large are left out.
    pub fn next(&mut self) -> (asked: Option<Call>)
        requires
            old(self).is_under_way(),
        ensures
            final(self).is_under_way(),
            final(self).is_same_search(*old(self)),
            final(self).matches == old(self).matches,
            ({
                let scripts = recon::script_views(old(self).scripts@);
                let (at, skipped) = past_large(scripts, old(self).at as int, old(self).skipped as int);
                if old(self).matches@.len() >= old(self).max_results {
                    asked is None && *final(self) == *old(self)
                } else {
                    &&& final(self).at == at
                    &&& final(self).skipped == skipped
                    &&& match asked {
                        Some(asked) => at < scripts.len() && asked@ == (CallView {
                            method: "Debugger.searchInContent"@,
                            params: search_params(
                                scripts[at].script_id,
                                old(self).query@,
                                old(self).case_sensitive,
                                old(self).is_regex,
                            ),
                        }),
                        None => at >= scripts.len(),
                    }
                }
            }),
    {
        if self.matches.len() >= self.max_results {
            return None;
        }
        let ghost scripts = recon::script_views(self.scripts@);
        let ghost (start, left_out) = (self.at as int, self.skipped as int);
        while self.at < self.scripts.len() && self.scripts[self.at].length > SEARCH_SKIP_LEN
            invariant
                self.is_under_way(),
                self.is_same_search(*old(self)),
                self.matches == old(self).matches,
                scripts == recon::script_views(self.scripts@),
                past_large(scripts, start, left_out) == past_large(
                    scripts,
                    self.at as int,
                    self.skipped as int,
                ),
            decreases self.scripts@.len() - self.at,
        {
            assert(scripts[self.at as int] == self.scripts@[self.at as int]@);
            self.at = self.at + 1;
            self.skipped = self.skipped + 1;
        }
        if self.at < self.scripts.len() {
            assert(scripts[self.at as int] == self.scripts@[self.at as int]@);
            let mut params = object();
            params.insert("scriptId", Json::Text(self.scripts[self.at].script_id.clone()));
            params.insert("query", Json::Text(self.query.clone()));
            params.insert("caseSensitive", Json::Bool(self.case_sensitive));
            params.insert("isRegex", Json::Bool(self.is_regex));
            Some(call("Debugger.searchInContent", params))
        } else {
            None
        }
    }

    /// What was found in the script that was searched, or why the search fails.
    pub fn hear(&mut self, reply: Result<&Json, &str>) -> (heard: Result<(), String>)
        requires
            old(self).is_under_way(),
            old(self).at < old(self).scripts@.len(),
        ensures
            final(self).is_under_way(),
            final(self).is_same_search(*old(self)),
            final(self).skipped == old(self).skipped,
            ({
                let script = old(self).scripts@[old(self).at as int]@;
                match reply {
                    Ok(value) => {
                        &&& heard is Ok
                        &&& final(self).at == old(self).at + 1
                        &&& match_views(final(self).matches@) == with_hits(
                            match_views(old(self).matches@),
                            script,
                            json::items_or_empty(value@, "result"@),
                            old(self).max_results as nat,
                        )
                    },
                    Err(error) => {
                        &&& heard matches Err(why) && why@ == "检索 "@ + script.url + "("@
                            + script.script_id + ") 失败: "@ + error@
                        &&& *final(self) == *old(self)
                    },
                }
            }),
    {
        let total: usize = self.scripts.len();
        let script = self.scripts[self.at].clone();
        let value = match reply {
            Ok(value) => value,
            Err(error) => {
                let place = cat4("检索 ", script.url.as_str(), "(", script.script_id.as_str());
                return Err(cat3(place.as_str(), ") 失败: ", error));
            },
        };
        if let Some(found) = value.get("result") {
            if let Some(hits) = found.as_array() {
                let ghost all = json::trees(hits@);
                let ghost before = match_views(self.matches@);
                let mut i: usize = 0;
                assert(all.take(0) =~= Seq::empty());
                while i < hits.len()
                    invariant
                        i <= hits@.len(),
                        self.is_under_way(),
                        self.at == old(self).at,
                        self.at < self.scripts@.len(),
                        self.is_same_search(*old(self)),
                        self.skipped == old(self).skipped,
                        all == json::trees(hits@),
                        match_views(self.matches@) == with_hits(
                            before,
                            script@,
                            all.take(i as int),
                            self.max_results as nat,
                        ),
                    decreases hits@.len() - i,
                {
                    assert(all.take(i + 1).drop_last() =~= all.take(i as int));
                    assert(all[i as int] == hits@[i as int]@);
                    if self.matches.len() < self.max_results {
                        let hit = &hits[i];
                        let told = SearchMatch {
                            script_id: script.script_id.clone(),
                            url: script.url.clone(),
                            line_number: hit.i64_or_zero("lineNumber"),
                            line_content: read_text(hit, "lineContent"),
                        };
                        assert(match_views(self.matches@.push(told)) =~= match_views(
                            self.matches@,
                        ).push(told@));
                        self.matches.push(told);
                    }
                    i += 1;
                }
                assert(all.take(all.len() as int) =~= all);
            }
        }
        assert(self.at < total);
        self.at = self.at + 1;
        Ok(())
    }
}

// Reading a script.

/// The script that is read.
pub struct SourceTarget {
    pub script_id: String,
    /// The address by which it was asked for.
    pub url: Option<String>,
}

/// Where the first script stands whose address is, or ends with, a text.
pub open spec fn script_by_url(scripts: Seq<ScriptView>, url: Seq<char>, from: int) -> Option<int>
    decreases scripts.len() - from,
{
    if from < 0 || from >= scripts.len() {
        None
    } else if scripts[from].url == url || url.is_suffix_of(scripts[from].url) {
        Some(from)
    } else {
        script_by_url(scripts, url, from + 1)
    }
}

/// The script that is read: by its id, or else by its address.
pub fn source_target(store: &ReconStore, tab_id: &str, script_id: Option<&str>, url: Option<&str>) -> (target:
    Result<SourceTarget, String>)
    ensures
        ({
            let scripts = recon::scripts_of(store@, tab_id@);
            match target {
                Ok(target) => match (script_id, url) {
                    (Some(id), _) => target.script_id@ == id@ && target.url is None,
                    (None, Some(url)) => {
                        let fitting = recon::scripts_with(scripts, Some(url@));
                        &&& script_by_url(fitting, url@, 0) is Some
                        &&& target.script_id@ == fitting[script_by_url(
                            fitting,
                            url@,
                            0,
                        )->0].script_id
                        &&& text::opt_view(target.url) == Some(url@)
                    },
                    (None, None) => false,
                },
                Err(why) => match (script_id, url) {
                    (Some(_), _) => false,
                    (None, Some(url)) => script_by_url(
                        recon::scripts_with(scripts, Some(url@)),
                        url@,
                        0,
                    ) is None && why@ == "脚本未找到: "@ + url@
                        + "(先 reconScripts 拿 scriptId)"@,
                    (None, None) => why@ == "需要 scriptId 或 url"@,
                },
            }
        }),
{
    if let Some(id) = script_id {
        return Ok(SourceTarget { script_id: id.to_owned(), url: None });
    }
    let wanted = match url {
        Some(wanted) => wanted,
        None => {
            return Err("需要 scriptId 或 url".to_owned());
        },
    };
    let scripts = store.scripts(tab_id, Some(wanted));
    let ghost all = recon::script_views(scripts@);
    let mut i: usize = 0;
    while i < scripts.len()
        invariant
            i <= scripts@.len(),
            script_id is None,
            url == Some(wanted),
            all == recon::script_views(scripts@),
            all == recon::scripts_with(recon::scripts_of(store@, tab_id@), Some(wanted@)),
            script_by_url(all, wanted@, 0) == script_by_url(all, wanted@, i as int),
        decreases scripts@.len() - i,
    {
        assert(all[i as int] == scripts@[i as int]@);
        if str_eq(scripts[i].url.as_str(), wanted) || ends_with(scripts[i].url.as_str(), wanted) {
            return Ok(
                SourceTarget { script_id: scripts[i].script_id.clone(), url: Some(wanted.to_owned()) },
            );
        }
        i += 1;
    }
    Err(cat3("脚本未找到: ", wanted, "(先 reconScripts 拿 scriptId)"))
}

/// The call that reads a script.
pub fn source_call(target: &SourceTarget) -> (asked: Call)
    ensures
        asked@ == (CallView {
            method: "Debugger.getScriptSource"@,
            params: JsonView::Object(map!["scriptId"@ => JsonView::Text(target.script_id@)]),
        }),
{
    call("Debugger.getScriptSource", object_of("scriptId", Json::Text(target.script_id.clone())))
}

/// Why a script could not be read.
pub fn source_failure(error: &str) -> (why: String)
    ensures
        why@ == "取源码失败: "@ + error@,
{
    cat2("取源码失败: ", error)
}

/// The text of a script, as far as it is shown.
pub open spec fn shown_source(reply: JsonView) -> Seq<char> {
    bytes::cut(remote::text_at(reply, "scriptSource"@), SOURCE_BYTES)
}

/// The line at which a part of a script begins.
pub open spec fn first_line(start_line: Option<i64>) -> int {
    match start_line {
        Some(line) => if line > 0 {
            line as int
        } else {
            0
        },
        None => 0,
    }
}

/// The line before which a part of a script ends.
pub open spec fn end_line(start: int, last_line: Option<i64>, total: int) -> int {
    let wished = match last_line {
        Some(line) => if line + 1 > start {
            line + 1
        } else {
            start
        },
        None => total,
    };
    if wished < total {
        wished
    } else {
        total
    }
}

/// A part of a script as it is told.
pub open spec fn source_told(
    script_id: Seq<char>,
    url: Seq<char>,
    reply: JsonView,
    start_line: Option<i64>,
    last_line: Option<i64>,
) -> JsonView {
    let lines = text::lines(shown_source(reply));
    let start = first_line(start_line);
    let end = end_line(start, last_line, lines.len() as int);
    JsonView::Object(
        map![
            "scriptId"@ => JsonView::Text(script_id),
            "url"@ => JsonView::Text(url),
            "startLine"@ => json::whole(start as u64),
            "endLine"@ => json::whole(end as u64),
            "totalLines"@ => json::whole(lines.len() as u64),
            "truncated"@ => JsonView::Bool(
                bytes::is_longer(remote::text_at(reply, "scriptSource"@), SOURCE_BYTES),
            ),
            "source"@ => JsonView::Text(text::joined(lines.subrange(start, end), "\n"@)),
        ],
    )
}

/// Whether a part of a script is there: the script can be cut where it is too long, and has the line
/// at which the part begins.
pub open spec fn has_part(reply: JsonView, start_line: Option<i64>, last_line: Option<i64>) -> bool {
    &&& bytes::can_cut(remote::text_at(reply, "scriptSource"@), SOURCE_BYTES)
    &&& first_line(start_line) <= text::lines(shown_source(reply)).len()
    &&& last_line != Some(i64::MAX)
}

/// Whether a part of a script is there.
pub fn part_is_there(reply: &Json, start_line: Option<i64>, last_line: Option<i64>) -> (yes: bool)
    ensures
        yes == has_part(reply@, start_line, last_line),
{
    let source = read_text(reply, "scriptSource");
    if !bytes::fits_the_cut(source.as_str(), SOURCE_BYTES) {
        return false;
    }
    let (shown, _truncated) = cut_text(source.as_str(), SOURCE_BYTES);
    let lines = lines_of(shown.as_str());
    assert(text::views(lines@).len() == lines@.len());
    let in_range = match start_line {
        Some(line) => line <= 0 || line as u64 <= lines.len() as u64,
        None => true,
    };
    let ends = match last_line {
        Some(line) => line != i64::MAX,
        None => true,
    };
    in_range && ends
}

/// A part of a script, without its lines before `start_line` and after `last_line`.
pub fn tell_source(
    store: &ReconStore,
    tab_id: &str,
    target: &SourceTarget,
    reply: &Json,
    start_line: Option<i64>,
    last_line: Option<i64>,
) -> (told: Json)
    requires
        has_part(reply@, start_line, last_line),
    ensures
        told@ == source_told(
            target.script_id@,
            match target.url {
                Some(url) => url@,
                None => recon::known_address(
                    recon::scripts_of(store@, tab_id@),
                    target.script_id@,
                ),
            },
            reply@,
            start_line,
            last_line,
        ),
{
    let source = read_text(reply, "scriptSource");
    let (shown, truncated) = cut_text(source.as_str(), SOURCE_BYTES);
    let lines = lines_of(shown.as_str());
    let ghost all = text::views(lines@);
    let total: usize = lines.len();
    let start: usize = match start_line {
        Some(line) => if line > 0 {
            line as usize
        } else {
            0
        },
        None => 0,
    };
    assert(start == first_line(start_line));
    let end: usize = match last_line {
        Some(line) => if line < 0 {
            start
        } else if (line as u64) + 1 < total as u64 {
            if line as usize + 1 > start {
                line as usize + 1
            } else {
                start
            }
        } else {
            total
        },
        None => total,
    };
    assert(end == end_line(start as int, last_line, total as int));
    let mut part: Vec<String> = Vec::new();
    let mut i: usize = start;
    assert(text::views(part@) =~= all.subrange(start as int, start as int));
    while i < end
        invariant
            start <= i <= end <= lines@.len(),
            all == text::views(lines@),
            text::views(part@) == all.subrange(start as int, i as int),
        decreases end - i,
    {
        push_text(&mut part, lines[i].clone());
        assert(all.subrange(start as int, i + 1) =~= all.subrange(start as int, i as int).push(
            all[i as int],
        ));
        i += 1;
    }
    let url = match &target.url {
        Some(url) => url.clone(),
        None => store.script_url(tab_id, target.script_id.as_str()),
    };
    let mut told = object();
    told.insert("scriptId", Json::Text(target.script_id.clone()));
    told.insert("url", Json::Text(url));
    told.insert("startLine", Json::Number(JsonNumber::Unsigned(start as u64)));
    told.insert("endLine", Json::Number(JsonNumber::Unsigned(end as u64)));
    told.insert("totalLines", Json::Number(JsonNumber::Unsigned(total as u64)));
    told.insert("truncated", Json::Bool(truncated));
    told.insert("source", Json::Text(join(&part, "\n")));
    told
}

// Breakpoints.

/// Which of the lines that were found is meant: they count from one, and none counts as one.
pub open spec fn meant_hit(occurrence: usize) -> int {
    if occurrence == 0 {
        0
    } else {
        occurrence - 1
    }
}

/// The line at which a breakpoint is set, or why it cannot be.
pub fn choose_hit(matches: &Vec<SearchMatch>, query: &str, occurrence: usize) -> (hit: Result<usize, String>)
    ensures
        match hit {
            Ok(at) => at == meant_hit(occurrence) && at < matches@.len()
                && matches@[at as int].url@.len() > 0,
            Err(why) => if meant_hit(occurrence) >= matches@.len() {
                why@ == "检索「"@ + query@ + "」无第 "@ + text::decimal(occurrence as nat)
                    + " 个命中"@
            } else {
                let hit = matches@[meant_hit(occurrence)];
                &&& hit.url@.len() == 0
                &&& why@ == "命中脚本无 URL(内联/动态脚本,scriptId "@ + hit.script_id@
                    + "),无法设 URL 级断点;换更独特的文本"@
            },
        },
{
    let at: usize = if occurrence == 0 {
        0
    } else {
        occurrence - 1
    };
    if at >= matches.len() {
        return Err(
            cat5(
                "检索「",
                query,
                "」无第 ",
                decimal_text(occurrence as u64).as_str(),
                " 个命中",
            ),
        );
    }
    if matches[at].url.as_str().is_empty() {
        return Err(
            cat3(
                "命中脚本无 URL(内联/动态脚本,scriptId ",
                matches[at].script_id.as_str(),
                "),无法设 URL 级断点;换更独特的文本",
            ),
        );
    }
    Ok(at)
}

/// What comes of a breakpoint that is to be set.
pub enum BreakpointMove {
    /// There is one already.
    Known(BreakpointInfo),
    Ask(Call),
}

/// How a breakpoint is set. A condition of nothing but spaces is none.
pub open spec fn breakpoint_params(url: Seq<char>, line: i64, condition: Option<Seq<char>>) -> JsonView {
    let plain = map![
        "lineNumber"@ => json::integer_view(line),
        "url"@ => JsonView::Text(url),
        "columnNumber"@ => json::whole(0),
    ];
    if condition is Some && !text::is_blank(condition->0) {
        JsonView::Object(plain.insert("condition"@, JsonView::Text(condition->0)))
    } else {
        JsonView::Object(plain)
    }
}

/// Sets a breakpoint at a line, unless there is one.
pub fn plan_breakpoint(store: &ReconStore, hit: &SearchMatch, condition: Option<&str>) -> (next: BreakpointMove)
    ensures
        match recon::breakpoint_on(store@.breakpoints, hit.url@, hit.line_number, 0) {
            Some(at) => next matches BreakpointMove::Known(breakpoint) && breakpoint@
                == store@.breakpoints[at],
            None => next matches BreakpointMove::Ask(asked) && asked@ == (CallView {
                method: "Debugger.setBreakpointByUrl"@,
                params: breakpoint_params(
                    hit.url@,
                    hit.line_number,
                    text::opt_str_view(condition),
                ),
            }),
        },
{
    if let Some(known) = store.breakpoint_at(hit.url.as_str(), hit.line_number) {
        return BreakpointMove::Known(known);
    }
    let mut params = object();
    params.insert("lineNumber", Json::integer(hit.line_number));
    params.insert("url", Json::Text(hit.url.clone()));
    params.insert("columnNumber", Json::Number(JsonNumber::Unsigned(0)));
    if let Some(condition) = condition {
        if !trim(condition).as_str().is_empty() {
            params.insert("condition", Json::text(condition));
        }
    }
    BreakpointMove::Ask(call("Debugger.setBreakpointByUrl", params))
}

/// A breakpoint as the browser set it.
pub open spec fn breakpoint_told(reply: JsonView, url: Seq<char>, line: i64, condition: Option<Seq<char>>) -> BreakpointView {
    BreakpointView {
        breakpoint_id: remote::text_at(reply, "breakpointId"@),
        url,
        line_number: line,
        condition,
    }
}

/// The browser has set a breakpoint, which is kept, or has not.
pub fn breakpoint_set(
    store: &mut ReconStore,
    hit: &SearchMatch,
    condition: Option<&str>,
    reply: Result<&Json, &str>,
) -> (set: Result<BreakpointInfo, String>)
    ensures
        match reply {
            Ok(value) => {
                let told = breakpoint_told(
                    value@,
                    hit.url@,
                    hit.line_number,
                    text::opt_str_view(condition),
                );
                &&& set matches Ok(breakpoint) && breakpoint@ == told
                &&& final(store)@ == recon::breakpoint_kept(old(store)@, told)
            },
            Err(error) => {
                &&& set matches Err(why) && why@ == "设断点失败("@ + hit.url@ + ":"@
                    + text::signed_decimal(hit.line_number as int) + "): "@ + error@
                &&& final(store)@ == old(store)@
            },
        },
{
    match reply {
        Ok(value) => {
            let condition = match condition {
                Some(condition) => Some(condition.to_owned()),
                None => None,
            };
            let breakpoint = BreakpointInfo {
                breakpoint_id: read_text(value, "breakpointId"),
                url: hit.url.clone(),
                line_number: hit.line_number,
                condition,
            };
            store.keep_breakpoint(breakpoint.clone());
            Ok(breakpoint)
        },
        Err(error) => {
            let line = signed_text(hit.line_number);
            let place = cat4("设断点失败(", hit.url.as_str(), ":", line.as_str());
            Err(cat3(place.as_str(), "): ", error))
        },
    }
}

/// The call that removes a breakpoint.
pub fn removal_call(breakpoint_id: &str) -> (asked: Call)
    ensures
        asked@ == (CallView {
            method: "Debugger.removeBreakpoint"@,
            params: JsonView::Object(map!["breakpointId"@ => JsonView::Text(breakpoint_id@)]),
        }),
{
    call("Debugger.removeBreakpoint", object_of("breakpointId", Json::text(breakpoint_id)))
}

// A page that stands still.

/// Why an expression cannot be evaluated in a frame, if it cannot.
pub open spec fn eval_refusal(paused: Option<PausedView>, tab: Seq<char>, frame: usize) -> Option<Seq<char>> {
    match paused {
        None => Some("页面未暂停;先下断点并触发"@),
        Some(paused) => if paused.tab_id != tab {
            Some("暂停发生在 tab "@ + paused.tab_id + ",不是当前 tab"@)
        } else if frame >= paused.frames.len() {
            Some(
                "帧 "@ + text::decimal(frame as nat) + " 不存在(共 "@ + text::decimal(
                    paused.frames.len(),
                ) + " 帧)"@,
            )
        } else {
            None
        },
    }
}

/// How an expression is evaluated in a frame.
pub open spec fn eval_params(call_frame_id: Seq<char>, expression: Seq<char>) -> JsonView {
    JsonView::Object(
        map![
            "callFrameId"@ => JsonView::Text(call_frame_id),
            "expression"@ => JsonView::Text(expression),
            "returnByValue"@ => JsonView::Bool(true),
            "generatePreview"@ => JsonView::Bool(true),
        ],
    )
}

/// Evaluates an expression in a frame of the page that stands still.
pub fn debug_eval(store: &ReconStore, tab_id: &str, frame_index: usize, expression: &str) -> (asked: Result<
    Call,
    String,
>)
    ensures
        match asked {
            Ok(asked) => eval_refusal(store@.paused, tab_id@, frame_index) is None && asked@
                == (CallView {
                method: "Debugger.evaluateOnCallFrame"@,
                params: eval_params(
                    store@.paused->0.frames[frame_index as int].call_frame_id,
                    expression@,
                ),
            }),
            Err(why) => eval_refusal(store@.paused, tab_id@, frame_index) == Some(why@),
        },
{
    let paused = match store.paused_info() {
        Some(paused) => paused,
        None => {
            return Err("页面未暂停;先下断点并触发".to_owned());
        },
    };
    if !str_eq(paused.tab_id.as_str(), tab_id) {
        return Err(cat3("暂停发生在 tab ", paused.tab_id.as_str(), ",不是当前 tab"));
    }
    if frame_index >= paused.frames.len() {
        return Err(
            cat5(
                "帧 ",
                decimal_text(frame_index as u64).as_str(),
                " 不存在(共 ",
                decimal_text(paused.frames.len() as u64).as_str(),
                " 帧)",
            ),
        );
    }
    let frame = &paused.frames[frame_index];
    assert(recon::frame_views(paused.frames@)[frame_index as int] == frame@);
    let mut params = object();
    params.insert("callFrameId", Json::Text(frame.call_frame_id.clone()));
    params.insert("expression", Json::text(expression));
    params.insert("returnByValue", Json::Bool(true));
    params.insert("generatePreview", Json::Bool(true));
    Ok(call("Debugger.evaluateOnCallFrame", params))
}

/// What an expression threw, if it threw something.
pub open spec fn thrown(reply: JsonView) -> Option<Seq<char>> {
    match json::member(reply, "exceptionDetails"@) {
        Some(details) => {
            let said = match remote::inner_member(details, "exception"@, "description"@) {
                Some(said) => Some(said),
                None => json::member(details, "text"@),
            };
            match said {
                Some(JsonView::Text(text)) => Some(text),
                _ => Some("表达式抛异常"@),
            }
        },
        None => None,
    }
}

/// What an expression came to.
pub fn tell_eval(reply: Result<&Json, &str>) -> (told: Result<Json, String>)
    ensures
        match reply {
            Ok(value) => match thrown(value@) {
                Some(why) => told matches Err(said) && said@ == why,
                None => told matches Ok(told) && told@ == remote::remote_value(
                    match json::member(value@, "result"@) {
                        Some(result) => result,
                        None => JsonView::Null,
                    },
                ),
            },
            Err(error) => told matches Err(why) && why@ == "帧内求值失败: "@ + error@,
        },
{
    let value = match reply {
        Ok(value) => value,
        Err(error) => {
            return Err(cat2("帧内求值失败: ", error));
        },
    };
    if let Some(details) = value.get("exceptionDetails") {
        let said = match get_inner(details, "exception", "description") {
            Some(said) => Some(said),
            None => details.get("text"),
        };
        return Err(
            match said {
                Some(said) => match said.as_str() {
                    Some(text) => text.to_owned(),
                    None => "表达式抛异常".to_owned(),
                },
                None => "表达式抛异常".to_owned(),
            },
        );
    }
    match value.get("result") {
        Some(result) => Ok(remote_object_value(result)),
        None => Ok(remote_object_value(&Json::Null)),
    }
}

/// The call that goes one step on.
pub open spec fn step_method(direction: Seq<char>) -> Option<Seq<char>> {
    if direction == "over"@ {
        Some("Debugger.stepOver"@)
    } else if direction == "into"@ {
        Some("Debugger.stepInto"@)
    } else if direction == "out"@ {
        Some("Debugger.stepOut"@)
    } else {
        None
    }
}

/// Goes one step on in a page that stands still.
pub fn step(store: &ReconStore, tab_id: &str, direction: &str) -> (asked: Result<Call, String>)
    ensures
        match asked {
            Ok(asked) => {
                &&& recon::stands_still(store@, Some(tab_id@))
                &&& step_method(direction@) == Some(asked@.method)
                &&& asked@.params == JsonView::Object(Map::empty())
            },
            Err(why) => if step_method(direction@) is None {
                why@ == "direction 只能是 over/into/out,收到 "@ + direction@
            } else {
                !recon::stands_still(store@, Some(tab_id@)) && why@ == "页面未暂停"@
            },
        },
{
    let method = if str_eq(direction, "over") {
        "Debugger.stepOver"
    } else if str_eq(direction, "into") {
        "Debugger.stepInto"
    } else if str_eq(direction, "out") {
        "Debugger.stepOut"
    } else {
        return Err(cat2("direction 只能是 over/into/out,收到 ", direction));
    };
    if !store.is_paused(Some(tab_id)) {
        return Err("页面未暂停".to_owned());
    }
    Ok(call(method, object()))
}

/// Lets a page that stands still go on. The breakpoints stay.
pub fn resume(store: &ReconStore, tab_id: &str) -> (asked: Result<Call, String>)
    ensures
        match asked {
            Ok(asked) => recon::stands_still(store@, Some(tab_id@)) && asked@ == (CallView {
                method: "Debugger.resume"@,
                params: JsonView::Object(Map::empty()),
            }),
            Err(why) => !recon::stands_still(store@, Some(tab_id@)) && why@ == "页面未暂停"@,
        },
{
    if !store.is_paused(Some(tab_id)) {
        return Err("页面未暂停".to_owned());
    }
    Ok(call("Debugger.resume", object()))
}

/// A page goes on, whether or not it told so itself.
pub fn gone_on(store: &mut ReconStore)
    ensures
        final(store)@ == recon::resumed(old(store)@),
{
    store.forget_pause();
}

/// A search finds no more than it was asked for.
pub proof fn search_is_bounded(
    matches: Seq<MatchView>,
    script: ScriptView,
    hits: Seq<JsonView>,
    max: nat,
)
    requires
        matches.len() <= max,
    ensures
        with_hits(matches, script, hits, max).len() <= max,
        matches.is_prefix_of(with_hits(matches, script, hits, max)),
    decreases hits.len(),
{
    if hits.len() > 0 {
        search_is_bounded(matches, script, hits.drop_last(), max);
    }
}

/// A script that is too large is never searched.
pub proof fn large_scripts_are_left_out(scripts: Seq<ScriptView>, at: int, skipped: int)
    requires
        0 <= at <= scripts.len(),
    ensures
        ({
            let (next, left_out) = past_large(scripts, at, skipped);
            &&& at <= next <= scripts.len()
            &&& next < scripts.len() ==> scripts[next].length <= SEARCH_SKIP_LEN
            &&& left_out - skipped == next - at
        }),
    decreases scripts.len() - at,
{
    if at < scripts.len() && scripts[at].length > SEARCH_SKIP_LEN {
        large_scripts_are_left_out(scripts, at + 1, skipped + 1);
    }
}

/// A breakpoint is set once: when it has been set at a line, asking for one there finds it.
pub proof fn breakpoint_is_set_once(breakpoints: Seq<BreakpointView>, told: BreakpointView, from: int)
    requires
        0 <= from <= breakpoints.len(),
    ensures
        recon::breakpoint_on(breakpoints.push(told), told.url, told.line_number, from) is Some,
    decreases breakpoints.len() - from,
{
    if from < breakpoints.len() {
        breakpoint_is_set_once(breakpoints, told, from + 1);
    }
}

} // verus!
