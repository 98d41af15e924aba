//! Agent presets: what decides which kind of agent a session is.
//!
//! A preset names the tools, a persona and feature switches. Switched-off features narrow the
//! tools first, the list of tools narrows them further; neither ever adds one.
use vstd::prelude::*;
use vstd::string::*;

use crate::text;
use crate::text::{ascii_digit, ascii_lower, chars_of};

verus! {

/// The preset of a session that names none.
pub const DEFAULT_PRESET_ID: &'static str = "standard";

/// `^[a-z0-9][a-z0-9-]*$`.
pub open spec fn preset_id(id: Seq<char>) -> bool {
    &&& id.len() > 0
    &&& id[0] != '-'
    &&& forall|i: int|
        0 <= i < id.len() ==> text::is_lower(#[trigger] id[i]) || text::is_digit(id[i]) || id[i]
            == '-'
}

/// Whether a text is a preset id. An id becomes the name of a directory, so this is asked before
/// a path is made of it.
pub fn is_valid_preset_id(id: &str) -> (yes: bool)
    ensures
        yes == preset_id(id@),
{
    let chars = chars_of(id);
    if chars.len() == 0 || !(ascii_lower(chars[0]) || ascii_digit(chars[0])) {
        return false;
    }
    let mut i: usize = 0;
    while i < chars.len()
        invariant
            i <= chars@.len(),
            chars@ == id@,
            forall|j: int|
                0 <= j < i ==> text::is_lower(#[trigger] id@[j]) || text::is_digit(id@[j]) || id@[j]
                    == '-',
        decreases chars@.len() - i,
    {
        if !(ascii_lower(chars[i]) || ascii_digit(chars[i]) || chars[i] == '-') {
            assert(!(text::is_lower(id@[i as int]) || text::is_digit(id@[i as int]) || id@[i as int]
                == '-'));
            return false;
        }
        i += 1;
    }
    true
}

/// Where a preset comes from. A shipped preset is neither written nor deleted.
#[derive(Debug, Clone, Copy, PartialEq, Eq, Structural)]
pub enum PresetTrust {
    Shipped,
    User,
}

impl PresetTrust {
    /// The name of this source.
    pub fn as_str(self) -> (name: &'static str)
        ensures
            name@ == (match self {
                PresetTrust::Shipped => "shipped"@,
                PresetTrust::User => "user"@,
            }),
    {
        match self {
            PresetTrust::Shipped => "shipped",
            PresetTrust::User => "user",
        }
    }
}

/// Feature switches. All are on by default.
#[derive(Debug, Clone, Copy, PartialEq, Eq, Structural)]
pub struct PresetFeatures {
    /// Workspace instructions are injected.
    pub agents_md: bool,
    /// Project memory.
    pub memory: bool,
    /// Context compaction.
    pub compaction: bool,
    /// Goal mode.
    pub goal: bool,
    pub skills: bool,
    pub subagents: bool,
    /// Background jobs.
    pub jobs: bool,
    pub browser: bool,
    /// Questions to the user.
    pub ask: bool,
    /// The tool that ends plan mode.
    pub plan_mode: bool,
}

/// All features on, or all off.
pub open spec fn all_features(on: bool) -> PresetFeatures {
    PresetFeatures {
        agents_md: on,
        memory: on,
        compaction: on,
        goal: on,
        skills: on,
        subagents: on,
        jobs: on,
        browser: on,
        ask: on,
        plan_mode: on,
    }
}

impl Default for PresetFeatures {
    fn default() -> (features: Self)
        ensures
            features == all_features(true),
    {
        PresetFeatures {
            agents_md: true,
            memory: true,
            compaction: true,
            goal: true,
            skills: true,
            subagents: true,
            jobs: true,
            browser: true,
            ask: true,
            plan_mode: true,
        }
    }
}

/// The tools of a feature, if the feature is off.
pub open spec fn dropped(on: bool, tools: Seq<Seq<char>>) -> Seq<Seq<char>> {
    if on {
        Seq::empty()
    } else {
        tools
    }
}

/// The tools of background jobs.
pub open spec fn job_tools() -> Seq<Seq<char>> {
    seq!["job_start"@, "job_list"@, "job_output"@, "job_kill"@]
}

/// The tools of subagents.
pub open spec fn subagent_tools() -> Seq<Seq<char>> {
    seq![
        "spawn_agent"@,
        "fork_agent"@,
        "send_message"@,
        "interrupt_agent"@,
        "list_agents"@,
        "wait_agent"@,
    ]
}

/// The tools that go with the features that are off.
pub open spec fn excluded(features: PresetFeatures) -> Seq<Seq<char>> {
    dropped(features.goal, seq!["get_goal"@, "update_goal"@]) + dropped(
        features.skills,
        seq!["skill"@],
    ) + dropped(features.subagents, subagent_tools()) + dropped(features.jobs, job_tools())
        + dropped(features.browser, seq!["browser"@]) + dropped(features.ask, seq!["ask"@])
        + dropped(features.plan_mode, seq!["exit_plan"@])
}

/// The views of a list of borrowed strings.
pub open spec fn str_views(texts: Seq<&'static str>) -> Seq<Seq<char>> {
    texts.map_values(|text: &'static str| text@)
}

/// Adds one tool.
fn add_tool(tools: &mut Vec<&'static str>, tool: &'static str)
    ensures
        str_views(final(tools)@) == str_views(old(tools)@).push(tool@),
{
    assert(str_views(tools@.push(tool)) =~= str_views(tools@).push(tool@));
    tools.push(tool);
}

fn single(tool: &'static str) -> (tools: Vec<&'static str>)
    ensures
        str_views(tools@) == seq![tool@],
{
    let mut tools: Vec<&'static str> = Vec::new();
    tools.push(tool);
    assert(str_views(tools@) =~= seq![tool@]);
    tools
}

fn goal_family() -> (tools: Vec<&'static str>)
    ensures
        str_views(tools@) == seq!["get_goal"@, "update_goal"@],
{
    let mut tools = single("get_goal");
    add_tool(&mut tools, "update_goal");
    assert(str_views(tools@) =~= seq!["get_goal"@, "update_goal"@]);
    tools
}

fn job_family() -> (tools: Vec<&'static str>)
    ensures
        str_views(tools@) == job_tools(),
{
    let mut tools = single("job_start");
    add_tool(&mut tools, "job_list");
    add_tool(&mut tools, "job_output");
    add_tool(&mut tools, "job_kill");
    assert(str_views(tools@) =~= job_tools());
    tools
}

fn subagent_family() -> (tools: Vec<&'static str>)
    ensures
        str_views(tools@) == subagent_tools(),
{
    let mut tools = single("spawn_agent");
    add_tool(&mut tools, "fork_agent");
    add_tool(&mut tools, "send_message");
    add_tool(&mut tools, "interrupt_agent");
    add_tool(&mut tools, "list_agents");
    add_tool(&mut tools, "wait_agent");
    assert(str_views(tools@) =~= subagent_tools());
    tools
}

/// Adds the tools of a feature that is off.
fn add_dropped(tools: &mut Vec<&'static str>, on: bool, family: Vec<&'static str>)
    ensures
        str_views(final(tools)@) == str_views(old(tools)@) + dropped(on, str_views(family@)),
{
    if !on {
        let mut family = family;
        assert(str_views(tools@ + family@) =~= str_views(tools@) + str_views(family@));
        tools.append(&mut family);
    } else {
        assert(str_views(tools@) + Seq::<Seq<char>>::empty() =~= str_views(tools@));
    }
}

impl PresetFeatures {
    /// All features off.
    pub fn all_off() -> (features: Self)
        ensures
            features == all_features(false),
    {
        PresetFeatures {
            agents_md: false,
            memory: false,
            compaction: false,
            goal: false,
            skills: false,
            subagents: false,
            jobs: false,
            browser: false,
            ask: false,
            plan_mode: false,
        }
    }

    /// Whether all features are on.
    pub fn is_default(&self) -> (yes: bool)
        ensures
            yes == (*self == all_features(true)),
    {
        *self == PresetFeatures::default()
    }

    /// The tools that go with the features that are off.
    pub fn excluded_tools(&self) -> (tools: Vec<&'static str>)
        ensures
            str_views(tools@) == excluded(*self),
    {
        let mut tools: Vec<&'static str> = Vec::new();
        assert(str_views(tools@) =~= Seq::empty());
        add_dropped(&mut tools, self.goal, goal_family());
        assert(str_views(tools@) =~= dropped(self.goal, seq!["get_goal"@, "update_goal"@]));
        add_dropped(&mut tools, self.skills, single("skill"));
        add_dropped(&mut tools, self.subagents, subagent_family());
        add_dropped(&mut tools, self.jobs, job_family());
        add_dropped(&mut tools, self.browser, single("browser"));
        add_dropped(&mut tools, self.ask, single("ask"));
        add_dropped(&mut tools, self.plan_mode, single("exit_plan"));
        tools
    }
}

/// Whether every feature that is on in one is on in the other.
pub open spec fn is_narrower(features: PresetFeatures, wider: PresetFeatures) -> bool {
    &&& features.agents_md ==> wider.agents_md
    &&& features.memory ==> wider.memory
    &&& features.compaction ==> wider.compaction
    &&& features.goal ==> wider.goal
    &&& features.skills ==> wider.skills
    &&& features.subagents ==> wider.subagents
    &&& features.jobs ==> wider.jobs
    &&& features.browser ==> wider.browser
    &&& features.ask ==> wider.ask
    &&& features.plan_mode ==> wider.plan_mode
}

/// Whether a tool goes with a feature that is off.
pub open spec fn goes_with_off(features: PresetFeatures, tool: Seq<char>) -> bool {
    ||| !features.goal && (tool == "get_goal"@ || tool == "update_goal"@)
    ||| !features.skills && tool == "skill"@
    ||| !features.subagents && subagent_tools().contains(tool)
    ||| !features.jobs && job_tools().contains(tool)
    ||| !features.browser && tool == "browser"@
    ||| !features.ask && tool == "ask"@
    ||| !features.plan_mode && tool == "exit_plan"@
}

/// What tells the names of the tools apart: how long they are, and two of their characters.
spec fn mark(name: Seq<char>) -> (nat, char, char) {
    (
        name.len(),
        name[0],
        if name.len() > 4 {
            name[4]
        } else {
            ' '
        },
    )
}

/// Where a tool stands among those that go with features.
spec fn rank(tool: Seq<char>) -> int {
    if tool == "get_goal"@ {
        0
    } else if tool == "update_goal"@ {
        1
    } else if tool == "skill"@ {
        2
    } else if tool == "spawn_agent"@ {
        3
    } else if tool == "fork_agent"@ {
        4
    } else if tool == "send_message"@ {
        5
    } else if tool == "interrupt_agent"@ {
        6
    } else if tool == "list_agents"@ {
        7
    } else if tool == "wait_agent"@ {
        8
    } else if tool == "job_start"@ {
        9
    } else if tool == "job_list"@ {
        10
    } else if tool == "job_output"@ {
        11
    } else if tool == "job_kill"@ {
        12
    } else if tool == "browser"@ {
        13
    } else if tool == "ask"@ {
        14
    } else if tool == "exit_plan"@ {
        15
    } else {
        16
    }
}

proof fn lemma_ranks()
    ensures
        rank("get_goal"@) == 0,
        rank("update_goal"@) == 1,
        rank("skill"@) == 2,
        rank("spawn_agent"@) == 3,
        rank("fork_agent"@) == 4,
        rank("send_message"@) == 5,
        rank("interrupt_agent"@) == 6,
        rank("list_agents"@) == 7,
        rank("wait_agent"@) == 8,
        rank("job_start"@) == 9,
        rank("job_list"@) == 10,
        rank("job_output"@) == 11,
        rank("job_kill"@) == 12,
        rank("browser"@) == 13,
        rank("ask"@) == 14,
        rank("exit_plan"@) == 15,
{
    reveal_strlit("get_goal");
    reveal_strlit("update_goal");
    reveal_strlit("skill");
    reveal_strlit("spawn_agent");
    reveal_strlit("fork_agent");
    reveal_strlit("send_message");
    reveal_strlit("interrupt_agent");
    reveal_strlit("list_agents");
    reveal_strlit("wait_agent");
    reveal_strlit("job_start");
    reveal_strlit("job_list");
    reveal_strlit("job_output");
    reveal_strlit("job_kill");
    reveal_strlit("browser");
    reveal_strlit("ask");
    reveal_strlit("exit_plan");
    assert(mark("get_goal"@) == (8nat, 'g', 'g'));
    assert(mark("update_goal"@) == (11nat, 'u', 't'));
    assert(mark("skill"@) == (5nat, 's', 'l'));
    assert(mark("spawn_agent"@) == (11nat, 's', 'n'));
    assert(mark("fork_agent"@) == (10nat, 'f', '_'));
    assert(mark("send_message"@) == (12nat, 's', '_'));
    assert(mark("interrupt_agent"@) == (15nat, 'i', 'r'));
    assert(mark("list_agents"@) == (11nat, 'l', '_'));
    assert(mark("wait_agent"@) == (10nat, 'w', '_'));
    assert(mark("job_start"@) == (9nat, 'j', 's'));
    assert(mark("job_list"@) == (8nat, 'j', 'l'));
    assert(mark("job_output"@) == (10nat, 'j', 'o'));
    assert(mark("job_kill"@) == (8nat, 'j', 'k'));
    assert(mark("browser"@) == (7nat, 'b', 's'));
    assert(mark("ask"@) == (3nat, 'a', ' '));
    assert(mark("exit_plan"@) == (9nat, 'e', '_'));
}

/// Whether some tools stand in their order, within a part of it.
#[verifier::opaque]
spec fn are_ranked(tools: Seq<Seq<char>>, from: int, to: int) -> bool {
    &&& forall|i: int| 0 <= i < tools.len() ==> from <= rank(#[trigger] tools[i]) < to
    &&& forall|i: int, j: int|
        0 <= i < j < tools.len() ==> rank(#[trigger] tools[i]) < rank(#[trigger] tools[j])
}

proof fn lemma_ranked_append(
    first: Seq<Seq<char>>,
    on: bool,
    family: Seq<Seq<char>>,
    middle: int,
    to: int,
)
    requires
        are_ranked(first, 0, middle),
        are_ranked(family, middle, to),
        0 <= middle <= to,
    ensures
        are_ranked(first + dropped(on, family), 0, to),
        forall|tool: Seq<char>| #[trigger]
            (first + dropped(on, family)).contains(tool) <==> first.contains(tool) || (!on
                && family.contains(tool)),
{
    reveal(are_ranked);
    let both = first + dropped(on, family);
    assert forall|tool: Seq<char>| #[trigger] both.contains(tool) <==> first.contains(tool) || (!on
        && family.contains(tool)) by {
        if first.contains(tool) {
            let at = choose|at: int| 0 <= at < first.len() && first[at] == tool;
            assert(both[at] == tool);
        }
        if !on && family.contains(tool) {
            let at = choose|at: int| 0 <= at < family.len() && family[at] == tool;
            assert(both[first.len() + at] == tool);
        }
    }
}

/// The tools of each feature stand in their order.
proof fn lemma_families()
    ensures
        are_ranked(Seq::empty(), 0, 0),
        are_ranked(seq!["get_goal"@, "update_goal"@], 0, 2),
        are_ranked(seq!["skill"@], 2, 3),
        are_ranked(subagent_tools(), 3, 9),
        are_ranked(job_tools(), 9, 13),
        are_ranked(seq!["browser"@], 13, 14),
        are_ranked(seq!["ask"@], 14, 15),
        are_ranked(seq!["exit_plan"@], 15, 16),
{
    reveal(are_ranked);
    lemma_ranks();
}

/// The tools that are excluded stand in their order, and are those that go with features that are
/// off.
proof fn lemma_excluded(features: PresetFeatures)
    ensures
        are_ranked(excluded(features), 0, 16),
        forall|tool: Seq<char>| #[trigger]
            excluded(features).contains(tool) <==> goes_with_off(features, tool),
{
    lemma_families();
    let goal: Seq<Seq<char>> = seq!["get_goal"@, "update_goal"@];
    let none: Seq<Seq<char>> = Seq::empty();
    let a = dropped(features.goal, goal);
    assert(none + a =~= a);
    lemma_ranked_append(none, features.goal, goal, 0, 2);
    assert forall|tool: Seq<char>| #[trigger] goal.contains(tool) <==> tool == "get_goal"@ || tool
        == "update_goal"@ by {
        assert(goal[0] == "get_goal"@ && goal[1] == "update_goal"@);
    }
    let b = a + dropped(features.skills, seq!["skill"@]);
    lemma_ranked_append(a, features.skills, seq!["skill"@], 2, 3);
    lemma_single("skill"@);
    let c = b + dropped(features.subagents, subagent_tools());
    lemma_ranked_append(b, features.subagents, subagent_tools(), 3, 9);
    let d = c + dropped(features.jobs, job_tools());
    lemma_ranked_append(c, features.jobs, job_tools(), 9, 13);
    let e = d + dropped(features.browser, seq!["browser"@]);
    lemma_ranked_append(d, features.browser, seq!["browser"@], 13, 14);
    lemma_single("browser"@);
    let f = e + dropped(features.ask, seq!["ask"@]);
    lemma_ranked_append(e, features.ask, seq!["ask"@], 14, 15);
    lemma_single("ask"@);
    lemma_ranked_append(f, features.plan_mode, seq!["exit_plan"@], 15, 16);
    lemma_single("exit_plan"@);
}

proof fn lemma_single(tool: Seq<char>)
    ensures
        forall|other: Seq<char>| #[trigger] seq![tool].contains(other) <==> other == tool,
{
    assert(seq![tool][0] == tool);
}

/// The tools that are excluded are those that go with a feature that is off, and none stands there
/// twice.
pub proof fn no_tool_is_excluded_twice(features: PresetFeatures)
    ensures
        excluded(features).no_duplicates(),
        forall|tool: Seq<char>| #[trigger]
            excluded(features).contains(tool) <==> goes_with_off(features, tool),
{
    lemma_excluded(features);
    reveal(are_ranked);
}

/// To switch features off only excludes more tools.
pub proof fn switching_off_only_excludes_more(
    features: PresetFeatures,
    wider: PresetFeatures,
    tool: Seq<char>,
)
    requires
        is_narrower(features, wider),
        excluded(wider).contains(tool),
    ensures
        excluded(features).contains(tool),
{
    lemma_excluded(features);
    lemma_excluded(wider);
}

/// Workspace instructions, memory and compaction have no tools of their own, and with all features
/// on no tool is excluded.
pub proof fn some_features_exclude_nothing(
    features: PresetFeatures,
    agents_md: bool,
    memory: bool,
    compaction: bool,
)
    ensures
        excluded(PresetFeatures { agents_md, memory, compaction, ..features }) == excluded(features),
        excluded(all_features(true)) == Seq::<Seq<char>>::empty(),
{
    assert(excluded(all_features(true)) =~= Seq::empty());
}

/// One preset.
#[derive(Debug, PartialEq)]
pub struct AgentPreset {
    pub id: String,
    pub name: String,
    pub description: String,
    pub trust: PresetTrust,
    /// The tools that are allowed; `None` for all.
    pub tools: Option<Vec<String>>,
    /// `None` for the persona of the deployment.
    pub persona: Option<String>,
    /// The persona is all that the system prompt holds.
    pub persona_complete: bool,
    pub features: PresetFeatures,
    /// The directory of a user's preset.
    pub path: Option<String>,
}

pub struct PresetView {
    pub id: Seq<char>,
    pub name: Seq<char>,
    pub description: Seq<char>,
    pub trust: PresetTrust,
    pub tools: Option<Seq<Seq<char>>>,
    pub persona: Option<Seq<char>>,
    pub persona_complete: bool,
    pub features: PresetFeatures,
    pub path: Option<Seq<char>>,
}

impl View for AgentPreset {
    type V = PresetView;

    open spec fn view(&self) -> PresetView {
        PresetView {
            id: self.id@,
            name: self.name@,
            description: self.description@,
            trust: self.trust,
            tools: match self.tools {
                Some(tools) => Some(text::views(tools@)),
                None => None,
            },
            persona: text::opt_view(self.persona),
            persona_complete: self.persona_complete,
            features: self.features,
            path: text::opt_view(self.path),
        }
    }
}

impl Clone for AgentPreset {
    fn clone(&self) -> (copy: Self)
        ensures
            copy@ == self@,
    {
        let tools = match &self.tools {
            Some(tools) => {
                let copy = tools.clone();
                assert(copy@ =~= tools@);
                Some(copy)
            },
            None => None,
        };
        AgentPreset {
            id: self.id.clone(),
            name: self.name.clone(),
            description: self.description.clone(),
            trust: self.trust,
            tools,
            persona: self.persona.clone(),
            persona_complete: self.persona_complete,
            features: self.features,
            path: self.path.clone(),
        }
    }
}

impl AgentPreset {
    /// Whether this preset restricts the tools.
    pub fn restricts_tools(&self) -> (yes: bool)
        ensures
            yes == self.tools is Some,
    {
        self.tools.is_some()
    }
}

/// The persona that guides a user through making a preset.
pub const CREATOR_PERSONA: &'static str = "你是 denia 的组装（preset）创作助手：引导用户创建一个新的 agent preset，并把可直接使用的 preset.yml 落盘。\n\n工作方式：\n- 全程用 ask 工具与用户交互，每个问题都给出可点选的选项，能不让人打字就不让人打字。\n- 第一轮只问系统提示词形态：选项覆盖「常规通用 persona」与「按用途定制 persona」。用户选定制时，再用一次 ask 请用户用一两句话描述用途——这是唯一必须打字的地方，persona 由你据此起草。\n- 之后的轮次依次确认：工具面（给「全量工具 / 精简读写 / 仅 shell / 逐项挑选」等选项，逐项挑选时用多选列出常用工具）与功能开关（AGENTS.md 注入、项目记忆、压缩、目标、技能、子代理、后台任务、浏览器、提问、计划模式；给「全部开启 / 常用精简 / 极简全关 / 逐项挑选」等选项，逐项挑选时用多选）。\n- 收集齐后，把将要写入的组装摘要（名称、id、persona 要点、开启的工具与关闭的功能）用 ask 向用户确认，确认后调用 create_preset 落盘。\n- 创建成功后告诉用户：在设置的 Agent 预设页或新会话的选择器里即可选用；想进一步微调，直接编辑它的 preset.yml（把目录路径告诉用户）。\n\n只做 preset 创作：不要在该会话里替用户执行其他编码任务。";

/// The persona of the minimal preset.
pub const MINIMAL_PERSONA: &'static str = "你是极简编码助手：直接、专注，只用 shell 完成用户的任务。";

/// A shipped preset that restricts nothing.
pub open spec fn shipped(
    id: Seq<char>,
    name: Seq<char>,
    description: Seq<char>,
    persona: Option<Seq<char>>,
) -> PresetView {
    PresetView {
        id,
        name,
        description,
        trust: PresetTrust::Shipped,
        tools: None,
        persona,
        persona_complete: false,
        features: all_features(true),
        path: None,
    }
}

/// The shipped presets, in the order in which they are shown.
pub open spec fn builtin_views() -> Seq<PresetView> {
    seq![
        shipped(
            DEFAULT_PRESET_ID@,
            "标准模式"@,
            "功能完整的编码 Agent:文件读写、Shell、检索、计划、目标、子代理与后台任务。"@,
            None,
        ),
        shipped(
            "creator"@,
            "创造模式"@,
            "让 Agent 帮你创建新组装:通过提问收集 persona、工具面与功能开关,直接落盘可用的 preset.yml。"@,
            Some(CREATOR_PERSONA@),
        ),
        PresetView {
            tools: Some(seq!["bash"@]),
            persona_complete: true,
            features: all_features(false),
            ..shipped(
                "minimal"@,
                "极简模式"@,
                "只有持久 shell 的极简 Agent:系统提示一句话,无检索、记忆、计划与委派。"@,
                Some(MINIMAL_PERSONA@),
            )
        },
    ]
}

/// The views of a list of presets.
pub open spec fn preset_views(presets: Seq<AgentPreset>) -> Seq<PresetView> {
    presets.map_values(|preset: AgentPreset| preset@)
}

fn shipped_preset(id: &str, name: &str, description: &str, persona: Option<String>) -> (preset:
    AgentPreset)
    ensures
        preset@ == shipped(id@, name@, description@, text::opt_view(persona)),
{
    AgentPreset {
        id: id.to_owned(),
        name: name.to_owned(),
        description: description.to_owned(),
        trust: PresetTrust::Shipped,
        tools: None,
        persona,
        persona_complete: false,
        features: PresetFeatures::default(),
        path: None,
    }
}

/// The shipped presets: the standard one with everything, one that helps to make presets, and a
/// minimal one that has only a shell.
pub fn builtin_presets() -> (presets: Vec<AgentPreset>)
    ensures
        preset_views(presets@) == builtin_views(),
{
    let standard = shipped_preset(
        DEFAULT_PRESET_ID,
        "标准模式",
        "功能完整的编码 Agent:文件读写、Shell、检索、计划、目标、子代理与后台任务。",
        None,
    );
    let creator = shipped_preset(
        "creator",
        "创造模式",
        "让 Agent 帮你创建新组装:通过提问收集 persona、工具面与功能开关,直接落盘可用的 preset.yml。",
        Some(CREATOR_PERSONA.to_owned()),
    );
    let mut minimal = shipped_preset(
        "minimal",
        "极简模式",
        "只有持久 shell 的极简 Agent:系统提示一句话,无检索、记忆、计划与委派。",
        Some(MINIMAL_PERSONA.to_owned()),
    );
    let mut tools: Vec<String> = Vec::new();
    tools.push("bash".to_owned());
    assert(text::views(tools@) =~= seq!["bash"@]);
    minimal.tools = Some(tools);
    minimal.persona_complete = true;
    minimal.features = PresetFeatures::all_off();
    let mut presets: Vec<AgentPreset> = Vec::new();
    presets.push(standard);
    presets.push(creator);
    presets.push(minimal);
    assert(preset_views(presets@) =~= builtin_views());
    presets
}

/// What a new preset is made from.
#[derive(Debug, Clone, PartialEq)]
pub struct PresetSpec {
    pub id: String,
    pub name: String,
    pub description: String,
    pub persona: Option<String>,
    pub persona_complete: bool,
    pub tools: Option<Vec<String>>,
    pub features: PresetFeatures,
}

impl Default for PresetSpec {
    fn default() -> (spec_: Self)
        ensures
            spec_.id@ == Seq::<char>::empty(),
            spec_.name@ == Seq::<char>::empty(),
            spec_.description@ == Seq::<char>::empty(),
            spec_.persona is None,
            !spec_.persona_complete,
            spec_.tools is None,
            spec_.features == all_features(true),
    {
        PresetSpec {
            id: String::new(),
            name: String::new(),
            description: String::new(),
            persona: None,
            persona_complete: false,
            tools: None,
            features: PresetFeatures::default(),
        }
    }
}

/// The default preset is shipped, and every shipped preset has a valid id.
pub proof fn default_preset_is_shipped()
    ensures
        exists|i: int| 0 <= i < builtin_views().len() && builtin_views()[i].id == DEFAULT_PRESET_ID@,
        forall|i: int| 0 <= i < builtin_views().len() ==> preset_id(#[trigger] builtin_views()[i].id),
{
    reveal_strlit("standard");
    reveal_strlit("creator");
    reveal_strlit("minimal");
    assert(builtin_views()[0].id == DEFAULT_PRESET_ID@);
}

} // verus!
