//! What a request tells the model about itself and its tools, and how a preset narrows it.
use vstd::prelude::*;
use vstd::string::*;

use crate::json;
use crate::json::{drop_text, Json, JsonView};
use crate::preset;
use crate::preset::{AgentPreset, PresetView};
use crate::text;
use crate::text::{cat2, str_eq, trim};
use crate::tool;
use crate::tool::{ToolSchema, ToolView};

verus! {

/// The section that holds the persona.
pub const PERSONA_SECTION: &'static str = "deployment:persona";

/// What follows a preset's own persona.
pub const PERSONA_SUFFIX: &'static str = "\n始终使用简体中文回复，除非用户明确要求其他语言。";

/// Who a section is for.
#[derive(Debug, Clone, Copy, PartialEq, Eq, Structural)]
pub enum SectionAudience {
    Model,
    User,
}

/// One section of the system prompt.
#[derive(Debug, PartialEq)]
pub struct AssembledSection {
    pub name: String,
    pub text: String,
    pub audience: SectionAudience,
}

/// One piece of context.
#[derive(Debug, PartialEq)]
pub struct AssembledContext {
    pub name: String,
    pub text: String,
}

/// The system prompt, the context and the tools of a request.
#[derive(Debug, PartialEq)]
pub struct PromptAssembly {
    pub sections: Vec<AssembledSection>,
    pub contexts: Vec<AssembledContext>,
    pub tools: Vec<ToolSchema>,
    pub variables: Vec<(String, String)>,
}

pub struct SectionView {
    pub name: Seq<char>,
    pub text: Seq<char>,
    pub audience: SectionAudience,
}

impl View for AssembledSection {
    type V = SectionView;

    open spec fn view(&self) -> SectionView {
        SectionView { name: self.name@, text: self.text@, audience: self.audience }
    }
}

/// The views of a list of sections.
pub open spec fn section_views(sections: Seq<AssembledSection>) -> Seq<SectionView> {
    sections.map_values(|section: AssembledSection| section@)
}

/// What a preset can change.
pub struct AssemblyView {
    pub sections: Seq<SectionView>,
    pub tools: Seq<ToolView>,
}

impl View for PromptAssembly {
    type V = AssemblyView;

    open spec fn view(&self) -> AssemblyView {
        AssemblyView {
            sections: section_views(self.sections@),
            tools: tool::tool_views(self.tools@),
        }
    }
}

/// The tools that a section is about; `None` where it is about no tool.
pub open spec fn section_family(name: Seq<char>) -> Option<Seq<Seq<char>>> {
    if name == "tool:bash"@ {
        Some(seq!["bash"@])
    } else if name == "tool:ls"@ {
        Some(seq!["ls"@])
    } else if name == "tool:read"@ {
        Some(seq!["read_file"@])
    } else if name == "tool:write"@ || name == "tool:todo"@ {
        Some(seq!["write_file"@, "todo_write"@])
    } else if name == "tool:glob"@ {
        Some(seq!["glob"@])
    } else if name == "tool:grep"@ {
        Some(seq!["grep"@])
    } else if name == "tool:edit"@ {
        Some(seq!["edit"@])
    } else if name == "tool:agents"@ {
        Some(seq!["spawn_agent"@, "fork_agent"@, "send_message"@])
    } else if name == "tool:jobs"@ {
        Some(seq!["job_start"@, "job_output"@, "job_kill"@])
    } else if name == "tool:skill"@ {
        Some(seq!["skill"@])
    } else if name == "tool:browser"@ {
        Some(seq!["browser"@])
    } else if name == "tool:ask"@ {
        Some(seq!["ask"@])
    } else if name == "tool:goal"@ {
        Some(seq!["get_goal"@, "update_goal"@])
    } else if name == "tool:plan"@ {
        Some(seq!["exit_plan"@])
    } else if name == "tool:preset"@ {
        Some(seq!["create_preset"@])
    } else if name == "tool:memory"@ {
        Some(seq!["write_file"@, "edit"@])
    } else {
        None
    }
}

/// One tool.
fn one(tool: &'static str) -> (tools: Option<Vec<&'static str>>)
    ensures
        tools matches Some(tools) && preset::str_views(tools@) == seq![tool@],
{
    let tools: Vec<&'static str> = vec![tool];
    assert(preset::str_views(tools@) =~= seq![tool@]);
    Some(tools)
}

/// Two tools.
fn two(first: &'static str, second: &'static str) -> (tools: Option<Vec<&'static str>>)
    ensures
        tools matches Some(tools) && preset::str_views(tools@) == seq![first@, second@],
{
    let tools: Vec<&'static str> = vec![first, second];
    assert(preset::str_views(tools@) =~= seq![first@, second@]);
    Some(tools)
}

/// Three tools.
fn three(first: &'static str, second: &'static str, third: &'static str) -> (tools: Option<
    Vec<&'static str>,
>)
    ensures
        tools matches Some(tools) && preset::str_views(tools@) == seq![first@, second@, third@],
{
    let tools: Vec<&'static str> = vec![first, second, third];
    assert(preset::str_views(tools@) =~= seq![first@, second@, third@]);
    Some(tools)
}

/// The tools that a section is about; `None` where it is about no tool. A section and its tools
/// come and go together.
pub fn section_tools(section: &str) -> (tools: Option<Vec<&'static str>>)
    ensures
        section_family(section@) == (match tools {
            Some(tools) => Some(preset::str_views(tools@)),
            None => None::<Seq<Seq<char>>>,
        }),
{
    if str_eq(section, "tool:bash") {
        one("bash")
    } else if str_eq(section, "tool:ls") {
        one("ls")
    } else if str_eq(section, "tool:read") {
        one("read_file")
    } else if str_eq(section, "tool:write") || str_eq(section, "tool:todo") {
        two("write_file", "todo_write")
    } else if str_eq(section, "tool:glob") {
        one("glob")
    } else if str_eq(section, "tool:grep") {
        one("grep")
    } else if str_eq(section, "tool:edit") {
        one("edit")
    } else if str_eq(section, "tool:agents") {
        three("spawn_agent", "fork_agent", "send_message")
    } else if str_eq(section, "tool:jobs") {
        three("job_start", "job_output", "job_kill")
    } else if str_eq(section, "tool:skill") {
        one("skill")
    } else if str_eq(section, "tool:browser") {
        one("browser")
    } else if str_eq(section, "tool:ask") {
        one("ask")
    } else if str_eq(section, "tool:goal") {
        two("get_goal", "update_goal")
    } else if str_eq(section, "tool:plan") {
        one("exit_plan")
    } else if str_eq(section, "tool:preset") {
        one("create_preset")
    } else if str_eq(section, "tool:memory") {
        two("write_file", "edit")
    } else {
        None
    }
}

/// Which tools stay: all but some, or only some.
pub struct ToolChoice {
    pub names: Vec<String>,
    /// The named tools stay; otherwise they go.
    pub only: bool,
}

/// Whether a tool stays.
pub open spec fn stays(names: Seq<Seq<char>>, only: bool, tool: Seq<char>) -> bool {
    names.contains(tool) == only
}

impl ToolChoice {
    /// Whether a tool stays.
    pub fn keeps(&self, tool: &str) -> (yes: bool)
        ensures
            yes == stays(text::views(self.names@), self.only, tool@),
    {
        let mut i: usize = 0;
        while i < self.names.len()
            invariant
                i <= self.names@.len(),
                forall|j: int| 0 <= j < i ==> text::views(self.names@)[j] != tool@,
            decreases self.names@.len() - i,
        {
            if str_eq(self.names[i].as_str(), tool) {
                assert(text::views(self.names@)[i as int] == tool@);
                return self.only;
            }
            i += 1;
        }
        assert(!text::views(self.names@).contains(tool@));
        !self.only
    }
}

/// The tools that stay.
pub open spec fn kept_tools(tools: Seq<ToolView>, names: Seq<Seq<char>>, only: bool) -> Seq<
    ToolView,
>
    decreases tools.len(),
{
    if tools.len() == 0 {
        Seq::empty()
    } else if stays(names, only, tools.last().name) {
        kept_tools(tools.drop_last(), names, only).push(tools.last())
    } else {
        kept_tools(tools.drop_last(), names, only)
    }
}

/// A section stays if it is about no tool, or about one that stays.
pub open spec fn section_stays(names: Seq<Seq<char>>, only: bool, section: Seq<char>) -> bool {
    match section_family(section) {
        Some(family) => exists|i: int|
            0 <= i < family.len() && stays(names, only, #[trigger] family[i]),
        None => true,
    }
}

/// The sections that stay.
pub open spec fn kept_sections(
    sections: Seq<SectionView>,
    names: Seq<Seq<char>>,
    only: bool,
) -> Seq<SectionView>
    decreases sections.len(),
{
    if sections.len() == 0 {
        Seq::empty()
    } else if section_stays(names, only, sections.last().name) {
        kept_sections(sections.drop_last(), names, only).push(sections.last())
    } else {
        kept_sections(sections.drop_last(), names, only)
    }
}

/// The assembly with the tools that stay and their sections.
pub open spec fn narrowed(a: AssemblyView, names: Seq<Seq<char>>, only: bool) -> AssemblyView {
    AssemblyView {
        sections: kept_sections(a.sections, names, only),
        tools: kept_tools(a.tools, names, only),
    }
}

fn family_stays(choice: &ToolChoice, section: &str) -> (yes: bool)
    ensures
        yes == section_stays(text::views(choice.names@), choice.only, section@),
{
    match section_tools(section) {
        Some(tools) => {
            let ghost family = preset::str_views(tools@);
            let mut i: usize = 0;
            while i < tools.len()
                invariant
                    i <= tools@.len(),
                    family == preset::str_views(tools@),
                    section_family(section@) == Some(family),
                    forall|j: int|
                        0 <= j < i ==> !stays(
                            text::views(choice.names@),
                            choice.only,
                            #[trigger] family[j],
                        ),
                decreases tools@.len() - i,
            {
                if choice.keeps(tools[i]) {
                    assert(stays(text::views(choice.names@), choice.only, family[i as int]));
                    assert(section_stays(text::views(choice.names@), choice.only, section@)) by {
                        let found = section_family(section@)->0;
                        assert(0 <= i < found.len());
                        assert(stays(text::views(choice.names@), choice.only, found[i as int]));
                    }
                    return true;
                }
                i += 1;
            }
            false
        },
        None => true,
    }
}

/// Keeps the tools that are chosen, and the sections that go with them.
fn retain_tools(assembly: &mut PromptAssembly, choice: &ToolChoice)
    ensures
        final(assembly)@ == narrowed(old(assembly)@, text::views(choice.names@), choice.only),
        final(assembly).contexts == old(assembly).contexts,
        final(assembly).variables == old(assembly).variables,
{
    let ghost names = text::views(choice.names@);
    let mut all: Vec<ToolSchema> = Vec::new();
    std::mem::swap(&mut all, &mut assembly.tools);
    let ghost tools = tool::tool_views(all@);
    let mut kept: Vec<ToolSchema> = Vec::new();
    assert(tool::tool_views(kept@) =~= Seq::empty());
    for schema in iter: all
        invariant
            iter.seq() == all@,
            tools == tool::tool_views(all@),
            names == text::views(choice.names@),
            tool::tool_views(kept@) == kept_tools(
                tools.take(iter.index() as int),
                names,
                choice.only,
            ),
    {
        assert(tools.take(iter.index() + 1).drop_last() =~= tools.take(iter.index() as int));
        if choice.keeps(schema.name.as_str()) {
            assert(tool::tool_views(kept@.push(schema)) =~= tool::tool_views(kept@).push(schema@));
            kept.push(schema);
        }
    }
    assert(tools.take(tools.len() as int) =~= tools);
    assembly.tools = kept;
    let mut all: Vec<AssembledSection> = Vec::new();
    std::mem::swap(&mut all, &mut assembly.sections);
    let ghost sections = section_views(all@);
    let mut kept: Vec<AssembledSection> = Vec::new();
    assert(section_views(kept@) =~= Seq::empty());
    for section in iter: all
        invariant
            iter.seq() == all@,
            sections == section_views(all@),
            names == text::views(choice.names@),
            section_views(kept@) == kept_sections(
                sections.take(iter.index() as int),
                names,
                choice.only,
            ),
    {
        assert(sections.take(iter.index() + 1).drop_last() =~= sections.take(iter.index() as int));
        if family_stays(choice, section.name.as_str()) {
            assert(section_views(kept@.push(section)) =~= section_views(kept@).push(section@));
            kept.push(section);
        }
    }
    assert(sections.take(sections.len() as int) =~= sections);
    assembly.sections = kept;
}

/// Copies a list of names.
fn copy_names(names: &Vec<String>) -> (copy: Vec<String>)
    ensures
        copy@ == names@,
{
    let copy = names.clone();
    assert(copy@ =~= names@);
    copy
}

/// Keeps only the allowed tools, and the sections that go with them.
pub fn apply_tool_allowlist(assembly: &mut PromptAssembly, allowed: &Vec<String>)
    ensures
        final(assembly)@ == narrowed(old(assembly)@, text::views(allowed@), true),
        final(assembly).contexts == old(assembly).contexts,
        final(assembly).variables == old(assembly).variables,
{
    retain_tools(assembly, &ToolChoice { names: copy_names(allowed), only: true });
}

/// Leaves the blocked tools out, and the sections that are about no other tools.
pub fn apply_tool_blocklist(assembly: &mut PromptAssembly, blocked: &Vec<String>)
    ensures
        final(assembly)@ == narrowed(old(assembly)@, text::views(blocked@), false),
        final(assembly).contexts == old(assembly).contexts,
        final(assembly).variables == old(assembly).variables,
{
    retain_tools(assembly, &ToolChoice { names: copy_names(blocked), only: false });
}

/// The position of the section with a name.
pub open spec fn section_at(sections: Seq<SectionView>, name: Seq<char>, from: int) -> Option<int>
    decreases sections.len() - from,
{
    if from < 0 || from >= sections.len() {
        None
    } else if sections[from].name == name {
        Some(from)
    } else {
        section_at(sections, name, from + 1)
    }
}

/// The sections with a persona of the preset's own.
pub open spec fn with_persona(sections: Seq<SectionView>, persona: Option<Seq<char>>) -> Seq<
    SectionView,
> {
    match (persona, section_at(sections, PERSONA_SECTION@, 0)) {
        (Some(persona), Some(at)) => if text::is_blank(persona) {
            sections
        } else {
            sections.update(at, SectionView { text: persona + PERSONA_SUFFIX@, ..sections[at] })
        },
        _ => sections,
    }
}

/// The sections with a name, or those without it.
pub open spec fn sections_named(sections: Seq<SectionView>, name: Seq<char>, with: bool) -> Seq<
    SectionView,
>
    decreases sections.len(),
{
    if sections.len() == 0 {
        Seq::empty()
    } else if (sections.last().name == name) == with {
        sections_named(sections.drop_last(), name, with).push(sections.last())
    } else {
        sections_named(sections.drop_last(), name, with)
    }
}

/// The parameters of a shell that runs nothing in the background.
pub open spec fn foreground_only(parameters: JsonView) -> JsonView {
    match parameters {
        JsonView::Object(map) => {
            let properties = match json::member(parameters, "properties"@) {
                Some(JsonView::Object(p)) => map.insert(
                    "properties"@,
                    JsonView::Object(p.remove("run_in_background"@)),
                ),
                _ => map,
            };
            JsonView::Object(
                match json::member(parameters, "required"@) {
                    Some(JsonView::Array(names)) => properties.insert(
                        "required"@,
                        JsonView::Array(json::without_text(names, "run_in_background"@)),
                    ),
                    _ => properties,
                },
            )
        },
        other => other,
    }
}

/// The position of the tool with a name.
pub open spec fn tool_at(tools: Seq<ToolView>, name: Seq<char>, from: int) -> Option<int>
    decreases tools.len() - from,
{
    if from < 0 || from >= tools.len() {
        None
    } else if tools[from].name == name {
        Some(from)
    } else {
        tool_at(tools, name, from + 1)
    }
}

/// The tools with a shell that runs nothing in the background.
pub open spec fn without_background(tools: Seq<ToolView>) -> Seq<ToolView> {
    match tool_at(tools, "bash"@, 0) {
        Some(at) => tools.update(
            at,
            ToolView { parameters: foreground_only(tools[at].parameters), ..tools[at] },
        ),
        None => tools,
    }
}

/// The tools that stay under a preset, before the shell is changed.
pub open spec fn preset_tools(tools: Seq<ToolView>, p: PresetView) -> Seq<ToolView> {
    let on = kept_tools(tools, preset::excluded(p.features), false);
    match p.tools {
        Some(allowed) => kept_tools(on, allowed, true),
        None => on,
    }
}

/// The sections that stay with the tools of a preset.
pub open spec fn preset_sections(sections: Seq<SectionView>, p: PresetView) -> Seq<SectionView> {
    let on = kept_sections(sections, preset::excluded(p.features), false);
    match p.tools {
        Some(allowed) => kept_sections(on, allowed, true),
        None => on,
    }
}

/// The assembly under a preset.
pub open spec fn under_preset(a: AssemblyView, p: PresetView) -> AssemblyView {
    let personal = with_persona(a.sections, p.persona);
    let complete = if p.persona_complete {
        sections_named(personal, PERSONA_SECTION@, true)
    } else {
        personal
    };
    let sections = preset_sections(complete, p);
    let managed = if p.features.compaction {
        sections
    } else {
        sections_named(sections, "harness:context-management"@, false)
    };
    let tools = preset_tools(a.tools, p);
    AssemblyView {
        sections: if p.features.memory {
            managed
        } else {
            sections_named(managed, "tool:memory"@, false)
        },
        tools: if p.features.jobs {
            tools
        } else {
            without_background(tools)
        },
    }
}

/// The position of the section with a name.
pub fn find_section(sections: &Vec<AssembledSection>, name: &str) -> (at: Option<usize>)
    ensures
        section_at(section_views(sections@), name@, 0) == (match at {
            Some(at) => Some(at as int),
            None => None::<int>,
        }),
        at matches Some(at) ==> at < sections@.len(),
{
    let ghost views = section_views(sections@);
    let mut i: usize = 0;
    while i < sections.len()
        invariant
            i <= sections@.len(),
            views == section_views(sections@),
            section_at(views, name@, 0) == section_at(views, name@, i as int),
        decreases sections@.len() - i,
    {
        if str_eq(sections[i].name.as_str(), name) {
            return Some(i);
        }
        i += 1;
    }
    None
}

/// Gives the section at a position another text.
pub fn set_section_text(assembly: &mut PromptAssembly, at: usize, text: String)
    requires
        at < old(assembly).sections@.len(),
    ensures
        final(assembly)@ == (AssemblyView {
            sections: old(assembly)@.sections.update(
                at as int,
                SectionView { text: text@, ..old(assembly)@.sections[at as int] },
            ),
            ..old(assembly)@
        }),
        final(assembly).contexts == old(assembly).contexts,
        final(assembly).variables == old(assembly).variables,
        final(assembly).tools == old(assembly).tools,
{
    let ghost sections = section_views(assembly.sections@);
    let section = AssembledSection {
        name: assembly.sections[at].name.clone(),
        text,
        audience: assembly.sections[at].audience,
    };
    assert(section_views(assembly.sections@.update(at as int, section)) =~= sections.update(
        at as int,
        section@,
    ));
    assembly.sections.set(at, section);
}

fn set_persona(assembly: &mut PromptAssembly, persona: &str)
    ensures
        final(assembly)@ == (AssemblyView {
            sections: with_persona(old(assembly)@.sections, Some(persona@)),
            ..old(assembly)@
        }),
        final(assembly).contexts == old(assembly).contexts,
        final(assembly).variables == old(assembly).variables,
        final(assembly).tools == old(assembly).tools,
{
    if trim(persona).as_str().is_empty() {
        return ;
    }
    if let Some(at) = find_section(&assembly.sections, PERSONA_SECTION) {
        set_section_text(assembly, at, cat2(persona, PERSONA_SUFFIX));
    }
}

/// Keeps the sections with a name, or those without it.
fn retain_sections(assembly: &mut PromptAssembly, name: &str, with: bool)
    ensures
        final(assembly)@ == (AssemblyView {
            sections: sections_named(old(assembly)@.sections, name@, with),
            ..old(assembly)@
        }),
        final(assembly).contexts == old(assembly).contexts,
        final(assembly).variables == old(assembly).variables,
{
    let mut all: Vec<AssembledSection> = Vec::new();
    std::mem::swap(&mut all, &mut assembly.sections);
    let ghost sections = section_views(all@);
    let mut kept: Vec<AssembledSection> = Vec::new();
    assert(section_views(kept@) =~= Seq::empty());
    for section in iter: all
        invariant
            iter.seq() == all@,
            sections == section_views(all@),
            section_views(kept@) == sections_named(sections.take(iter.index() as int), name@, with),
    {
        assert(sections.take(iter.index() + 1).drop_last() =~= sections.take(iter.index() as int));
        if str_eq(section.name.as_str(), name) == with {
            assert(section_views(kept@.push(section)) =~= section_views(kept@).push(section@));
            kept.push(section);
        }
    }
    assert(sections.take(sections.len() as int) =~= sections);
    assembly.sections = kept;
}

fn strip_background(parameters: &Json) -> (stripped: Json)
    ensures
        stripped@ == foreground_only(parameters@),
{
    let mut stripped = parameters.clone();
    if let Some(properties) = parameters.get("properties") {
        if let Json::Object(_) = properties {
            stripped.insert("properties", properties.without_member("run_in_background"));
        }
    }
    if let Some(required) = parameters.get("required") {
        if let Some(names) = required.as_array() {
            stripped.insert("required", Json::array(drop_text(names, "run_in_background")));
        }
    }
    stripped
}

/// The position of the tool with a name.
pub fn find_tool(tools: &Vec<ToolSchema>, name: &str) -> (at: Option<usize>)
    ensures
        tool_at(tool::tool_views(tools@), name@, 0) == (match at {
            Some(at) => Some(at as int),
            None => None::<int>,
        }),
        at matches Some(at) ==> at < tools@.len(),
{
    let ghost views = tool::tool_views(tools@);
    let mut i: usize = 0;
    while i < tools.len()
        invariant
            i <= tools@.len(),
            views == tool::tool_views(tools@),
            tool_at(views, name@, 0) == tool_at(views, name@, i as int),
        decreases tools@.len() - i,
    {
        if str_eq(tools[i].name.as_str(), name) {
            return Some(i);
        }
        i += 1;
    }
    None
}

/// Puts a tool in the place of another.
pub fn set_tool(assembly: &mut PromptAssembly, at: usize, schema: ToolSchema)
    requires
        at < old(assembly).tools@.len(),
    ensures
        final(assembly)@ == (AssemblyView {
            tools: old(assembly)@.tools.update(at as int, schema@),
            ..old(assembly)@
        }),
        final(assembly).contexts == old(assembly).contexts,
        final(assembly).variables == old(assembly).variables,
        final(assembly).sections == old(assembly).sections,
{
    assert(tool::tool_views(assembly.tools@.update(at as int, schema)) =~= tool::tool_views(
        assembly.tools@,
    ).update(at as int, schema@));
    assembly.tools.set(at, schema);
}

fn strip_shell(assembly: &mut PromptAssembly)
    ensures
        final(assembly)@ == (AssemblyView {
            tools: without_background(old(assembly)@.tools),
            ..old(assembly)@
        }),
        final(assembly).contexts == old(assembly).contexts,
        final(assembly).variables == old(assembly).variables,
{
    if let Some(at) = find_tool(&assembly.tools, "bash") {
        let schema = ToolSchema {
            name: assembly.tools[at].name.clone(),
            description: assembly.tools[at].description.clone(),
            parameters: strip_background(&assembly.tools[at].parameters),
        };
        set_tool(assembly, at, schema);
    }
}

/// Applies a preset: its persona, then its features, then its list of tools.
pub fn apply_preset(assembly: &mut PromptAssembly, preset: &AgentPreset)
    ensures
        final(assembly)@ == under_preset(old(assembly)@, preset@),
        final(assembly).contexts == old(assembly).contexts,
        final(assembly).variables == old(assembly).variables,
{
    if let Some(persona) = &preset.persona {
        set_persona(assembly, persona.as_str());
    }
    if preset.persona_complete {
        retain_sections(assembly, PERSONA_SECTION, true);
    }
    let excluded = preset.features.excluded_tools();
    let mut names: Vec<String> = Vec::new();
    let mut i: usize = 0;
    while i < excluded.len()
        invariant
            i <= excluded@.len(),
            names@.len() == i,
            forall|j: int| 0 <= j < i ==> names@[j]@ == excluded@[j]@,
        decreases excluded@.len() - i,
    {
        names.push(excluded[i].to_owned());
        i += 1;
    }
    assert(text::views(names@) =~= preset::str_views(excluded@));
    retain_tools(assembly, &ToolChoice { names, only: false });
    if let Some(tools) = &preset.tools {
        apply_tool_allowlist(assembly, tools);
    }
    if !preset.features.jobs {
        strip_shell(assembly);
    }
    if !preset.features.compaction {
        retain_sections(assembly, "harness:context-management", false);
    }
    if !preset.features.memory {
        retain_sections(assembly, "tool:memory", false);
    }
}

} // verus!
