//! The prompt and the tools of one step: what the session's preset, its place as a subagent, its
//! permission mode and its memory leave of them.
use vstd::prelude::*;
use vstd::string::*;

use crate::agent::assembly;
use crate::agent::assembly::{
    apply_preset, apply_tool_allowlist, apply_tool_blocklist, find_section, find_tool,
    set_section_text, set_tool, AssembledSection, AssemblyView, PromptAssembly, SectionView,
    PERSONA_SECTION, PERSONA_SUFFIX,
};
use crate::agent::assembly_laws;
use crate::preset::{AgentPreset, PresetView};
use crate::session::{PermissionMode, SubagentDescriptor};
use crate::text;
use crate::text::cat2;
use crate::tool;
use crate::tool::{ToolSchema, ToolView};

verus! {

/// The section about the memory.
pub const MEMORY_SECTION: &'static str = "tool:memory";

/// The tools that a runtime brings.
pub struct RuntimeTools {
    /// The shell, where the runtime has one.
    pub shell: Option<ToolSchema>,
    /// The tools that are added where they are missing.
    pub schemas: Vec<ToolSchema>,
}

/// What a session makes of the prompt.
pub struct StepInputs {
    pub runtime: Option<RuntimeTools>,
    pub preset: Option<AgentPreset>,
    pub subagent: Option<SubagentDescriptor>,
    pub mode: PermissionMode,
    /// The section about the memory with the place where it lies; `None` where it is off.
    pub memory_section: Option<String>,
}

pub struct InputsView {
    pub runtime: Option<(Option<ToolView>, Seq<ToolView>)>,
    pub preset: Option<PresetView>,
    /// The persona and the allowed tools of a subagent.
    pub subagent: Option<(Option<Seq<char>>, Option<Seq<Seq<char>>>)>,
    pub mode: PermissionMode,
    pub memory_section: Option<Seq<char>>,
}

pub open spec fn tool_view(tool: Option<ToolSchema>) -> Option<ToolView> {
    match tool {
        Some(tool) => Some(tool@),
        None => None,
    }
}

pub open spec fn names_view(names: Option<Vec<String>>) -> Option<Seq<Seq<char>>> {
    match names {
        Some(names) => Some(text::views(names@)),
        None => None,
    }
}

impl View for StepInputs {
    type V = InputsView;

    open spec fn view(&self) -> InputsView {
        InputsView {
            runtime: match self.runtime {
                Some(tools) => Some((tool_view(tools.shell), tool::tool_views(tools.schemas@))),
                None => None,
            },
            preset: match self.preset {
                Some(preset) => Some(preset@),
                None => None,
            },
            subagent: match self.subagent {
                Some(child) => Some((text::opt_view(child.persona), names_view(child.allowed_tools))),
                None => None,
            },
            mode: self.mode,
            memory_section: text::opt_view(self.memory_section),
        }
    }
}

/// The tools with the shell of the runtime.
pub open spec fn with_shell(tools: Seq<ToolView>, shell: Option<ToolView>) -> Seq<ToolView> {
    match (assembly::tool_at(tools, "bash"@, 0), shell) {
        (Some(at), Some(shell)) => tools.update(at, shell),
        _ => tools,
    }
}

/// The tools with those of a list that are missing among them.
pub open spec fn with_missing(tools: Seq<ToolView>, list: Seq<ToolView>) -> Seq<ToolView>
    decreases list.len(),
{
    if list.len() == 0 {
        tools
    } else {
        let before = with_missing(tools, list.drop_last());
        if assembly::tool_at(before, list.last().name, 0) is Some {
            before
        } else {
            before.push(list.last())
        }
    }
}

/// With the tools of the runtime.
pub open spec fn with_runtime(
    a: AssemblyView,
    runtime: Option<(Option<ToolView>, Seq<ToolView>)>,
) -> AssemblyView {
    match runtime {
        Some((shell, schemas)) => AssemblyView {
            tools: with_missing(with_shell(a.tools, shell), schemas),
            ..a
        },
        None => a,
    }
}

/// The sections with another text for the section with a name.
pub open spec fn with_text(sections: Seq<SectionView>, name: Seq<char>, text: Seq<char>) -> Seq<
    SectionView,
> {
    match assembly::section_at(sections, name, 0) {
        Some(at) => sections.update(at, SectionView { text, ..sections[at] }),
        None => sections,
    }
}

/// What a subagent sees: its own persona, and the tools that it is allowed.
pub open spec fn for_subagent(
    a: AssemblyView,
    subagent: Option<(Option<Seq<char>>, Option<Seq<Seq<char>>>)>,
) -> AssemblyView {
    match subagent {
        Some((persona, allowed)) => {
            let own = match persona {
                Some(persona) => AssemblyView {
                    sections: with_text(a.sections, PERSONA_SECTION@, persona + PERSONA_SUFFIX@),
                    ..a
                },
                None => a,
            };
            match allowed {
                Some(allowed) => assembly::narrowed(own, allowed, true),
                None => own,
            }
        },
        None => a,
    }
}

/// The tools that write.
pub open spec fn writing_tools() -> Seq<Seq<char>> {
    seq!["bash"@, "write_file"@, "edit"@]
}

/// A session that only reads is offered no tool that writes. A subagent has its own list of tools.
pub open spec fn for_mode(a: AssemblyView, mode: PermissionMode, is_subagent: bool) -> AssemblyView {
    if mode == PermissionMode::ReadOnly && !is_subagent {
        assembly::narrowed(a, writing_tools(), false)
    } else {
        a
    }
}

/// The section about the memory says where it lies, and is left out where the memory is off.
pub open spec fn with_memory(a: AssemblyView, section: Option<Seq<char>>) -> AssemblyView {
    match assembly::section_at(a.sections, MEMORY_SECTION@, 0) {
        Some(at) => AssemblyView {
            sections: match section {
                Some(text) => a.sections.update(at, SectionView { text, ..a.sections[at] }),
                None => a.sections.remove(at),
            },
            ..a
        },
        None => a,
    }
}

/// Under the preset of the session.
pub open spec fn with_preset(a: AssemblyView, preset: Option<PresetView>) -> AssemblyView {
    match preset {
        Some(preset) => assembly::under_preset(a, preset),
        None => a,
    }
}

/// What the model sees in a step. Each part can only narrow what stands before it: the preset
/// comes behind the tools of the runtime, and the subagent's own list behind the preset.
pub open spec fn assembled(a: AssemblyView, inputs: InputsView) -> AssemblyView {
    let offered = with_preset(with_runtime(a, inputs.runtime), inputs.preset);
    let own = for_subagent(offered, inputs.subagent);
    with_memory(for_mode(own, inputs.mode, inputs.subagent is Some), inputs.memory_section)
}

fn add_runtime_tools(assembly: &mut PromptAssembly, runtime: &RuntimeTools)
    ensures
        final(assembly)@ == with_runtime(
            old(assembly)@,
            Some((tool_view(runtime.shell), tool::tool_views(runtime.schemas@))),
        ),
        final(assembly).contexts == old(assembly).contexts,
        final(assembly).variables == old(assembly).variables,
{
    if let Some(shell) = &runtime.shell {
        if let Some(at) = find_tool(&assembly.tools, "bash") {
            set_tool(assembly, at, shell.clone());
        }
    }
    let ghost tools = assembly@.tools;
    let ghost sections = assembly@.sections;
    let ghost schemas = tool::tool_views(runtime.schemas@);
    let mut i: usize = 0;
    while i < runtime.schemas.len()
        invariant
            i <= runtime.schemas@.len(),
            schemas == tool::tool_views(runtime.schemas@),
            assembly@.tools == with_missing(tools, schemas.take(i as int)),
            assembly@.sections == sections,
            assembly.contexts == old(assembly).contexts,
            assembly.variables == old(assembly).variables,
        decreases runtime.schemas@.len() - i,
    {
        assert(schemas.take(i + 1).drop_last() =~= schemas.take(i as int));
        if find_tool(&assembly.tools, runtime.schemas[i].name.as_str()).is_none() {
            let schema = runtime.schemas[i].clone();
            assert(tool::tool_views(assembly.tools@.push(schema)) =~= tool::tool_views(
                assembly.tools@,
            ).push(schema@));
            assembly.tools.push(schema);
        }
        i += 1;
    }
    assert(schemas.take(schemas.len() as int) =~= schemas);
}

fn narrow_to_subagent(assembly: &mut PromptAssembly, child: &SubagentDescriptor)
    ensures
        final(assembly)@ == for_subagent(
            old(assembly)@,
            Some((text::opt_view(child.persona), names_view(child.allowed_tools))),
        ),
        final(assembly).contexts == old(assembly).contexts,
        final(assembly).variables == old(assembly).variables,
{
    if let Some(persona) = &child.persona {
        if let Some(at) = find_section(&assembly.sections, PERSONA_SECTION) {
            set_section_text(assembly, at, cat2(persona.as_str(), PERSONA_SUFFIX));
        }
    }
    if let Some(allowed) = &child.allowed_tools {
        apply_tool_allowlist(assembly, allowed);
    }
}

fn place_memory(assembly: &mut PromptAssembly, section: &Option<String>)
    ensures
        final(assembly)@ == with_memory(old(assembly)@, text::opt_view(*section)),
        final(assembly).contexts == old(assembly).contexts,
        final(assembly).variables == old(assembly).variables,
{
    if let Some(at) = find_section(&assembly.sections, MEMORY_SECTION) {
        match section {
            Some(text) => set_section_text(assembly, at, text.clone()),
            None => {
                assert(assembly::section_views(assembly.sections@.remove(at as int))
                    =~= assembly::section_views(assembly.sections@).remove(at as int));
                let _gone: AssembledSection = assembly.sections.remove(at);
            },
        }
    }
}

/// What the model sees in a step.
pub fn assemble_step(assembly: &mut PromptAssembly, inputs: &StepInputs)
    ensures
        final(assembly)@ == assembled(old(assembly)@, inputs@),
        final(assembly).contexts == old(assembly).contexts,
        final(assembly).variables == old(assembly).variables,
{
    if let Some(runtime) = &inputs.runtime {
        add_runtime_tools(assembly, runtime);
    }
    if let Some(preset) = &inputs.preset {
        apply_preset(assembly, preset);
    }
    if let Some(child) = &inputs.subagent {
        narrow_to_subagent(assembly, child);
    }
    if inputs.mode.is_read_only() && inputs.subagent.is_none() {
        let blocked: Vec<String> = vec!["bash".to_owned(), "write_file".to_owned(), "edit".to_owned()];
        assert(text::views(blocked@) =~= writing_tools());
        apply_tool_blocklist(assembly, &blocked);
    }
    place_memory(assembly, &inputs.memory_section);
}

/// In a session that only reads, and is no subagent's, the model is offered no tool that writes.
pub proof fn read_only_session_is_offered_no_writing_tool(a: AssemblyView, inputs: InputsView, i: int)
    requires
        inputs.mode == PermissionMode::ReadOnly,
        inputs.subagent is None,
        0 <= i < assembled(a, inputs).tools.len(),
    ensures
        !writing_tools().contains(assembled(a, inputs).tools[i].name),
{
    let offered = with_preset(with_runtime(a, inputs.runtime), inputs.preset);
    assembly_laws::lemma_kept_tools(offered.tools, writing_tools(), false, i);
}

/// A subagent with a list of tools is offered no other tool.
pub proof fn subagent_is_offered_only_its_tools(
    a: AssemblyView,
    inputs: InputsView,
    allowed: Seq<Seq<char>>,
    i: int,
)
    requires
        inputs.subagent matches Some(child) && child.1 == Some(allowed),
        0 <= i < assembled(a, inputs).tools.len(),
    ensures
        allowed.contains(assembled(a, inputs).tools[i].name),
{
    let offered = with_preset(with_runtime(a, inputs.runtime), inputs.preset);
    assembly_laws::lemma_kept_tools(offered.tools, allowed, true, i);
}

/// A preset binds the tools that the runtime brings too: a tool of a feature that is off is offered
/// in no step, and with a list of tools no other tool is.
pub proof fn preset_binds_the_runtime_tools(
    a: AssemblyView,
    inputs: InputsView,
    preset: PresetView,
    i: int,
)
    requires
        inputs.preset == Some(preset),
        0 <= i < assembled(a, inputs).tools.len(),
    ensures
        !crate::preset::excluded(preset.features).contains(assembled(a, inputs).tools[i].name),
        preset.tools matches Some(allowed) ==> allowed.contains(
            assembled(a, inputs).tools[i].name,
        ),
{
    let before = with_runtime(a, inputs.runtime);
    let offered = with_preset(before, inputs.preset);
    let own = for_subagent(offered, inputs.subagent);
    let tool = assembled(a, inputs).tools[i];
    let k = if inputs.mode == PermissionMode::ReadOnly && inputs.subagent is None {
        assembly_laws::lemma_kept_tools(own.tools, writing_tools(), false, i);
        choose|k: int| 0 <= k < own.tools.len() && own.tools[k] == tool
    } else {
        i
    };
    let j = match inputs.subagent {
        Some((_, Some(allowed))) => {
            assembly_laws::lemma_kept_tools(offered.tools, allowed, true, k);
            choose|j: int| 0 <= j < offered.tools.len() && offered.tools[j] == tool
        },
        _ => k,
    };
    assembly_laws::preset_only_narrows_the_tools(before, preset, j);
}

} // verus!
