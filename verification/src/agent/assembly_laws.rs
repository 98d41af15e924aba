//! What a preset can and cannot do to an assembly.
use vstd::prelude::*;

use crate::agent::assembly;
use crate::agent::assembly::{AssemblyView, SectionView};
use crate::preset;
use crate::preset::PresetView;
use crate::tool::ToolView;

verus! {

/// A tool that stays is one of the tools, and is one that may stay.
pub proof fn lemma_kept_tools(tools: Seq<ToolView>, names: Seq<Seq<char>>, only: bool, i: int)
    requires
        0 <= i < assembly::kept_tools(tools, names, only).len(),
    ensures
        tools.contains(assembly::kept_tools(tools, names, only)[i]),
        assembly::stays(names, only, assembly::kept_tools(tools, names, only)[i].name),
    decreases tools.len(),
{
    let rest = assembly::kept_tools(tools.drop_last(), names, only);
    if i < rest.len() {
        lemma_kept_tools(tools.drop_last(), names, only, i);
        let j = choose|j: int| 0 <= j < tools.drop_last().len() && tools.drop_last()[j] == rest[i];
        assert(tools[j] == rest[i]);
    } else {
        assert(tools[tools.len() - 1] == tools.last());
    }
}

/// A section that stays is one of the sections, and is one that may stay.
pub proof fn lemma_kept_sections(
    sections: Seq<SectionView>,
    names: Seq<Seq<char>>,
    only: bool,
    i: int,
)
    requires
        0 <= i < assembly::kept_sections(sections, names, only).len(),
    ensures
        sections.contains(assembly::kept_sections(sections, names, only)[i]),
        assembly::section_stays(names, only, assembly::kept_sections(sections, names, only)[i].name),
    decreases sections.len(),
{
    let rest = assembly::kept_sections(sections.drop_last(), names, only);
    if i < rest.len() {
        lemma_kept_sections(sections.drop_last(), names, only, i);
        let j = choose|j: int|
            0 <= j < sections.drop_last().len() && sections.drop_last()[j] == rest[i];
        assert(sections[j] == rest[i]);
    } else {
        assert(sections[sections.len() - 1] == sections.last());
    }
}

pub proof fn lemma_sections_named(
    sections: Seq<SectionView>,
    name: Seq<char>,
    with: bool,
    i: int,
)
    requires
        0 <= i < assembly::sections_named(sections, name, with).len(),
    ensures
        sections.contains(assembly::sections_named(sections, name, with)[i]),
        (assembly::sections_named(sections, name, with)[i].name == name) == with,
    decreases sections.len(),
{
    let rest = assembly::sections_named(sections.drop_last(), name, with);
    if i < rest.len() {
        lemma_sections_named(sections.drop_last(), name, with, i);
        let j = choose|j: int|
            0 <= j < sections.drop_last().len() && sections.drop_last()[j] == rest[i];
        assert(sections[j] == rest[i]);
    } else {
        assert(sections[sections.len() - 1] == sections.last());
    }
}

proof fn lemma_tool_at(tools: Seq<ToolView>, name: Seq<char>, from: int)
    requires
        0 <= from,
    ensures
        assembly::tool_at(tools, name, from) matches Some(at) ==> from <= at < tools.len()
            && tools[at].name == name,
    decreases tools.len() - from,
{
    if from < tools.len() && tools[from].name != name {
        lemma_tool_at(tools, name, from + 1);
    }
}

/// A preset never adds a tool, never leaves one that goes with a feature that is off, and with a
/// list of tools leaves none that is not on the list.
pub proof fn preset_only_narrows_the_tools(a: AssemblyView, p: PresetView, i: int)
    requires
        0 <= i < assembly::under_preset(a, p).tools.len(),
    ensures
        exists|j: int|
            0 <= j < a.tools.len() && (#[trigger] a.tools[j]).name == assembly::under_preset(
                a,
                p,
            ).tools[i].name && a.tools[j].description == assembly::under_preset(
                a,
                p,
            ).tools[i].description,
        !preset::excluded(p.features).contains(assembly::under_preset(a, p).tools[i].name),
        p.tools matches Some(allowed) ==> allowed.contains(
            assembly::under_preset(a, p).tools[i].name,
        ),
{
    let on = assembly::kept_tools(a.tools, preset::excluded(p.features), false);
    let tools = assembly::preset_tools(a.tools, p);
    lemma_tool_at(tools, "bash"@, 0);
    let tool = tools[i];
    assert(assembly::under_preset(a, p).tools[i].name == tool.name);
    assert(assembly::under_preset(a, p).tools[i].description == tool.description);
    let k = match p.tools {
        Some(allowed) => {
            lemma_kept_tools(on, allowed, true, i);
            choose|k: int| 0 <= k < on.len() && on[k] == tool
        },
        None => i,
    };
    lemma_kept_tools(a.tools, preset::excluded(p.features), false, k);
    let j = choose|j: int| 0 <= j < a.tools.len() && a.tools[j] == on[k];
    assert(a.tools[j].name == tool.name);
}

/// A preset never adds a section, and leaves a section that is about tools only where one of them
/// goes with no feature that is off and, with a list of tools, one of them is on the list.
pub proof fn preset_keeps_sections_with_their_tools(a: AssemblyView, p: PresetView, i: int)
    requires
        0 <= i < assembly::under_preset(a, p).sections.len(),
    ensures
        exists|j: int|
            0 <= j < a.sections.len() && (#[trigger] a.sections[j]).name == assembly::under_preset(
                a,
                p,
            ).sections[i].name,
        assembly::section_stays(
            preset::excluded(p.features),
            false,
            assembly::under_preset(a, p).sections[i].name,
        ),
        p.tools matches Some(allowed) ==> assembly::section_stays(
            allowed,
            true,
            assembly::under_preset(a, p).sections[i].name,
        ),
        p.persona_complete ==> assembly::under_preset(a, p).sections[i].name
            == assembly::PERSONA_SECTION@,
{
    let personal = assembly::with_persona(a.sections, p.persona);
    let complete = if p.persona_complete {
        assembly::sections_named(personal, assembly::PERSONA_SECTION@, true)
    } else {
        personal
    };
    let on = assembly::kept_sections(complete, preset::excluded(p.features), false);
    let sections = assembly::preset_sections(complete, p);
    let managed = if p.features.compaction {
        sections
    } else {
        assembly::sections_named(sections, "harness:context-management"@, false)
    };
    let section = assembly::under_preset(a, p).sections[i];
    let m = if p.features.memory {
        i
    } else {
        lemma_sections_named(managed, "tool:memory"@, false, i);
        choose|m: int| 0 <= m < managed.len() && managed[m] == section
    };
    let s = if p.features.compaction {
        m
    } else {
        lemma_sections_named(sections, "harness:context-management"@, false, m);
        choose|s: int| 0 <= s < sections.len() && sections[s] == section
    };
    let o = match p.tools {
        Some(allowed) => {
            lemma_kept_sections(on, allowed, true, s);
            choose|o: int| 0 <= o < on.len() && on[o] == section
        },
        None => s,
    };
    lemma_kept_sections(complete, preset::excluded(p.features), false, o);
    let c = choose|c: int| 0 <= c < complete.len() && complete[c] == section;
    let w = if p.persona_complete {
        lemma_sections_named(personal, assembly::PERSONA_SECTION@, true, c);
        choose|w: int| 0 <= w < personal.len() && personal[w] == section
    } else {
        c
    };
    lemma_section_at(a.sections, assembly::PERSONA_SECTION@, 0);
    assert(a.sections[w].name == section.name);
}

proof fn lemma_section_at(sections: Seq<SectionView>, name: Seq<char>, from: int)
    requires
        0 <= from,
    ensures
        assembly::section_at(sections, name, from) matches Some(at) ==> from <= at < sections.len()
            && sections[at].name == name,
    decreases sections.len() - from,
{
    if from < sections.len() && sections[from].name != name {
        lemma_section_at(sections, name, from + 1);
    }
}

} // verus!
