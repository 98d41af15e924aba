//! What a step offers the model: everything that nothing takes away.
use vstd::prelude::*;
use vstd::string::*;

use crate::agent::assembly;
use crate::agent::assembly::{AssemblyView, SectionView, PERSONA_SECTION, PERSONA_SUFFIX};
use crate::agent::driver;
use crate::agent::driver::AgentPresetSource;
use crate::agent::step;
use crate::agent::step::{InputsView, MEMORY_SECTION};
use crate::json;
use crate::json::JsonView;
use crate::preset;
use crate::preset::PresetView;
use crate::session::PermissionMode;
use crate::text;
use crate::text_laws;
use crate::tool::ToolView;

verus! {

/// A list of names with which tools are chosen: those on it where `only` those stay, and else all
/// others.
pub open spec fn is_chosen(names: Seq<Seq<char>>, only: bool, tool: Seq<char>) -> bool {
    if only {
        exists|i: int| 0 <= i < names.len() && #[trigger] names[i] == tool
    } else {
        forall|i: int| 0 <= i < names.len() ==> #[trigger] names[i] != tool
    }
}

/// The tools that are chosen stay, in their order and as they are; no other does.
pub proof fn chosen_tools_stay(
    a: Seq<ToolView>,
    b: Seq<ToolView>,
    tool: ToolView,
    names: Seq<Seq<char>>,
    only: bool,
)
    ensures
        assembly::kept_tools(a + b, names, only) == assembly::kept_tools(a, names, only)
            + assembly::kept_tools(b, names, only),
        assembly::kept_tools(seq![tool], names, only) == (if is_chosen(names, only, tool.name) {
            seq![tool]
        } else {
            Seq::<ToolView>::empty()
        }),
    decreases b.len(),
{
    if b.len() == 0 {
        assert(a + b =~= a);
        assert(assembly::kept_tools(a, names, only) + assembly::kept_tools(b, names, only)
            =~= assembly::kept_tools(a, names, only));
    } else {
        chosen_tools_stay(a, b.drop_last(), tool, names, only);
        assert((a + b).drop_last() =~= a + b.drop_last());
        assert(assembly::kept_tools(a + b, names, only) =~= assembly::kept_tools(a, names, only)
            + assembly::kept_tools(b, names, only));
    }
    assert(seq![tool].drop_last() =~= Seq::empty());
    assert(assembly::kept_tools(Seq::<ToolView>::empty(), names, only) == Seq::<ToolView>::empty());
    chosen_tool_stays(names, only, tool.name);
    assert(assembly::kept_tools(seq![tool], names, only) =~= (if is_chosen(names, only, tool.name) {
        seq![tool]
    } else {
        Seq::<ToolView>::empty()
    }));
}

/// A tool stays if and only if it is chosen.
pub proof fn chosen_tool_stays(names: Seq<Seq<char>>, only: bool, tool: Seq<char>)
    ensures
        assembly::stays(names, only, tool) == is_chosen(names, only, tool),
{
    if names.contains(tool) {
        let i = choose|i: int| 0 <= i < names.len() && names[i] == tool;
        assert(names[i] == tool);
    }
}

/// One of the tools that a section is about stays; a section that is about none always counts.
pub open spec fn has_tool_left(
    names: Seq<Seq<char>>,
    only: bool,
    family: Option<Seq<Seq<char>>>,
) -> bool {
    match family {
        Some(family) => exists|i: int|
            0 <= i < family.len() && assembly::stays(names, only, #[trigger] family[i]),
        None => true,
    }
}

/// A section stays as long as one of its tools does, and always where it is of no tool; in order and
/// as it is.
pub proof fn sections_stay_with_a_tool(
    a: Seq<SectionView>,
    b: Seq<SectionView>,
    section: SectionView,
    names: Seq<Seq<char>>,
    only: bool,
)
    ensures
        assembly::kept_sections(a + b, names, only) == assembly::kept_sections(a, names, only)
            + assembly::kept_sections(b, names, only),
        assembly::kept_sections(seq![section], names, only) == (if has_tool_left(
            names,
            only,
            assembly::section_family(section.name),
        ) {
            seq![section]
        } else {
            Seq::<SectionView>::empty()
        }),
    decreases b.len(),
{
    if b.len() == 0 {
        assert(a + b =~= a);
        assert(assembly::kept_sections(a, names, only) + assembly::kept_sections(b, names, only)
            =~= assembly::kept_sections(a, names, only));
    } else {
        sections_stay_with_a_tool(a, b.drop_last(), section, names, only);
        assert((a + b).drop_last() =~= a + b.drop_last());
        assert(assembly::kept_sections(a + b, names, only) =~= assembly::kept_sections(
            a,
            names,
            only,
        ) + assembly::kept_sections(b, names, only));
    }
    assert(seq![section].drop_last() =~= Seq::empty());
    assert(assembly::kept_sections(Seq::<SectionView>::empty(), names, only) == Seq::<
        SectionView,
    >::empty());
    assert(assembly::kept_sections(seq![section], names, only) =~= (if assembly::section_stays(
        names,
        only,
        section.name,
    ) {
        seq![section]
    } else {
        Seq::<SectionView>::empty()
    }));
}

proof fn lemma_kept(tools: Seq<ToolView>, names: Seq<Seq<char>>, only: bool, tool: ToolView)
    requires
        tools.contains(tool),
        is_chosen(names, only, tool.name),
    ensures
        assembly::kept_tools(tools, names, only).contains(tool),
    decreases tools.len(),
{
    let i = choose|i: int| 0 <= i < tools.len() && tools[i] == tool;
    let rest = tools.drop_last();
    let kept = assembly::kept_tools(rest, names, only);
    let all = assembly::kept_tools(tools, names, only);
    chosen_tool_stays(names, only, tool.name);
    if i < rest.len() {
        assert(rest[i] == tool);
        lemma_kept(rest, names, only, tool);
        let k = choose|k: int| 0 <= k < kept.len() && kept[k] == tool;
        assert(all[k] == tool);
    } else {
        assert(all[kept.len() as int] == tool);
    }
}

/// A preset takes away no tool but those of the features that are off and, where it has a list, those
/// that are not on it. What it leaves stays as it is, but for the shell of a preset without
/// background jobs.
pub proof fn preset_leaves_the_other_tools(a: AssemblyView, p: PresetView, tool: ToolView)
    requires
        a.tools.contains(tool),
        !preset::goes_with_off(p.features, tool.name),
        p.tools matches Some(allowed) ==> is_chosen(allowed, true, tool.name),
    ensures
        exists|i: int|
            0 <= i < assembly::under_preset(a, p).tools.len() && {
                let left = #[trigger] assembly::under_preset(a, p).tools[i];
                left.name == tool.name && left.description == tool.description && (p.features.jobs
                    || tool.name != "bash"@ ==> left == tool)
            },
{
    preset::no_tool_is_excluded_twice(p.features);
    let names = preset::excluded(p.features);
    assert(!names.contains(tool.name));
    assert(is_chosen(names, false, tool.name)) by {
        assert forall|i: int| 0 <= i < names.len() implies #[trigger] names[i] != tool.name by {
            if names[i] == tool.name {
                assert(names.contains(tool.name));
            }
        }
    }
    lemma_kept(a.tools, names, false, tool);
    let on = assembly::kept_tools(a.tools, names, false);
    if let Some(allowed) = p.tools {
        lemma_kept(on, allowed, true, tool);
    }
    let tools = assembly::preset_tools(a.tools, p);
    let i = choose|i: int| 0 <= i < tools.len() && tools[i] == tool;
    let left = assembly::under_preset(a, p).tools[i];
    lemma_tool_at(tools, "bash"@, 0);
    assert(left.name == tool.name);
}

proof fn lemma_tool_at(tools: Seq<ToolView>, name: Seq<char>, from: int)
    requires
        0 <= from <= tools.len(),
    ensures
        match assembly::tool_at(tools, name, from) {
            Some(at) => from <= at < tools.len() && tools[at].name == name,
            None => forall|i: int| from <= i < tools.len() ==> (#[trigger] tools[i]).name != name,
        },
    decreases tools.len() - from,
{
    if from < tools.len() && tools[from].name != name {
        lemma_tool_at(tools, name, from + 1);
    }
}

/// A shell without background jobs does not offer them: the parameter is gone from its list and from
/// those that are required, and all else stays.
pub proof fn background_is_not_offered(map: Map<Seq<char>, JsonView>)
    ensures
        assembly::foreground_only(JsonView::Object(map)) matches JsonView::Object(left) && {
            &&& left.dom() == map.dom()
            &&& forall|key: Seq<char>|
                #[trigger] map.contains_key(key) && key != "properties"@ && key != "required"@
                    ==> left[key] == map[key]
            &&& map.contains_key("properties"@) ==> (map["properties"@] matches JsonView::Object(p)
                ==> (left["properties"@] matches JsonView::Object(q) && q == p.remove(
                "run_in_background"@,
            )))
            &&& map.contains_key("required"@) ==> (map["required"@] matches JsonView::Array(names)
                ==> (left["required"@] matches JsonView::Array(rest) && forall|i: int|
                0 <= i < rest.len() ==> #[trigger] rest[i] != JsonView::Text("run_in_background"@)
                    && names.contains(rest[i])))
        },
{
    reveal_strlit("properties");
    reveal_strlit("required");
    assert("properties"@.len() == 10 && "required"@.len() == 8);
    if let JsonView::Object(left) = assembly::foreground_only(JsonView::Object(map)) {
        assert(left.dom() =~= map.dom());
        if map.contains_key("required"@) {
            if let JsonView::Array(names) = map["required"@] {
                lemma_without_text(names, "run_in_background"@);
            }
        }
    }
}

proof fn lemma_without_text(items: Seq<JsonView>, gone: Seq<char>)
    ensures
        forall|i: int|
            0 <= i < json::without_text(items, gone).len() ==> #[trigger] json::without_text(
                items,
                gone,
            )[i] != JsonView::Text(gone) && items.contains(json::without_text(items, gone)[i]),
    decreases items.len(),
{
    if items.len() > 0 {
        let before = items.drop_last();
        lemma_without_text(before, gone);
        let rest = json::without_text(before, gone);
        let all = json::without_text(items, gone);
        assert forall|i: int| 0 <= i < all.len() implies #[trigger] all[i] != JsonView::Text(gone)
            && items.contains(all[i]) by {
            if i < rest.len() {
                assert(all[i] == rest[i]);
                let k = choose|k: int| 0 <= k < before.len() && before[k] == rest[i];
                assert(items[k] == all[i]);
            } else {
                assert(items[items.len() - 1] == all[i]);
            }
        }
    }
}

/// The runtime's tools are offered beside those that are there, each under a name that is not taken;
/// what was there stays where it was.
pub proof fn runtime_tools_are_added(tools: Seq<ToolView>, list: Seq<ToolView>, i: int)
    ensures
        tools.is_prefix_of(step::with_missing(tools, list)),
        0 <= i < list.len() ==> exists|k: int|
            0 <= k < step::with_missing(tools, list).len() && (#[trigger] step::with_missing(
                tools,
                list,
            )[k]).name == list[i].name,
        forall|k: int|
            tools.len() <= k < step::with_missing(tools, list).len() ==> list.contains(
                #[trigger] step::with_missing(tools, list)[k],
            ),
    decreases list.len(),
{
    let all = step::with_missing(tools, list);
    if list.len() == 0 {
        assert(all.subrange(0, tools.len() as int) =~= tools);
    } else {
        let rest = list.drop_last();
        let before = step::with_missing(tools, rest);
        runtime_tools_are_added(tools, rest, i);
        lemma_tool_at(before, list.last().name, 0);
        assert(all.subrange(0, tools.len() as int) =~= before.subrange(0, tools.len() as int));
        if 0 <= i < list.len() {
            if i < rest.len() {
                let k = choose|k: int|
                    0 <= k < before.len() && (#[trigger] before[k]).name == rest[i].name;
                assert(all[k].name == list[i].name);
            } else {
                match assembly::tool_at(before, list.last().name, 0) {
                    Some(at) => {
                        assert(all[at].name == list[i].name);
                    },
                    None => {
                        assert(all[before.len() as int].name == list[i].name);
                    },
                }
            }
        }
        assert forall|k: int| tools.len() <= k < all.len() implies list.contains(
            #[trigger] all[k],
        ) by {
            if k < before.len() {
                assert(rest.contains(before[k]));
                let m = choose|m: int| 0 <= m < rest.len() && rest[m] == before[k];
                assert(list[m] == all[k]);
            } else {
                assert(list[list.len() - 1] == all[k]);
            }
        }
    }
}

/// Without a preset, a subagent or a runtime, and in any mode but the one that only reads, every tool
/// is offered as it is; and in the one that only reads, every tool but those that write.
pub proof fn other_tools_are_offered(a: AssemblyView, inputs: InputsView, tool: ToolView)
    requires
        inputs.runtime is None,
        inputs.preset is None,
        inputs.subagent is None,
        a.tools.contains(tool),
    ensures
        inputs.mode != PermissionMode::ReadOnly ==> step::assembled(a, inputs).tools == a.tools,
        inputs.mode == PermissionMode::ReadOnly && tool.name != "bash"@ && tool.name
            != "write_file"@ && tool.name != "edit"@ ==> step::assembled(a, inputs).tools.contains(
            tool,
        ),
{
    if tool.name != "bash"@ && tool.name != "write_file"@ && tool.name != "edit"@ {
        lemma_kept(a.tools, step::writing_tools(), false, tool);
    }
}

proof fn lemma_section_at(sections: Seq<SectionView>, name: Seq<char>, from: int)
    requires
        0 <= from <= sections.len(),
    ensures
        match assembly::section_at(sections, name, from) {
            Some(at) => from <= at < sections.len() && sections[at].name == name && forall|i: int|
                from <= i < at ==> (#[trigger] sections[i]).name != name,
            None => forall|i: int|
                from <= i < sections.len() ==> (#[trigger] sections[i]).name != name,
        },
    decreases sections.len() - from,
{
    if from < sections.len() && sections[from].name != name {
        lemma_section_at(sections, name, from + 1);
    }
}

/// A persona that says something takes the place of the usual one, and nothing else changes.
pub proof fn persona_takes_its_place(sections: Seq<SectionView>, persona: Seq<char>, at: int)
    requires
        0 <= at < sections.len(),
        sections[at].name == PERSONA_SECTION@,
        forall|i: int| 0 <= i < at ==> (#[trigger] sections[i]).name != PERSONA_SECTION@,
    ensures
        ({
            let says = exists|i: int| 0 <= i < persona.len() && !text::is_space(#[trigger] persona[i]);
            let own = assembly::with_persona(sections, Some(persona));
            &&& says ==> own == sections.update(
                at,
                SectionView { text: persona + PERSONA_SUFFIX@, ..sections[at] },
            )
            &&& !says ==> own == sections
            &&& assembly::with_persona(sections, None) == sections
        }),
{
    lemma_section_at(sections, PERSONA_SECTION@, 0);
    text_laws::blank_text_is_white_space(persona);
}

/// The memory's section says what the memory holds, and is left out where there is no memory; the
/// other sections and the tools stay.
pub proof fn memory_has_its_section(a: AssemblyView, section: Option<Seq<char>>, at: int)
    requires
        0 <= at < a.sections.len(),
        a.sections[at].name == MEMORY_SECTION@,
        forall|i: int| 0 <= i < at ==> (#[trigger] a.sections[i]).name != MEMORY_SECTION@,
    ensures
        step::with_memory(a, section).tools == a.tools,
        section matches Some(text) ==> step::with_memory(a, section).sections == a.sections.update(
            at,
            SectionView { text, ..a.sections[at] },
        ),
        section is None ==> step::with_memory(a, section).sections == a.sections.remove(at),
{
    lemma_section_at(a.sections, MEMORY_SECTION@, 0);
}

/// A session runs under the preset that it chose, where there is one under that id, and under the
/// usual one where it chose none.
pub proof fn chosen_preset_counts<S: AgentPresetSource>(source: &S, id: Seq<char>)
    ensures
        source.preset_under(id) is Some ==> driver::chosen_preset(Some(source), Some(id))
            == source.preset_under(id),
        driver::chosen_preset(Some(source), None) == source.preset_under(source.usual_id()),
        driver::chosen_preset(None::<&S>, Some(id)) is None,
{
}

/// A roster gives the first preset under an id.
pub proof fn first_preset_is_found(presets: Seq<PresetView>, id: Seq<char>, from: int, at: int)
    requires
        0 <= from <= at < presets.len(),
        presets[at].id == id,
        forall|j: int| from <= j < at ==> (#[trigger] presets[j]).id != id,
    ensures
        driver::first_under(presets, id, from) == Some(presets[at]),
    decreases at - from,
{
    if from < at {
        first_preset_is_found(presets, id, from + 1, at);
    }
}

/// A roster gives nothing under an id that no preset has.
pub proof fn unknown_preset_is_not_found(presets: Seq<PresetView>, id: Seq<char>, from: int)
    requires
        0 <= from <= presets.len(),
        forall|j: int| from <= j < presets.len() ==> (#[trigger] presets[j]).id != id,
    ensures
        driver::first_under(presets, id, from) is None,
    decreases presets.len() - from,
{
    if from < presets.len() {
        unknown_preset_is_not_found(presets, id, from + 1);
    }
}



} // verus!
